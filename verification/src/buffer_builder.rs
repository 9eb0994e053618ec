//! The mesh builder: accumulates a flat vertex buffer of stride-eight
//! records — position, flat normal, texture coordinates — plus a running
//! vertex count.
//!
//! A face is a planar quad given by four corners in consistent winding:
//! top-left, bottom-left, bottom-right, top-right in face-local space. Its
//! flat normal is the normalized cross product of its two diagonals, which
//! the builder computes exactly; for that the cross product must point
//! along one axis, as it does for every face of an axis-aligned cuboid.
//! Each face is emitted as two triangles of three vertices each, every
//! vertex carrying the face normal and its corner of the texture region.
//! No culling of faces shared between neighboring blocks is performed.

use crate::block::{Block, BLOCK_WORLD_LIMIT};
use crate::block_texture::{
    cuboid_textures_spec, first_missing_side, generate_cuboid_texture, texture_name_spec,
    BlockTextures, CuboidTextures, TextureNotFoundError, TextureUV,
};
use crate::geom::{vec_within, Vec3, SCALE};
use crate::mymath::BlockPosInWorld;
use crate::ray::lemma_sign;
use vstd::prelude::*;

verus! {

/// Largest admitted magnitude of a mesh vertex coordinate.
pub const MESH_POS_LIMIT: i64 = 1_000_000_000_000_000_000;

/// The cross product of the two diagonals of the quad `p1 p2 p3 p4`:
/// the third corner minus the first, crossed with the second minus the
/// fourth.
pub open spec fn face_cross(p1: Vec3, p2: Vec3, p3: Vec3, p4: Vec3) -> (int, int, int) {
    let ux = p3.x - p1.x;
    let uy = p3.y - p1.y;
    let uz = p3.z - p1.z;
    let wx = p2.x - p4.x;
    let wy = p2.y - p4.y;
    let wz = p2.z - p4.z;
    (uy * wz - uz * wy, uz * wx - ux * wz, ux * wy - uy * wx)
}

/// The vector points along exactly one axis.
pub open spec fn axis_aligned(n: (int, int, int)) -> bool {
    ||| (n.0 != 0 && n.1 == 0 && n.2 == 0)
    ||| (n.0 == 0 && n.1 != 0 && n.2 == 0)
    ||| (n.0 == 0 && n.1 == 0 && n.2 != 0)
}

/// The sign of `v`, scaled to `SCALE`.
pub open spec fn sign_scaled(v: int) -> int {
    if v > 0 {
        SCALE as int
    } else if v < 0 {
        -(SCALE as int)
    } else {
        0
    }
}

/// The quad's unit normal scaled by `SCALE`: for an axis-aligned cross
/// product, normalization leaves the sign of the one nonzero component.
pub open spec fn face_normal_scaled(p1: Vec3, p2: Vec3, p3: Vec3, p4: Vec3) -> (int, int, int) {
    let c = face_cross(p1, p2, p3, p4);
    (sign_scaled(c.0), sign_scaled(c.1), sign_scaled(c.2))
}

/// One stride-eight vertex record: position, normal, texture coordinates.
pub open spec fn vertex_seq(p: Vec3, n: (int, int, int), u: i64, v: i64) -> Seq<i64> {
    seq![p.x, p.y, p.z, n.0 as i64, n.1 as i64, n.2 as i64, u, v]
}

/// The forty-eight values of one face: the triangles `p1 p2 p3` and
/// `p1 p3 p4`, each vertex carrying the face normal and its corner of the
/// texture region.
pub open spec fn face_seq(p1: Vec3, p2: Vec3, p3: Vec3, p4: Vec3, uv: TextureUV) -> Seq<i64> {
    let n = face_normal_scaled(p1, p2, p3, p4);
    vertex_seq(p1, n, uv.begin_u, uv.end_v) + vertex_seq(p2, n, uv.begin_u, uv.begin_v)
        + vertex_seq(p3, n, uv.end_u, uv.begin_v) + vertex_seq(p1, n, uv.begin_u, uv.end_v)
        + vertex_seq(p3, n, uv.end_u, uv.begin_v) + vertex_seq(p4, n, uv.end_u, uv.end_v)
}

/// The six faces of the axis-aligned cuboid from `b` to `e`, in the fixed
/// order top, bottom, south, north, west, east, with the corner orderings
/// of each face fixed by this builder's convention.
#[verifier::opaque]
pub open spec fn cuboid_seq(b: Vec3, e: Vec3, t: CuboidTextures) -> Seq<i64> {
    face_seq(
        Vec3 { x: b.x, y: e.y, z: b.z },
        Vec3 { x: b.x, y: e.y, z: e.z },
        e,
        Vec3 { x: e.x, y: e.y, z: b.z },
        t.top,
    ) + face_seq(
        Vec3 { x: e.x, y: b.y, z: b.z },
        Vec3 { x: e.x, y: b.y, z: e.z },
        Vec3 { x: b.x, y: b.y, z: e.z },
        b,
        t.bottom,
    ) + face_seq(
        Vec3 { x: b.x, y: e.y, z: b.z },
        Vec3 { x: b.x, y: b.y, z: b.z },
        Vec3 { x: b.x, y: b.y, z: e.z },
        Vec3 { x: b.x, y: e.y, z: e.z },
        t.south,
    ) + face_seq(
        Vec3 { x: e.x, y: e.y, z: e.z },
        Vec3 { x: e.x, y: b.y, z: e.z },
        Vec3 { x: e.x, y: b.y, z: b.z },
        Vec3 { x: e.x, y: e.y, z: b.z },
        t.north,
    ) + face_seq(
        Vec3 { x: e.x, y: e.y, z: b.z },
        Vec3 { x: e.x, y: b.y, z: b.z },
        Vec3 { x: b.x, y: b.y, z: b.z },
        Vec3 { x: b.x, y: e.y, z: b.z },
        t.west,
    ) + face_seq(
        Vec3 { x: b.x, y: e.y, z: e.z },
        Vec3 { x: b.x, y: b.y, z: e.z },
        Vec3 { x: e.x, y: b.y, z: e.z },
        Vec3 { x: e.x, y: e.y, z: e.z },
        t.east,
    )
}

/// The world corner of the block at `pos` closer to minus infinity on all
/// three axes.
pub open spec fn block_corner(pos: BlockPosInWorld) -> Vec3 {
    Vec3 { x: (pos.x * SCALE) as i64, y: (pos.y * SCALE) as i64, z: (pos.z * SCALE) as i64 }
}

/// The opposite world corner of the block at `pos`: one block size further
/// on every axis.
pub open spec fn block_corner_end(pos: BlockPosInWorld) -> Vec3 {
    Vec3 {
        x: (pos.x * SCALE + SCALE) as i64,
        y: (pos.y * SCALE + SCALE) as i64,
        z: (pos.z * SCALE + SCALE) as i64,
    }
}

/// The mesh of one block: the unit cuboid at its world position.
#[verifier::opaque]
pub open spec fn block_seq(pos: BlockPosInWorld, t: CuboidTextures) -> Seq<i64> {
    cuboid_seq(block_corner(pos), block_corner_end(pos), t)
}

/// Appends one stride-eight vertex record.
fn push_vertex(
    buffer: &mut Vec<i64>,
    px: i64,
    py: i64,
    pz: i64,
    nx: i64,
    ny: i64,
    nz: i64,
    u: i64,
    v: i64,
)
    ensures
        final(buffer)@ == old(buffer)@ + seq![px, py, pz, nx, ny, nz, u, v],
{
    buffer.push(px);
    buffer.push(py);
    buffer.push(pz);
    buffer.push(nx);
    buffer.push(ny);
    buffer.push(nz);
    buffer.push(u);
    buffer.push(v);
    proof {
        assert(buffer@ =~= old(buffer)@ + seq![px, py, pz, nx, ny, nz, u, v]);
    }
}

/// Accumulates the flat vertex buffer and the vertex count.
#[derive(Debug)]
pub struct BufferBuilder {
    buffer: Vec<i64>,
    vertex_num: i32,
}

impl BufferBuilder {
    /// The accumulated values.
    pub closed spec fn buffer_spec(&self) -> Seq<i64> {
        self.buffer@
    }

    /// The accumulated vertex count.
    pub closed spec fn vertex_num_spec(&self) -> int {
        self.vertex_num as int
    }

    /// The builder is well formed: the count is the number of accumulated
    /// stride-eight records. Constructors establish this and every method
    /// keeps it.
    pub open spec fn wf(&self) -> bool {
        self.vertex_num_spec() >= 0 && self.buffer_spec().len() == 8 * self.vertex_num_spec()
    }

    pub fn new() -> (r: BufferBuilder)
        ensures
            r.wf(),
            r.buffer_spec().len() == 0,
            r.vertex_num_spec() == 0,
    {
        BufferBuilder { buffer: Vec::new(), vertex_num: 0 }
    }

    pub fn with_capacity(capacity: usize) -> (r: BufferBuilder)
        ensures
            r.wf(),
            r.buffer_spec().len() == 0,
            r.vertex_num_spec() == 0,
    {
        BufferBuilder { buffer: Vec::with_capacity(capacity), vertex_num: 0 }
    }

    /// The accumulated buffer, stride-eight records of position, normal
    /// and texture coordinates, all in raw fixed-point steps.
    pub fn buffer(&self) -> (r: &Vec<i64>)
        ensures
            r@ == self.buffer_spec(),
    {
        &self.buffer
    }

    /// How many vertices the buffer holds.
    pub fn vertex_num(&self) -> (r: i32)
        ensures
            r == self.vertex_num_spec(),
    {
        self.vertex_num
    }

    /// Appends one face. The quad must be planar with its diagonal cross
    /// product along one axis, so that the flat normal is exact.
    pub fn add_face(&mut self, p1: &Vec3, p2: &Vec3, p3: &Vec3, p4: &Vec3, uv: &TextureUV)
        requires
            old(self).wf(),
            vec_within(*p1, MESH_POS_LIMIT as int),
            vec_within(*p2, MESH_POS_LIMIT as int),
            vec_within(*p3, MESH_POS_LIMIT as int),
            vec_within(*p4, MESH_POS_LIMIT as int),
            axis_aligned(face_cross(*p1, *p2, *p3, *p4)),
            old(self).vertex_num_spec() + 6 <= i32::MAX,
        ensures
            final(self).wf(),
            final(self).buffer_spec() == old(self).buffer_spec() + face_seq(
                *p1,
                *p2,
                *p3,
                *p4,
                *uv,
            ),
            final(self).vertex_num_spec() == old(self).vertex_num_spec() + 6,
    {
        proof {
            crate::geom::lemma_axes(*p1);
            crate::geom::lemma_axes(*p2);
            crate::geom::lemma_axes(*p3);
            crate::geom::lemma_axes(*p4);
        }
        let ux: i64 = p3.x - p1.x;
        let uy: i64 = p3.y - p1.y;
        let uz: i64 = p3.z - p1.z;
        let wx: i64 = p2.x - p4.x;
        let wy: i64 = p2.y - p4.y;
        let wz: i64 = p2.z - p4.z;
        proof {
            let lim: int = 2 * MESH_POS_LIMIT as int;
            crate::geom::lemma_mul_bound_both(uy as int, wz as int, lim, lim);
            crate::geom::lemma_mul_bound_both(uz as int, wy as int, lim, lim);
            crate::geom::lemma_mul_bound_both(uz as int, wx as int, lim, lim);
            crate::geom::lemma_mul_bound_both(ux as int, wz as int, lim, lim);
            crate::geom::lemma_mul_bound_both(ux as int, wy as int, lim, lim);
            crate::geom::lemma_mul_bound_both(uy as int, wx as int, lim, lim);
        }
        let cx: i128 = (uy as i128) * (wz as i128) - (uz as i128) * (wy as i128);
        let cy: i128 = (uz as i128) * (wx as i128) - (ux as i128) * (wz as i128);
        let cz: i128 = (ux as i128) * (wy as i128) - (uy as i128) * (wx as i128);
        let nx: i64 = if cx > 0 {
            SCALE
        } else if cx < 0 {
            -SCALE
        } else {
            0
        };
        let ny: i64 = if cy > 0 {
            SCALE
        } else if cy < 0 {
            -SCALE
        } else {
            0
        };
        let nz: i64 = if cz > 0 {
            SCALE
        } else if cz < 0 {
            -SCALE
        } else {
            0
        };
        proof {
            let c = face_cross(*p1, *p2, *p3, *p4);
            assert(cx == c.0 && cy == c.1 && cz == c.2);
            assert(nx as int == sign_scaled(c.0));
            assert(ny as int == sign_scaled(c.1));
            assert(nz as int == sign_scaled(c.2));
        }
        push_vertex(&mut self.buffer, p1.x, p1.y, p1.z, nx, ny, nz, uv.begin_u, uv.end_v);
        push_vertex(&mut self.buffer, p2.x, p2.y, p2.z, nx, ny, nz, uv.begin_u, uv.begin_v);
        push_vertex(&mut self.buffer, p3.x, p3.y, p3.z, nx, ny, nz, uv.end_u, uv.begin_v);
        push_vertex(&mut self.buffer, p1.x, p1.y, p1.z, nx, ny, nz, uv.begin_u, uv.end_v);
        push_vertex(&mut self.buffer, p3.x, p3.y, p3.z, nx, ny, nz, uv.end_u, uv.begin_v);
        push_vertex(&mut self.buffer, p4.x, p4.y, p4.z, nx, ny, nz, uv.end_u, uv.end_v);
        self.vertex_num = self.vertex_num + 6;
        proof {
            assert(self.buffer@ =~= old(self).buffer_spec() + face_seq(*p1, *p2, *p3, *p4, *uv));
        }
    }

    /// Appends all six faces of an axis-aligned cuboid. `begin` is the
    /// corner closer to minus infinity on all three axes, strictly so on
    /// each, and `end` the opposite corner.
    pub fn add_cuboid(&mut self, begin: &Vec3, end: &Vec3, textures: &CuboidTextures)
        requires
            old(self).wf(),
            vec_within(*begin, MESH_POS_LIMIT as int),
            vec_within(*end, MESH_POS_LIMIT as int),
            begin.x < end.x,
            begin.y < end.y,
            begin.z < end.z,
            old(self).vertex_num_spec() + 36 <= i32::MAX,
        ensures
            final(self).wf(),
            final(self).buffer_spec() == old(self).buffer_spec() + cuboid_seq(
                *begin,
                *end,
                *textures,
            ),
            final(self).vertex_num_spec() == old(self).vertex_num_spec() + 36,
    {
        proof {
            crate::geom::lemma_axes(*begin);
            crate::geom::lemma_axes(*end);
            let a = end.x - begin.x;
            let h = end.y - begin.y;
            let c = end.z - begin.z;
            lemma_sign(a as int, c as int);
            lemma_sign(h as int, c as int);
            lemma_sign(a as int, h as int);
            lemma_cross_products(a as int, h as int, c as int);
        }
        let p_top_1 = Vec3 { x: begin.x, y: end.y, z: begin.z };
        let p_top_2 = Vec3 { x: begin.x, y: end.y, z: end.z };
        let p_top_4 = Vec3 { x: end.x, y: end.y, z: begin.z };
        self.add_face(&p_top_1, &p_top_2, end, &p_top_4, &textures.top);

        let p_bot_1 = Vec3 { x: end.x, y: begin.y, z: begin.z };
        let p_bot_2 = Vec3 { x: end.x, y: begin.y, z: end.z };
        let p_bot_3 = Vec3 { x: begin.x, y: begin.y, z: end.z };
        self.add_face(&p_bot_1, &p_bot_2, &p_bot_3, begin, &textures.bottom);

        let p_s_1 = Vec3 { x: begin.x, y: end.y, z: begin.z };
        let p_s_2 = Vec3 { x: begin.x, y: begin.y, z: begin.z };
        let p_s_3 = Vec3 { x: begin.x, y: begin.y, z: end.z };
        let p_s_4 = Vec3 { x: begin.x, y: end.y, z: end.z };
        self.add_face(&p_s_1, &p_s_2, &p_s_3, &p_s_4, &textures.south);

        let p_n_1 = Vec3 { x: end.x, y: end.y, z: end.z };
        let p_n_2 = Vec3 { x: end.x, y: begin.y, z: end.z };
        let p_n_3 = Vec3 { x: end.x, y: begin.y, z: begin.z };
        let p_n_4 = Vec3 { x: end.x, y: end.y, z: begin.z };
        self.add_face(&p_n_1, &p_n_2, &p_n_3, &p_n_4, &textures.north);

        let p_w_1 = Vec3 { x: end.x, y: end.y, z: begin.z };
        let p_w_2 = Vec3 { x: end.x, y: begin.y, z: begin.z };
        let p_w_3 = Vec3 { x: begin.x, y: begin.y, z: begin.z };
        let p_w_4 = Vec3 { x: begin.x, y: end.y, z: begin.z };
        self.add_face(&p_w_1, &p_w_2, &p_w_3, &p_w_4, &textures.west);

        let p_e_1 = Vec3 { x: begin.x, y: end.y, z: end.z };
        let p_e_2 = Vec3 { x: begin.x, y: begin.y, z: end.z };
        let p_e_3 = Vec3 { x: end.x, y: begin.y, z: end.z };
        let p_e_4 = Vec3 { x: end.x, y: end.y, z: end.z };
        self.add_face(&p_e_1, &p_e_2, &p_e_3, &p_e_4, &textures.east);

        proof {
            reveal(cuboid_seq);
            assert(self.buffer_spec() =~= old(self).buffer_spec() + cuboid_seq(
                *begin,
                *end,
                *textures,
            ));
        }
    }

    /// Appends the unit cuboid of one block at its world position, with
    /// its six face textures resolved from the atlas table. Fails, adding
    /// nothing, when a face's texture name is missing from the table.
    pub fn add_block(&mut self, begin: &BlockPosInWorld, block: &Block, textures: &BlockTextures)
        -> (r: Result<(), TextureNotFoundError>)
        requires
            old(self).wf(),
            -BLOCK_WORLD_LIMIT <= begin.x <= BLOCK_WORLD_LIMIT,
            -BLOCK_WORLD_LIMIT <= begin.y <= BLOCK_WORLD_LIMIT,
            -BLOCK_WORLD_LIMIT <= begin.z <= BLOCK_WORLD_LIMIT,
            old(self).vertex_num_spec() + 36 <= i32::MAX,
        ensures
            final(self).wf(),
            r is Ok <==> cuboid_textures_spec(*block, textures@) is Some,
            r is Ok ==> final(self).buffer_spec() == old(self).buffer_spec() + block_seq(
                *begin,
                cuboid_textures_spec(*block, textures@)->0,
            ) && final(self).vertex_num_spec() == old(self).vertex_num_spec() + 36,
            r matches Err(e) ==> *final(self) == *old(self) && e.side == first_missing_side(
                *block,
                textures@,
            ) && e.name@ == texture_name_spec(*block, e.side) && e.block == *block,
    {
        let ct = match generate_cuboid_texture(block, textures) {
            Ok(ct) => ct,
            Err(e) => {
                return Err(e);
            },
        };
        let corner = Vec3 { x: begin.x * SCALE, y: begin.y * SCALE, z: begin.z * SCALE };
        let corner_end = Vec3 {
            x: begin.x * SCALE + SCALE,
            y: begin.y * SCALE + SCALE,
            z: begin.z * SCALE + SCALE,
        };
        proof {
            reveal(block_seq);
            crate::geom::lemma_axes(corner);
            crate::geom::lemma_axes(corner_end);
            assert(corner == block_corner(*begin));
            assert(corner_end == block_corner_end(*begin));
        }
        self.add_cuboid(&corner, &corner_end, &ct);
        Ok(())
    }
}

/// The cross products of the diagonal pairs of the six faces of a cuboid
/// with positive extents `a`, `h`, `c` along x, y, z: each points along
/// one axis.
proof fn lemma_cross_products(a: int, h: int, c: int)
    by (nonlinear_arith)
    requires
        a > 0,
        h > 0,
        c > 0,
    ensures
        0 * c - c * 0 == 0 && c * (-a) - a * c < 0 && a * 0 - 0 * (-a) == 0,
        c * a - (-a) * c > 0 && (-a) * 0 - 0 * a == 0,
        (-h) * (-c) - c * (-h) > 0 && c * 0 - 0 * (-c) == 0 && 0 * (-h) - (-h) * 0 == 0,
        (-h) * c - (-c) * (-h) < 0 && (-c) * 0 - 0 * c == 0,
        (-h) * 0 - 0 * (-h) == 0 && 0 * a - (-a) * 0 == 0 && (-a) * (-h) - (-h) * a > 0,
        0 * (-a) - (-a) * 0 == 0 && a * (-h) - (-h) * (-a) < 0,
{
}

} // verus!
