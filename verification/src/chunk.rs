//! A chunk: a fixed 16 by 16 by 16 grid of optional blocks, owning its
//! position in the chunk lattice, its collision geometry and its mesh.

use crate::block::{block_aabb_spec, get_block_aabbs, Block};
use crate::block_texture::{
    cuboid_textures_spec, first_missing_side, texture_name_spec, BlockTextures,
    TextureNotFoundError, TextureUV,
};
use crate::buffer_builder::{block_seq, BufferBuilder};
use crate::geom::{Aabb, STATIC_BOX_LIMIT};
use crate::mymath::{index_of, BlockPosInChunk, BlockPosInWorld, ChunkPos};
use vstd::prelude::*;

verus! {

/// The absolute position of the slot with local components `v` in the
/// chunk at `cpos`.
pub open spec fn world_pos_of(cpos: ChunkPos, v: (int, int, int)) -> BlockPosInWorld {
    BlockPosInWorld {
        x: (16 * cpos.x + v.0) as i64,
        y: (16 * cpos.y + v.1) as i64,
        z: (16 * cpos.z + v.2) as i64,
    }
}

/// The local components of slot-scan step `j`, scanned in the order the
/// chunk walks its slots: x outermost, then y, then z.
pub open spec fn scan_pos(j: int) -> (int, int, int) {
    (j / 256, (j % 256) / 16, j % 16)
}

/// The collision boxes of the first `k` scanned slots of a chunk at
/// `cpos` with the given slot contents: one unit cube per occupied slot,
/// in scan order.
pub open spec fn chunk_aabbs_upto(blocks: Seq<Option<Block>>, cpos: ChunkPos, k: int) -> Seq<Aabb>
    decreases k,
{
    if k <= 0 {
        Seq::empty()
    } else {
        let j = k - 1;
        let prev = chunk_aabbs_upto(blocks, cpos, j);
        match blocks[index_of(scan_pos(j))] {
            Some(b) => prev + seq![block_aabb_spec(world_pos_of(cpos, scan_pos(j)))],
            None => prev,
        }
    }
}

/// The mesh of the first `k` scanned slots of a chunk at `cpos`: the unit
/// cuboid of every occupied slot, in scan order, with face textures
/// resolved from the atlas table `t`. Meaningful under `chunk_tex_ok`.
pub open spec fn chunk_mesh_upto(
    blocks: Seq<Option<Block>>,
    cpos: ChunkPos,
    t: Seq<(Seq<char>, TextureUV)>,
    k: int,
) -> Seq<i64>
    decreases k,
{
    if k <= 0 {
        Seq::empty()
    } else {
        let j = k - 1;
        let prev = chunk_mesh_upto(blocks, cpos, t, j);
        match blocks[index_of(scan_pos(j))] {
            Some(b) => prev + block_seq(
                world_pos_of(cpos, scan_pos(j)),
                cuboid_textures_spec(b, t)->0,
            ),
            None => prev,
        }
    }
}

/// Every occupied slot among the first `k` holds a block whose six face
/// textures the atlas table resolves.
pub open spec fn chunk_tex_ok(
    blocks: Seq<Option<Block>>,
    t: Seq<(Seq<char>, TextureUV)>,
    k: int,
) -> bool {
    forall|j: int|
        0 <= j < k ==> (#[trigger] blocks[index_of(scan_pos(j))] is Some ==> cuboid_textures_spec(
            blocks[index_of(scan_pos(j))]->0,
            t,
        ) is Some)
}

/// How many of the first `k` scanned slots are occupied.
pub open spec fn occupied_upto(blocks: Seq<Option<Block>>, k: int) -> int
    decreases k,
{
    if k <= 0 {
        0
    } else {
        occupied_upto(blocks, k - 1) + (if blocks[index_of(scan_pos(k - 1))] is Some {
            1int
        } else {
            0int
        })
    }
}

/// The occupied-slot count grows by at most one per slot.
pub proof fn lemma_occupied_bound(blocks: Seq<Option<Block>>, k: int)
    requires
        0 <= k,
    ensures
        0 <= occupied_upto(blocks, k) <= k,
    decreases k,
{
    if k > 0 {
        lemma_occupied_bound(blocks, k - 1);
    }
}

/// A fixed 16 by 16 by 16 grid of optional blocks at one chunk position.
/// Slots start empty and are only ever overwritten with a block; there is
/// no removal.
pub struct Chunk {
    blocks: Vec<Option<Block>>,
    position: ChunkPos,
}

impl Chunk {
    /// The chunk is well formed: it has exactly one slot per grid cell.
    /// Constructors establish this and every method keeps it.
    pub open spec fn wf(&self) -> bool {
        self.blocks_spec().len() == 4096
    }

    /// The slot contents, one entry per linear slot index.
    pub closed spec fn blocks_spec(&self) -> Seq<Option<Block>> {
        self.blocks@
    }

    /// The chunk's position in the chunk lattice.
    pub closed spec fn pos_spec(&self) -> ChunkPos {
        self.position
    }

    /// Builds an empty chunk: every slot empty.
    pub fn new(position: ChunkPos) -> (r: Chunk)
        ensures
            r.wf(),
            r.pos_spec() == position,
            forall|i: int| 0 <= i < 4096 ==> r.blocks_spec()[i] is None,
    {
        let mut blocks: Vec<Option<Block>> = Vec::new();
        let mut i: usize = 0;
        while i < 4096
            invariant
                i <= 4096,
                blocks@.len() == i,
                forall|k: int| 0 <= k < i ==> blocks@[k] is None,
            decreases 4096 - i,
        {
            blocks.push(None);
            i += 1;
        }
        Chunk { blocks, position }
    }

    pub fn position(&self) -> (r: &ChunkPos)
        ensures
            *r == self.pos_spec(),
    {
        &self.position
    }

    /// Writes a block into the slot at `pos`, overwriting whatever the
    /// slot held.
    pub fn set_block(&mut self, block: &Block, pos: &BlockPosInChunk)
        requires
            old(self).wf(),
        ensures
            final(self).wf(),
            final(self).blocks_spec() == old(self).blocks_spec().update(
                index_of(pos@),
                Some(*block),
            ),
            final(self).pos_spec() == old(self).pos_spec(),
    {
        let idx = pos.index();
        self.blocks.set(idx, Some(*block));
    }

    /// The block in the slot at `pos`, if the slot is occupied.
    pub fn get_block(&self, pos: &BlockPosInChunk) -> (r: Option<Block>)
        requires
            self.wf(),
        ensures
            r == self.blocks_spec()[index_of(pos@)],
    {
        let idx = pos.index();
        self.blocks[idx]
    }

    /// The collision boxes of this chunk: one unit cube in world space per
    /// occupied slot, in slot-scan order. An empty chunk yields no boxes.
    #[verifier::loop_isolation(false)]
    #[verifier::rlimit(60)]
    pub fn aabbs_for_collision(&self) -> (r: Vec<Aabb>)
        requires
            self.wf(),
        ensures
            r@ == chunk_aabbs_upto(self.blocks_spec(), self.pos_spec(), 4096),
            forall|i: int|
                0 <= i < r@.len() ==> (#[trigger] r@[i]).wf() && r@[i].within(
                    STATIC_BOX_LIMIT as int,
                ),
    {
        let mut r: Vec<Aabb> = Vec::new();
        let mut x: u32 = 0;
        while x < 16
            invariant
                x <= 16,
                r@ == chunk_aabbs_upto(self.blocks_spec(), self.pos_spec(), 256 * x),
                forall|i: int|
                    0 <= i < r@.len() ==> (#[trigger] r@[i]).wf() && r@[i].within(
                        STATIC_BOX_LIMIT as int,
                    ),
            decreases 16 - x,
        {
            let mut y: u32 = 0;
            while y < 16
                invariant
                    x < 16,
                    y <= 16,
                    r@ == chunk_aabbs_upto(
                        self.blocks_spec(),
                        self.pos_spec(),
                        256 * x + 16 * y,
                    ),
                    forall|i: int|
                        0 <= i < r@.len() ==> (#[trigger] r@[i]).wf() && r@[i].within(
                            STATIC_BOX_LIMIT as int,
                        ),
                decreases 16 - y,
            {
                let mut z: u32 = 0;
                while z < 16
                    invariant
                        x < 16,
                        y < 16,
                        z <= 16,
                        r@ == chunk_aabbs_upto(
                            self.blocks_spec(),
                            self.pos_spec(),
                            256 * x + 16 * y + z,
                        ),
                        forall|i: int|
                            0 <= i < r@.len() ==> (#[trigger] r@[i]).wf() && r@[i].within(
                                STATIC_BOX_LIMIT as int,
                            ),
                    decreases 16 - z,
                {
                    let ghost j = 256 * x + 16 * y + z;
                    let pos = BlockPosInChunk::new(x, y, z).unwrap();
                    proof {
                        assert(scan_pos(j as int) == (x as int, y as int, z as int));
                        assert(pos@ == (x as int, y as int, z as int));
                    }
                    let index = pos.index();
                    if let Some(block) = self.blocks[index] {
                        let pos_in_world = BlockPosInWorld::from_chunk_pos(&self.position, &pos);
                        proof {
                            assert(pos_in_world == world_pos_of(
                                self.pos_spec(),
                                (x as int, y as int, z as int),
                            ));
                        }
                        let mut cubes = get_block_aabbs(&block, &pos_in_world);
                        r.append(&mut cubes);
                    }
                    z += 1;
                }
                y += 1;
            }
            x += 1;
        }
        r
    }

    /// Appends this chunk's mesh to a builder: the unit cuboid of every
    /// occupied slot, in slot-scan order, faces textured through the
    /// block's face-name table. Fails on the first occupied slot whose
    /// block asks for a texture name the atlas table does not hold,
    /// reporting that name and face; the builder then holds the mesh of
    /// the slots before the failing one.
    #[verifier::loop_isolation(false)]
    #[verifier::rlimit(100)]
    pub fn emit_mesh(&self, builder: &mut BufferBuilder, textures: &BlockTextures) -> (r: Result<
        (),
        TextureNotFoundError,
    >)
        requires
            self.wf(),
            old(builder).wf(),
            old(builder).vertex_num_spec() + 36 * 4096 <= i32::MAX,
        ensures
            final(builder).wf(),
            r is Ok <==> chunk_tex_ok(self.blocks_spec(), textures@, 4096),
            r is Ok ==> final(builder).buffer_spec() == old(builder).buffer_spec()
                + chunk_mesh_upto(self.blocks_spec(), self.pos_spec(), textures@, 4096) && final(builder).vertex_num_spec() == old(builder).vertex_num_spec() + 36 * occupied_upto(
                self.blocks_spec(),
                4096,
            ),
            r matches Err(e) ==> {
                &&& e.side == first_missing_side(e.block, textures@)
                &&& e.name@ == texture_name_spec(e.block, e.side)
                &&& exists|j: int|
                    0 <= j < 4096 && self.blocks_spec()[index_of(#[trigger] scan_pos(j))] == Some(
                        e.block,
                    )
            },
    {
        let mut k: u32 = 0;
        while k < 4096
            invariant
                k <= 4096,
                builder.wf(),
                chunk_tex_ok(self.blocks_spec(), textures@, k as int),
                builder.buffer_spec() == old(builder).buffer_spec() + chunk_mesh_upto(
                    self.blocks_spec(),
                    self.pos_spec(),
                    textures@,
                    k as int,
                ),
                builder.vertex_num_spec() == old(builder).vertex_num_spec() + 36 * occupied_upto(
                    self.blocks_spec(),
                    k as int,
                ),
            decreases 4096 - k,
        {
            proof {
                lemma_occupied_bound(self.blocks_spec(), k as int);
                lemma_scan_pos_range(k as int);
            }
            let x: u32 = k / 256;
            let y: u32 = (k % 256) / 16;
            let z: u32 = k % 16;
            proof {
                assert(scan_pos(k as int) == (x as int, y as int, z as int));
            }
            let pos = BlockPosInChunk::new(x, y, z).unwrap();
            let index = pos.index();
            if let Some(block) = self.blocks[index] {
                let pos_in_world = BlockPosInWorld::from_chunk_pos(&self.position, &pos);
                proof {
                    assert(pos_in_world == world_pos_of(
                        self.pos_spec(),
                        (x as int, y as int, z as int),
                    ));
                }
                match builder.add_block(&pos_in_world, &block, textures) {
                    Ok(()) => {},
                    Err(e) => {
                        return Err(e);
                    },
                }
            }
            k += 1;
        }
        Ok(())
    }

    /// Builds this chunk's mesh: the unit cuboid of every occupied slot,
    /// in slot-scan order. An empty chunk yields an empty mesh. Fails on
    /// the first occupied slot whose block asks for a texture name the
    /// atlas table does not hold.
    pub fn generate_vertex_obj(&self, textures: &BlockTextures) -> (r: Result<
        BufferBuilder,
        TextureNotFoundError,
    >)
        requires
            self.wf(),
        ensures
            r is Ok <==> chunk_tex_ok(self.blocks_spec(), textures@, 4096),
            r matches Ok(bb) ==> {
                &&& bb.wf()
                &&& bb.buffer_spec() == chunk_mesh_upto(
                    self.blocks_spec(),
                    self.pos_spec(),
                    textures@,
                    4096,
                )
                &&& bb.vertex_num_spec() == 36 * occupied_upto(self.blocks_spec(), 4096)
            },
            r matches Err(e) ==> {
                &&& e.side == first_missing_side(e.block, textures@)
                &&& e.name@ == texture_name_spec(e.block, e.side)
                &&& exists|j: int|
                    0 <= j < 4096 && self.blocks_spec()[index_of(#[trigger] scan_pos(j))] == Some(
                        e.block,
                    )
            },
    {
        let mut builder = BufferBuilder::new();
        match self.emit_mesh(&mut builder, textures) {
            Ok(()) => Ok(builder),
            Err(e) => Err(e),
        }
    }
}

/// Law: a chunk with zero occupied slots produces an empty collision-box
/// list and an empty mesh, whatever the atlas table holds.
pub proof fn lemma_empty_chunk(
    blocks: Seq<Option<Block>>,
    cpos: ChunkPos,
    t: Seq<(Seq<char>, TextureUV)>,
    k: int,
)
    requires
        0 <= k <= 4096,
        forall|i: int| 0 <= i < 4096 ==> blocks[i] is None,
    ensures
        chunk_aabbs_upto(blocks, cpos, k).len() == 0,
        chunk_mesh_upto(blocks, cpos, t, k).len() == 0,
        occupied_upto(blocks, k) == 0,
    decreases k,
{
    if k > 0 {
        lemma_empty_chunk(blocks, cpos, t, k - 1);
        let j = k - 1;
        assert(0 <= index_of(scan_pos(j)) < 4096) by {
            lemma_scan_pos_range(j);
        }
    }
}

/// The slot-scan step decodes to in-range local components.
pub proof fn lemma_scan_pos_range(j: int)
    requires
        0 <= j < 4096,
    ensures
        crate::mymath::local_pos_in_range(scan_pos(j)),
        0 <= index_of(scan_pos(j)) < 4096,
{
    assert(0 <= j / 256 < 16 && 0 <= (j % 256) / 16 < 16 && 0 <= j % 16 < 16 && 0 <= 16 * 16 * ((
    j % 256) / 16) + 16 * (j % 16) + j / 256 < 4096) by (nonlinear_arith)
        requires
            0 <= j < 4096,
    ;
}

} // verus!
