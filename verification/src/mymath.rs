//! Typed positions: chunk-local block positions, chunk positions in the
//! infinite chunk lattice, absolute block positions, and angles.

use vstd::prelude::*;

verus! {

/// A block position inside a chunk: three components, each in `[0, 16)`.
#[derive(PartialEq, Eq, Hash, Clone, Copy, Debug)]
pub struct BlockPosInChunk {
    x: u32,
    y: u32,
    z: u32,
}

impl View for BlockPosInChunk {
    type V = (int, int, int);

    closed spec fn view(&self) -> (int, int, int) {
        (self.x as int, self.y as int, self.z as int)
    }
}

/// The linear slot index of local position `v`: y-major, then z, then x.
pub open spec fn index_of(v: (int, int, int)) -> int {
    16 * 16 * v.1 + 16 * v.2 + v.0
}

/// Each component of the local position `v` lies in `[0, 16)`.
pub open spec fn local_pos_in_range(v: (int, int, int)) -> bool {
    0 <= v.0 < 16 && 0 <= v.1 < 16 && 0 <= v.2 < 16
}

/// The linear index determines the position: on components in `[0, 16)`
/// the index map is injective, and its value lies in `[0, 4096)`.
pub proof fn lemma_index_injective(a: (int, int, int), b: (int, int, int))
    requires
        local_pos_in_range(a),
        local_pos_in_range(b),
        index_of(a) == index_of(b),
    ensures
        a == b,
        0 <= index_of(a) < 4096,
{
    assert(index_of(a) == 16 * 16 * a.1 + 16 * a.2 + a.0);
    assert(16 * 16 * a.1 + 16 * a.2 + a.0 == 16 * 16 * b.1 + 16 * b.2 + b.0);
    assert(a.1 == b.1) by (nonlinear_arith)
        requires
            local_pos_in_range(a),
            local_pos_in_range(b),
            16 * 16 * a.1 + 16 * a.2 + a.0 == 16 * 16 * b.1 + 16 * b.2 + b.0;
    assert(a.2 == b.2);
    assert(a.0 == b.0);
}

impl BlockPosInChunk {
    #[verifier::type_invariant]
    spec fn type_inv(self) -> bool {
        self.x < 16 && self.y < 16 && self.z < 16
    }

    /// Builds a chunk-local position; yields no value when a component is 16
    /// or more.
    pub fn new(x: u32, y: u32, z: u32) -> (r: Option<Self>)
        ensures
            r is Some <==> (x < 16 && y < 16 && z < 16),
            r is Some ==> r->0@ == (x as int, y as int, z as int),
    {
        if x < 16 && y < 16 && z < 16 {
            Some(Self { x, y, z })
        } else {
            None
        }
    }

    pub fn x(&self) -> (r: u32)
        ensures
            r == self@.0,
            r < 16,
    {
        proof {
            use_type_invariant(&*self);
        }
        self.x
    }

    pub fn y(&self) -> (r: u32)
        ensures
            r == self@.1,
            r < 16,
    {
        proof {
            use_type_invariant(&*self);
        }
        self.y
    }

    pub fn z(&self) -> (r: u32)
        ensures
            r == self@.2,
            r < 16,
    {
        proof {
            use_type_invariant(&*self);
        }
        self.z
    }

    /// The linear index of this position into chunk storage.
    pub fn index(&self) -> (r: usize)
        ensures
            r == index_of(self@),
            r < 4096,
            local_pos_in_range(self@),
    {
        proof {
            use_type_invariant(&*self);
            assert(self.x < 16 && self.y < 16 && self.z < 16);
        }
        (256 * self.y + 16 * self.z + self.x) as usize
    }
}

/// A chunk position in the infinite chunk lattice.
#[derive(PartialEq, Eq, Structural, Hash, Clone, Copy, Debug)]
pub struct ChunkPos {
    pub x: i32,
    pub y: i32,
    pub z: i32,
}

impl ChunkPos {
    pub fn new(x: i32, y: i32, z: i32) -> (r: Self)
        ensures
            r == (ChunkPos { x, y, z }),
    {
        ChunkPos { x, y, z }
    }
}

/// An absolute block position: the affine combination of a chunk position
/// and a chunk-local position.
#[derive(PartialEq, Eq, Structural, Hash, Clone, Copy, Debug)]
pub struct BlockPosInWorld {
    pub x: i64,
    pub y: i64,
    pub z: i64,
}

impl BlockPosInWorld {
    pub fn new(x: i64, y: i64, z: i64) -> (r: Self)
        ensures
            r == (BlockPosInWorld { x, y, z }),
    {
        BlockPosInWorld { x, y, z }
    }

    /// The absolute position of local position `pos` in chunk `chunk`:
    /// sixteen times the chunk position plus the local position, on each
    /// component.
    pub fn from_chunk_pos(chunk: &ChunkPos, pos: &BlockPosInChunk) -> (r: Self)
        ensures
            r.x == 16 * chunk.x + pos@.0,
            r.y == 16 * chunk.y + pos@.1,
            r.z == 16 * chunk.z + pos@.2,
    {
        Self {
            x: 16 * (chunk.x as i64) + (pos.x() as i64),
            y: 16 * (chunk.y as i64) + (pos.y() as i64),
            z: 16 * (chunk.z as i64) + (pos.z() as i64),
        }
    }
}

/// An angle in thousandths of a degree. Conversion to radians and
/// trigonometry are floating-point work and live outside the library;
/// the library keeps angle state and enforces wrap and clamp rules.
#[derive(PartialEq, Eq, Structural, Clone, Copy, Debug)]
pub struct Deg(pub i64);

} // verus!
