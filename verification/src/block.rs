//! Block types, block faces, and the collision footprint of a block.

use crate::geom::{Aabb, Vec3, SCALE, STATIC_BOX_LIMIT};
use crate::mymath::BlockPosInWorld;
use vstd::prelude::*;

verus! {

/// Largest admitted magnitude of an absolute block coordinate. Every
/// position reachable from a chunk position fits well inside it.
pub const BLOCK_WORLD_LIMIT: i64 = 100_000_000_000;

/// A face of a block.
#[derive(Clone, Copy, PartialEq, Eq, Structural, Debug)]
pub enum Side {
    TOP,
    BOTTOM,
    NORTH,
    SOUTH,
    WEST,
    EAST,
}

/// The closed set of block types.
#[derive(Clone, Copy, PartialEq, Eq, Structural, Debug)]
pub enum Block {
    GrassBlock,
}

/// The collision box of a block at absolute position `pos`: the full unit
/// cube from the block's world corner, aligned with the cube the mesh
/// builder emits for the same block.
pub open spec fn block_aabb_spec(pos: BlockPosInWorld) -> Aabb {
    Aabb {
        min: Vec3 {
            x: (pos.x * SCALE) as i64,
            y: (pos.y * SCALE) as i64,
            z: (pos.z * SCALE) as i64,
        },
        max: Vec3 {
            x: (pos.x * SCALE + SCALE) as i64,
            y: (pos.y * SCALE + SCALE) as i64,
            z: (pos.z * SCALE + SCALE) as i64,
        },
    }
}

/// The collision boxes of one block: a single unit cube, for every block
/// type.
pub fn get_block_aabbs(block: &Block, pos: &BlockPosInWorld) -> (r: Vec<Aabb>)
    requires
        -BLOCK_WORLD_LIMIT <= pos.x <= BLOCK_WORLD_LIMIT,
        -BLOCK_WORLD_LIMIT <= pos.y <= BLOCK_WORLD_LIMIT,
        -BLOCK_WORLD_LIMIT <= pos.z <= BLOCK_WORLD_LIMIT,
    ensures
        r@ =~= seq![block_aabb_spec(*pos)],
        r@[0].wf(),
        r@[0].within(STATIC_BOX_LIMIT as int),
{
    let aabb = Aabb {
        min: Vec3 { x: pos.x * SCALE, y: pos.y * SCALE, z: pos.z * SCALE },
        max: Vec3 {
            x: pos.x * SCALE + SCALE,
            y: pos.y * SCALE + SCALE,
            z: pos.z * SCALE + SCALE,
        },
    };
    proof {
        crate::geom::lemma_axes(aabb.min);
        crate::geom::lemma_axes(aabb.max);
    }
    let mut r: Vec<Aabb> = Vec::new();
    r.push(aabb);
    r
}

} // verus!
