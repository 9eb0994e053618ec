use voxel_core::block::Block;
use voxel_core::chunk::Chunk;
use voxel_core::mymath::{BlockPosInChunk, ChunkPos};
use voxel_core::world::World;

#[test]
fn new_chunk_is_empty() {
    let chunk = Chunk::new(ChunkPos::new(0, 0, 0));
    for x in 0..16u32 {
        for z in 0..16u32 {
            let pos = BlockPosInChunk::new(x, 7, z).unwrap();
            assert!(chunk.get_block(&pos).is_none());
        }
    }
    assert_eq!(*chunk.position(), ChunkPos::new(0, 0, 0));
}

#[test]
fn set_block_then_get_block() {
    let mut chunk = Chunk::new(ChunkPos::new(0, 0, 0));
    let pos = BlockPosInChunk::new(3, 3, 3).unwrap();
    chunk.set_block(&Block::GrassBlock, &pos);
    assert!(matches!(chunk.get_block(&pos), Some(Block::GrassBlock)));
    let other = BlockPosInChunk::new(3, 3, 4).unwrap();
    assert!(chunk.get_block(&other).is_none());
}

#[test]
fn set_block_overwrites_occupied_slot() {
    let mut chunk = Chunk::new(ChunkPos::new(0, 0, 0));
    let pos = BlockPosInChunk::new(0, 1, 2).unwrap();
    chunk.set_block(&Block::GrassBlock, &pos);
    chunk.set_block(&Block::GrassBlock, &pos);
    assert!(matches!(chunk.get_block(&pos), Some(Block::GrassBlock)));
}

#[test]
fn add_chunk_twice_fails_and_keeps_the_original() {
    let mut world = World::new();
    let mut first = Chunk::new(ChunkPos::new(0, 0, 0));
    let marked = BlockPosInChunk::new(5, 6, 7).unwrap();
    first.set_block(&Block::GrassBlock, &marked);
    assert!(world.add_chunk(first).is_ok());

    let second = Chunk::new(ChunkPos::new(0, 0, 0));
    assert!(world.add_chunk(second).is_err());

    let kept = world.get_chunk(&ChunkPos::new(0, 0, 0)).expect("chunk still registered");
    assert!(matches!(kept.get_block(&marked), Some(Block::GrassBlock)));
}

#[test]
fn chunks_at_different_positions_coexist() {
    let mut world = World::new();
    assert!(world.add_chunk(Chunk::new(ChunkPos::new(0, 0, 0))).is_ok());
    assert!(world.add_chunk(Chunk::new(ChunkPos::new(1, 0, 0))).is_ok());
    assert!(world.get_chunk(&ChunkPos::new(0, 0, 0)).is_some());
    assert!(world.get_chunk(&ChunkPos::new(1, 0, 0)).is_some());
    assert!(world.get_chunk(&ChunkPos::new(0, 1, 0)).is_none());
}

#[test]
fn world_set_block_routes_to_the_owning_chunk() {
    let mut world = World::new();
    world.add_chunk(Chunk::new(ChunkPos::new(2, 0, -1))).unwrap();
    let local = BlockPosInChunk::new(1, 2, 3).unwrap();

    assert!(world.set_block(&Block::GrassBlock, &ChunkPos::new(2, 0, -1), &local));
    let chunk = world.get_chunk(&ChunkPos::new(2, 0, -1)).unwrap();
    assert!(matches!(chunk.get_block(&local), Some(Block::GrassBlock)));

    assert!(!world.set_block(&Block::GrassBlock, &ChunkPos::new(9, 9, 9), &local));
}
