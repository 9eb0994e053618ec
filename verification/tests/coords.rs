use voxel_core::mymath::{BlockPosInChunk, BlockPosInWorld, ChunkPos};

#[test]
fn block_pos_in_chunk_accepts_all_in_range_and_indexes_uniquely() {
    let mut seen = [false; 4096];
    for x in 0..16u32 {
        for y in 0..16u32 {
            for z in 0..16u32 {
                let pos = BlockPosInChunk::new(x, y, z).expect("in-range components");
                let idx = pos.index();
                assert!(idx < 4096);
                assert!(!seen[idx], "index reused");
                seen[idx] = true;
                assert_eq!(pos.x(), x);
                assert_eq!(pos.y(), y);
                assert_eq!(pos.z(), z);
            }
        }
    }
    assert!(seen.iter().all(|&s| s));
}

#[test]
fn block_pos_in_chunk_rejects_out_of_range() {
    assert!(BlockPosInChunk::new(16, 0, 0).is_none());
    assert!(BlockPosInChunk::new(0, 16, 0).is_none());
    assert!(BlockPosInChunk::new(0, 0, 16).is_none());
    assert!(BlockPosInChunk::new(100, 3, 4).is_none());
    assert!(BlockPosInChunk::new(15, 15, 15).is_some());
}

#[test]
fn block_pos_index_is_y_major_then_z_then_x() {
    let pos = BlockPosInChunk::new(1, 2, 3).unwrap();
    assert_eq!(pos.index(), 16 * 16 * 2 + 16 * 3 + 1);
    let origin = BlockPosInChunk::new(0, 0, 0).unwrap();
    assert_eq!(origin.index(), 0);
    let last = BlockPosInChunk::new(15, 15, 15).unwrap();
    assert_eq!(last.index(), 4095);
}

#[test]
fn world_pos_is_affine_combination_of_chunk_and_local() {
    let chunk = ChunkPos::new(1, 0, 0);
    let local = BlockPosInChunk::new(2, 3, 4).unwrap();
    let world = BlockPosInWorld::from_chunk_pos(&chunk, &local);
    assert_eq!((world.x, world.y, world.z), (18, 3, 4));
}

#[test]
fn world_pos_round_trip_with_negative_chunks() {
    let chunk = ChunkPos::new(-1, 2, -3);
    let local = BlockPosInChunk::new(15, 0, 7).unwrap();
    let world = BlockPosInWorld::from_chunk_pos(&chunk, &local);
    assert_eq!((world.x, world.y, world.z), (-1, 32, -41));
}
