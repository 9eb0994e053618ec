use voxel_core::block::{Block, Side};
use voxel_core::block_texture::{get_textures_in_atlas, BlockTextures};
use voxel_core::buffer_builder::BufferBuilder;
use voxel_core::chunk::Chunk;
use voxel_core::geom::Vec3;
use voxel_core::mymath::{BlockPosInChunk, BlockPosInWorld, ChunkPos};
use voxel_core::world::World;

#[test]
fn empty_chunk_yields_no_collision_boxes_and_an_empty_mesh() {
    let chunk = Chunk::new(ChunkPos::new(0, 0, 0));
    assert_eq!(chunk.aabbs_for_collision().len(), 0);

    let textures = get_textures_in_atlas(256, 256);
    let mesh = chunk.generate_vertex_obj(&textures).expect("no texture needed");
    assert_eq!(mesh.vertex_num(), 0);
    assert_eq!(mesh.buffer().len(), 0);

    // An empty chunk asks for no texture at all, so even an empty atlas
    // table succeeds.
    let empty_table = BlockTextures::new();
    assert!(chunk.generate_vertex_obj(&empty_table).is_ok());
}

#[test]
fn single_block_yields_one_box_and_thirty_six_vertices() {
    let mut chunk = Chunk::new(ChunkPos::new(0, 0, 0));
    chunk.set_block(&Block::GrassBlock, &BlockPosInChunk::new(0, 0, 0).unwrap());

    let aabbs = chunk.aabbs_for_collision();
    assert_eq!(aabbs.len(), 1);
    assert_eq!(aabbs[0].min, Vec3 { x: 0, y: 0, z: 0 });
    assert_eq!(aabbs[0].max, Vec3 { x: 1000, y: 1000, z: 1000 });

    let textures = get_textures_in_atlas(256, 256);
    let mesh = chunk.generate_vertex_obj(&textures).expect("full table");
    assert_eq!(mesh.vertex_num(), 36);
    assert_eq!(mesh.buffer().len(), 36 * 8);
}

#[test]
fn single_block_mesh_starts_with_the_top_face() {
    let mut chunk = Chunk::new(ChunkPos::new(0, 0, 0));
    chunk.set_block(&Block::GrassBlock, &BlockPosInChunk::new(0, 0, 0).unwrap());
    let textures = get_textures_in_atlas(256, 256);
    let mesh = chunk.generate_vertex_obj(&textures).unwrap();
    // First record: the top face's first corner at the block's upper
    // near corner, the flat normal from the diagonal cross product, and
    // the top texture's begin-u and end-v.
    let first: &[i64] = &mesh.buffer()[0..8];
    assert_eq!(first, &[0, 1000, 0, 0, -1000, 0, 250, 1000]);
}

#[test]
fn block_in_a_negative_chunk_has_a_negative_world_box() {
    let mut chunk = Chunk::new(ChunkPos::new(-1, 0, 0));
    chunk.set_block(&Block::GrassBlock, &BlockPosInChunk::new(15, 0, 7).unwrap());
    let aabbs = chunk.aabbs_for_collision();
    assert_eq!(aabbs.len(), 1);
    assert_eq!(aabbs[0].min, Vec3 { x: -1000, y: 0, z: 7000 });
    assert_eq!(aabbs[0].max, Vec3 { x: 0, y: 1000, z: 8000 });
}

#[test]
fn mesh_generation_fails_on_the_first_missing_texture() {
    let mut chunk = Chunk::new(ChunkPos::new(0, 0, 0));
    chunk.set_block(&Block::GrassBlock, &BlockPosInChunk::new(3, 3, 3).unwrap());
    let empty_table = BlockTextures::new();
    let err = chunk.generate_vertex_obj(&empty_table).unwrap_err();
    assert_eq!(err.name, "grass_top");
    assert!(matches!(err.side, Side::TOP));
}

#[test]
fn add_face_emits_two_triangles_with_corner_uvs() {
    let textures = get_textures_in_atlas(256, 256);
    let uv = textures.get("grass_side").unwrap();
    let mut builder = BufferBuilder::new();
    // A quad in the plane of constant x, the builder's south-face corner
    // ordering for the unit cube.
    let p1 = Vec3 { x: 0, y: 1000, z: 0 };
    let p2 = Vec3 { x: 0, y: 0, z: 0 };
    let p3 = Vec3 { x: 0, y: 0, z: 1000 };
    let p4 = Vec3 { x: 0, y: 1000, z: 1000 };
    builder.add_face(&p1, &p2, &p3, &p4, &uv);
    assert_eq!(builder.vertex_num(), 6);
    assert_eq!(builder.buffer().len(), 48);
    // The normal points along x; all six records carry it.
    for v in 0..6 {
        assert_eq!(builder.buffer()[v * 8 + 3], 1000);
        assert_eq!(builder.buffer()[v * 8 + 4], 0);
        assert_eq!(builder.buffer()[v * 8 + 5], 0);
    }
    // Corner texture coordinates: begin/end pattern per vertex.
    let records: Vec<(i64, i64)> =
        (0..6).map(|v| (builder.buffer()[v * 8 + 6], builder.buffer()[v * 8 + 7])).collect();
    assert_eq!(
        records,
        vec![
            (uv.begin_u, uv.end_v),
            (uv.begin_u, uv.begin_v),
            (uv.end_u, uv.begin_v),
            (uv.begin_u, uv.end_v),
            (uv.end_u, uv.begin_v),
            (uv.end_u, uv.end_v),
        ]
    );
}

#[test]
fn add_cuboid_emits_six_faces() {
    let textures = get_textures_in_atlas(256, 256);
    let block = Block::GrassBlock;
    let ct = voxel_core::block_texture::generate_cuboid_texture(&block, &textures).unwrap();
    let mut builder = BufferBuilder::with_capacity(288);
    let begin = Vec3 { x: 0, y: 0, z: 0 };
    let end = Vec3 { x: 1000, y: 1000, z: 1000 };
    builder.add_cuboid(&begin, &end, &ct);
    assert_eq!(builder.vertex_num(), 36);
    assert_eq!(builder.buffer().len(), 288);
    // Face normals in the fixed face order, one per six vertices.
    let normals: Vec<(i64, i64, i64)> = (0..6)
        .map(|f| {
            let o = f * 48;
            (builder.buffer()[o + 3], builder.buffer()[o + 4], builder.buffer()[o + 5])
        })
        .collect();
    assert_eq!(
        normals,
        vec![
            (0, -1000, 0),
            (0, 1000, 0),
            (1000, 0, 0),
            (-1000, 0, 0),
            (0, 0, 1000),
            (0, 0, -1000),
        ]
    );
}

#[test]
fn add_block_appends_thirty_six_vertices_at_the_block_position() {
    let textures = get_textures_in_atlas(256, 256);
    let mut builder = BufferBuilder::new();
    let pos = BlockPosInWorld::new(2, 3, 4);
    builder.add_block(&pos, &Block::GrassBlock, &textures).expect("full table");
    assert_eq!(builder.vertex_num(), 36);
    // The top face's first corner sits at the block's world corner raised
    // by one block.
    assert_eq!(&builder.buffer()[0..3], &[2000, 4000, 4000]);
}

#[test]
fn world_mesh_concatenates_chunk_meshes() {
    let mut world = World::new();
    let mut a = Chunk::new(ChunkPos::new(0, 0, 0));
    a.set_block(&Block::GrassBlock, &BlockPosInChunk::new(0, 0, 0).unwrap());
    let mut b = Chunk::new(ChunkPos::new(1, 0, 0));
    b.set_block(&Block::GrassBlock, &BlockPosInChunk::new(0, 0, 0).unwrap());
    b.set_block(&Block::GrassBlock, &BlockPosInChunk::new(1, 0, 0).unwrap());
    world.add_chunk(a).unwrap();
    world.add_chunk(b).unwrap();
    let textures = get_textures_in_atlas(256, 256);
    let mesh = world.generate_vertex_obj(&textures).expect("full table");
    assert_eq!(mesh.vertex_num(), 3 * 36);
    assert_eq!(mesh.buffer().len(), 3 * 288);
}
