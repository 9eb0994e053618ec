use voxel_core::block::{Block, Side};
use voxel_core::block_texture::{
    generate_cuboid_texture, get_texture_name, get_textures_in_atlas, BlockTextures, TextureUV,
};

#[test]
fn texture_names_per_face() {
    let block = Block::GrassBlock;
    assert_eq!(get_texture_name(&block, Side::TOP), "grass_top");
    assert_eq!(get_texture_name(&block, Side::BOTTOM), "grass_bottom");
    assert_eq!(get_texture_name(&block, Side::NORTH), "grass_side");
    assert_eq!(get_texture_name(&block, Side::SOUTH), "grass_side");
    assert_eq!(get_texture_name(&block, Side::WEST), "grass_side");
    assert_eq!(get_texture_name(&block, Side::EAST), "grass_side");
}

#[test]
fn of_atlas_computes_exact_fixed_point_regions() {
    // First cell of the top row of a 256 by 256 atlas with 64-pixel cells.
    let uv = TextureUV::of_atlas(0, 0, 64, 64, 256, 256);
    assert_eq!(uv.begin_u, 0);
    assert_eq!(uv.end_u, 250);
    assert_eq!(uv.begin_v, 750);
    assert_eq!(uv.end_v, 1000);

    // Second cell: shifted one cell width to the right.
    let uv1 = TextureUV::of_atlas(0, 1, 64, 64, 256, 256);
    assert_eq!(uv1.begin_u, 250);
    assert_eq!(uv1.end_u, 500);
    assert_eq!(uv1.begin_v, 750);
    assert_eq!(uv1.end_v, 1000);

    // Second row: shifted one cell height down, on the flipped v axis.
    let uv2 = TextureUV::of_atlas(1, 0, 64, 64, 256, 256);
    assert_eq!(uv2.begin_v, 500);
    assert_eq!(uv2.end_v, 750);
}

#[test]
fn atlas_table_holds_the_three_grass_textures() {
    let textures = get_textures_in_atlas(256, 256);
    let side = textures.get("grass_side").expect("side texture");
    let top = textures.get("grass_top").expect("top texture");
    let bottom = textures.get("grass_bottom").expect("bottom texture");
    assert_eq!((side.begin_u, side.end_u), (0, 250));
    assert_eq!((top.begin_u, top.end_u), (250, 500));
    assert_eq!((bottom.begin_u, bottom.end_u), (500, 750));
    assert!(textures.get("grass_unknown").is_none());
}

#[test]
fn cuboid_texture_resolution_succeeds_with_a_full_table() {
    let textures = get_textures_in_atlas(256, 256);
    let ct = generate_cuboid_texture(&Block::GrassBlock, &textures).expect("full table");
    assert_eq!(ct.top, textures.get("grass_top").unwrap());
    assert_eq!(ct.bottom, textures.get("grass_bottom").unwrap());
    assert_eq!(ct.south, textures.get("grass_side").unwrap());
    assert_eq!(ct.north, textures.get("grass_side").unwrap());
    assert_eq!(ct.west, textures.get("grass_side").unwrap());
    assert_eq!(ct.east, textures.get("grass_side").unwrap());
}

#[test]
fn cuboid_texture_resolution_reports_the_first_missing_face() {
    // An empty table misses the top texture first.
    let empty = BlockTextures::new();
    let err = generate_cuboid_texture(&Block::GrassBlock, &empty).unwrap_err();
    assert_eq!(err.name, "grass_top");
    assert!(matches!(err.side, Side::TOP));
    assert!(matches!(err.block, Block::GrassBlock));

    // With top and bottom present, the south side is the first missing.
    let mut partial = BlockTextures::new();
    let uv = TextureUV::of_atlas(0, 0, 64, 64, 256, 256);
    partial.insert("grass_top", uv);
    partial.insert("grass_bottom", uv);
    let err2 = generate_cuboid_texture(&Block::GrassBlock, &partial).unwrap_err();
    assert_eq!(err2.name, "grass_side");
    assert!(matches!(err2.side, Side::SOUTH));
}

#[test]
fn later_registration_shadows_an_earlier_one() {
    let mut table = BlockTextures::new();
    let first = TextureUV::of_atlas(0, 0, 64, 64, 256, 256);
    let second = TextureUV::of_atlas(0, 1, 64, 64, 256, 256);
    table.insert("grass_top", first);
    table.insert("grass_top", second);
    assert_eq!(table.get("grass_top"), Some(second));
}
