//! Texture-atlas regions and the per-block-type face texture table.
//!
//! A texture region is four fixed-point coordinates into a texture atlas,
//! scaled by `SCALE` per atlas unit and computed from a grid cell position
//! and the cell and atlas pixel sizes. Each block type maps each of its
//! six faces to a texture name; the atlas table maps names to regions, and
//! a missing name is a content error, reported with the name and face, and
//! never silently replaced.

use crate::block::{Block, Side};
use crate::geom::SCALE;
use vstd::prelude::*;

verus! {

/// A rectangular region of a texture atlas, in fixed-point atlas
/// coordinates: `SCALE` is one atlas width or height.
#[derive(Clone, Copy, PartialEq, Eq, Structural, Debug)]
pub struct TextureUV {
    pub begin_u: i64,
    pub end_u: i64,
    pub begin_v: i64,
    pub end_v: i64,
}

/// The region of the cell at `row`, `column` of an atlas whose cells are
/// `w` by `h` pixels and whose image is `atlas_w` by `atlas_h` pixels.
/// The v axis is flipped: row zero is the top of the image, v zero its
/// bottom. Divisions are floor divisions of nonnegative values.
pub open spec fn of_atlas_spec(
    row: int,
    column: int,
    w: int,
    h: int,
    atlas_w: int,
    atlas_h: int,
) -> TextureUV {
    TextureUV {
        begin_u: (column * w * SCALE / atlas_w) as i64,
        end_u: ((column + 1) * w * SCALE / atlas_w) as i64,
        begin_v: (SCALE - (row + 1) * h * SCALE / atlas_h) as i64,
        end_v: (SCALE - row * h * SCALE / atlas_h) as i64,
    }
}

/// Multiplication by a nonnegative value keeps order.
proof fn lemma_mul_le(a: int, b: int, c: int)
    by (nonlinear_arith)
    requires
        0 <= a <= b,
        0 <= c,
    ensures
        a * c <= b * c,
{
}

/// Floor division of a value between zero and its divisor's multiple stays
/// between zero and the multiplier.
proof fn lemma_div_in_band(x: int, d: int, m: int)
    by (nonlinear_arith)
    requires
        d > 0,
        0 <= x <= m * d,
        0 <= m,
    ensures
        0 <= x / d <= m,
{
}

impl TextureUV {
    /// Computes the region of one atlas grid cell. The cell must lie
    /// inside the atlas image.
    pub fn of_atlas(row: u32, column: u32, w: u32, h: u32, atlas_w: u32, atlas_h: u32) -> (r:
        TextureUV)
        requires
            atlas_w > 0,
            atlas_h > 0,
            (column + 1) * w <= atlas_w,
            (row + 1) * h <= atlas_h,
        ensures
            r == of_atlas_spec(
                row as int,
                column as int,
                w as int,
                h as int,
                atlas_w as int,
                atlas_h as int,
            ),
            0 <= r.begin_u <= r.end_u <= SCALE,
            0 <= r.begin_v <= r.end_v <= SCALE,
    {
        proof {
            lemma_mul_le(column as int, (column + 1) as int, w as int);
            lemma_mul_le(row as int, (row + 1) as int, h as int);
            lemma_mul_le(column as int * w as int, (column + 1) as int * w as int, SCALE as int);
            lemma_mul_le(row as int * h as int, (row + 1) as int * h as int, SCALE as int);
            lemma_mul_le(0, column as int * w as int, SCALE as int);
            lemma_mul_le(0, row as int * h as int, SCALE as int);
            lemma_mul_le(column as int * w as int, atlas_w as int, SCALE as int);
            lemma_mul_le((column + 1) as int * w as int, atlas_w as int, SCALE as int);
            lemma_mul_le(row as int * h as int, atlas_h as int, SCALE as int);
            lemma_mul_le((row + 1) as int * h as int, atlas_h as int, SCALE as int);
            lemma_div_in_band(
                column as int * w as int * SCALE as int,
                atlas_w as int,
                SCALE as int,
            );
            lemma_div_in_band(
                (column + 1) as int * w as int * SCALE as int,
                atlas_w as int,
                SCALE as int,
            );
            lemma_div_in_band(row as int * h as int * SCALE as int, atlas_h as int, SCALE as int);
            lemma_div_in_band(
                (row + 1) as int * h as int * SCALE as int,
                atlas_h as int,
                SCALE as int,
            );
        }
        let cu: i64 = (column as i64) * (w as i64);
        let cu1: i64 = (column as i64 + 1) * (w as i64);
        let rv: i64 = (row as i64) * (h as i64);
        let rv1: i64 = (row as i64 + 1) * (h as i64);
        let begin_u: i64 = cu * SCALE / (atlas_w as i64);
        let end_u: i64 = cu1 * SCALE / (atlas_w as i64);
        let begin_v: i64 = SCALE - rv1 * SCALE / (atlas_h as i64);
        let end_v: i64 = SCALE - rv * SCALE / (atlas_h as i64);
        proof {
            // Division ordering: a smaller numerator gives a floor no larger.
            vstd::arithmetic::div_mod::lemma_div_is_ordered(
                cu as int * SCALE as int,
                cu1 as int * SCALE as int,
                atlas_w as int,
            );
            vstd::arithmetic::div_mod::lemma_div_is_ordered(
                rv as int * SCALE as int,
                rv1 as int * SCALE as int,
                atlas_h as int,
            );
        }
        TextureUV { begin_u, end_u, begin_v, end_v }
    }
}

/// The texture name of one face of a block.
pub open spec fn texture_name_spec(block: Block, side: Side) -> Seq<char> {
    match side {
        Side::TOP => "grass_top"@,
        Side::BOTTOM => "grass_bottom"@,
        _ => "grass_side"@,
    }
}

/// The texture name of face `side` of `block`: the top and bottom faces
/// have their own textures, the four horizontal sides share one.
pub fn get_texture_name(block: &Block, side: Side) -> (r: &'static str)
    ensures
        r@ == texture_name_spec(*block, side),
{
    match block {
        Block::GrassBlock => match side {
            Side::TOP => "grass_top",
            Side::BOTTOM => "grass_bottom",
            _ => "grass_side",
        },
    }
}

/// The first region registered under `name`, if any.
pub open spec fn lookup_spec(entries: Seq<(Seq<char>, TextureUV)>, name: Seq<char>) -> Option<
    TextureUV,
>
    decreases entries.len(),
{
    if entries.len() == 0 {
        None
    } else if entries[0].0 == name {
        Some(entries[0].1)
    } else {
        lookup_spec(entries.skip(1), name)
    }
}

/// The atlas table: texture regions by name. A later registration of a
/// name shadows an earlier one.
pub struct BlockTextures {
    entries: Vec<(String, TextureUV)>,
}

impl View for BlockTextures {
    type V = Seq<(Seq<char>, TextureUV)>;

    closed spec fn view(&self) -> Seq<(Seq<char>, TextureUV)> {
        self.entries@.map_values(|e: (String, TextureUV)| (e.0@, e.1))
    }
}

impl BlockTextures {
    pub fn new() -> (r: BlockTextures)
        ensures
            r@.len() == 0,
    {
        BlockTextures { entries: Vec::new() }
    }

    /// Registers a region under a name, shadowing any earlier registration
    /// of that name.
    pub fn insert(&mut self, name: &str, uv: TextureUV)
        ensures
            final(self)@ == old(self)@.insert(0, (name@, uv)),
    {
        let owned: String = name.to_owned();
        self.entries.insert(0, (owned, uv));
        proof {
            assert(self@ =~= old(self)@.insert(0, (name@, uv)));
        }
    }

    /// Looks a name's region up; yields nothing for an unknown name.
    #[verifier::loop_isolation(false)]
    pub fn get(&self, name: &str) -> (r: Option<TextureUV>)
        ensures
            r == lookup_spec(self@, name@),
    {
        let wanted: String = name.to_owned();
        proof {
            assert(self@.skip(0) =~= self@);
        }
        let n = self.entries.len();
        let mut i: usize = 0;
        while i < n
            invariant
                i <= n,
                lookup_spec(self@, name@) == lookup_spec(self@.skip(i as int), name@),
            decreases n - i,
        {
            proof {
                assert(self@.skip(i as int)[0] == self@[i as int]);
            }
            if self.entries[i].0 == wanted {
                return Some(self.entries[i].1);
            }
            proof {
                assert(self@.skip(i as int).skip(1) =~= self@.skip(i as int + 1));
            }
            i += 1;
        }
        proof {
            assert(self@.skip(n as int).len() == 0);
        }
        None
    }
}

/// The standard atlas table: the grass block's side, top and bottom
/// textures, taken from the first three cells of the atlas's top row,
/// each cell 64 by 64 pixels.
pub fn get_textures_in_atlas(atlas_width: u32, atlas_height: u32) -> (r: BlockTextures)
    requires
        atlas_width >= 192,
        atlas_height >= 64,
    ensures
        lookup_spec(r@, "grass_side"@) == Some(
            of_atlas_spec(0, 0, 64, 64, atlas_width as int, atlas_height as int),
        ),
        lookup_spec(r@, "grass_top"@) == Some(
            of_atlas_spec(0, 1, 64, 64, atlas_width as int, atlas_height as int),
        ),
        lookup_spec(r@, "grass_bottom"@) == Some(
            of_atlas_spec(0, 2, 64, 64, atlas_width as int, atlas_height as int),
        ),
        r@.len() == 3,
{
    let mut dic = BlockTextures::new();
    let ghost s0 = dic@;
    dic.insert("grass_side", TextureUV::of_atlas(0, 0, 64, 64, atlas_width, atlas_height));
    let ghost s1 = dic@;
    dic.insert("grass_top", TextureUV::of_atlas(0, 1, 64, 64, atlas_width, atlas_height));
    let ghost s2 = dic@;
    dic.insert("grass_bottom", TextureUV::of_atlas(0, 2, 64, 64, atlas_width, atlas_height));
    proof {
        reveal_strlit("grass_side");
        reveal_strlit("grass_top");
        reveal_strlit("grass_bottom");
        assert("grass_side"@.len() == 10 && "grass_top"@.len() == 9 && "grass_bottom"@.len()
            == 12);
        assert(dic@.skip(1) =~= s2);
        assert(s2.skip(1) =~= s1);
        assert(s1.skip(1) =~= s0);
        assert(lookup_spec(dic@, "grass_side"@) == lookup_spec(s2, "grass_side"@));
        assert(lookup_spec(s2, "grass_side"@) == lookup_spec(s1, "grass_side"@));
        assert(lookup_spec(s1, "grass_side"@) == Some(
            of_atlas_spec(0, 0, 64, 64, atlas_width as int, atlas_height as int),
        ));
        assert(lookup_spec(dic@, "grass_top"@) == lookup_spec(s2, "grass_top"@));
        assert(lookup_spec(s2, "grass_top"@) == Some(
            of_atlas_spec(0, 1, 64, 64, atlas_width as int, atlas_height as int),
        ));
    }
    dic
}

/// A texture name that a block face asks for but the atlas table does not
/// hold: a content error, fatal to mesh generation.
#[derive(Debug)]
pub struct TextureNotFoundError {
    /// The missing texture name.
    pub name: String,
    /// The block whose face asked for the name.
    pub block: Block,
    /// The face that asked for the name.
    pub side: Side,
}

/// The regions of the six faces of one block, resolved from the atlas
/// table.
#[derive(Clone, Copy, PartialEq, Eq, Structural, Debug)]
pub struct CuboidTextures {
    pub top: TextureUV,
    pub bottom: TextureUV,
    pub south: TextureUV,
    pub north: TextureUV,
    pub west: TextureUV,
    pub east: TextureUV,
}

/// The resolved face regions of `block`, when the atlas table holds every
/// face's name.
pub open spec fn cuboid_textures_spec(block: Block, t: Seq<(Seq<char>, TextureUV)>) -> Option<
    CuboidTextures,
> {
    let top = lookup_spec(t, texture_name_spec(block, Side::TOP));
    let bottom = lookup_spec(t, texture_name_spec(block, Side::BOTTOM));
    let south = lookup_spec(t, texture_name_spec(block, Side::SOUTH));
    let north = lookup_spec(t, texture_name_spec(block, Side::NORTH));
    let west = lookup_spec(t, texture_name_spec(block, Side::WEST));
    let east = lookup_spec(t, texture_name_spec(block, Side::EAST));
    if top is Some && bottom is Some && south is Some && north is Some && west is Some && east
        is Some {
        Some(
            CuboidTextures {
                top: top->0,
                bottom: bottom->0,
                south: south->0,
                north: north->0,
                west: west->0,
                east: east->0,
            },
        )
    } else {
        None
    }
}

/// The first face, in the fixed face order, whose texture name the atlas
/// table does not hold; meaningful when one is missing.
pub open spec fn first_missing_side(block: Block, t: Seq<(Seq<char>, TextureUV)>) -> Side {
    if lookup_spec(t, texture_name_spec(block, Side::TOP)) is None {
        Side::TOP
    } else if lookup_spec(t, texture_name_spec(block, Side::BOTTOM)) is None {
        Side::BOTTOM
    } else if lookup_spec(t, texture_name_spec(block, Side::SOUTH)) is None {
        Side::SOUTH
    } else if lookup_spec(t, texture_name_spec(block, Side::NORTH)) is None {
        Side::NORTH
    } else if lookup_spec(t, texture_name_spec(block, Side::WEST)) is None {
        Side::WEST
    } else {
        Side::EAST
    }
}

/// Resolves the six face regions of `block` from the atlas table. Fails
/// on the first face, in the fixed face order, whose name the table does
/// not hold, reporting that name and face.
pub fn generate_cuboid_texture(block: &Block, block_textures: &BlockTextures) -> (r: Result<
    CuboidTextures,
    TextureNotFoundError,
>)
    ensures
        r is Ok <==> cuboid_textures_spec(*block, block_textures@) is Some,
        r matches Ok(ct) ==> Some(ct) == cuboid_textures_spec(*block, block_textures@),
        r matches Err(e) ==> {
            &&& e.side == first_missing_side(*block, block_textures@)
            &&& e.name@ == texture_name_spec(*block, e.side)
            &&& e.block == *block
            &&& lookup_spec(block_textures@, e.name@) is None
        },
{
    let top_name = get_texture_name(block, Side::TOP);
    let top = match block_textures.get(top_name) {
        Some(uv) => uv,
        None => {
            return Err(
                TextureNotFoundError { name: top_name.to_owned(), block: *block, side: Side::TOP },
            );
        },
    };
    let bottom_name = get_texture_name(block, Side::BOTTOM);
    let bottom = match block_textures.get(bottom_name) {
        Some(uv) => uv,
        None => {
            return Err(
                TextureNotFoundError {
                    name: bottom_name.to_owned(),
                    block: *block,
                    side: Side::BOTTOM,
                },
            );
        },
    };
    let south_name = get_texture_name(block, Side::SOUTH);
    let south = match block_textures.get(south_name) {
        Some(uv) => uv,
        None => {
            return Err(
                TextureNotFoundError {
                    name: south_name.to_owned(),
                    block: *block,
                    side: Side::SOUTH,
                },
            );
        },
    };
    let north_name = get_texture_name(block, Side::NORTH);
    let north = match block_textures.get(north_name) {
        Some(uv) => uv,
        None => {
            return Err(
                TextureNotFoundError {
                    name: north_name.to_owned(),
                    block: *block,
                    side: Side::NORTH,
                },
            );
        },
    };
    let west_name = get_texture_name(block, Side::WEST);
    let west = match block_textures.get(west_name) {
        Some(uv) => uv,
        None => {
            return Err(
                TextureNotFoundError {
                    name: west_name.to_owned(),
                    block: *block,
                    side: Side::WEST,
                },
            );
        },
    };
    let east_name = get_texture_name(block, Side::EAST);
    let east = match block_textures.get(east_name) {
        Some(uv) => uv,
        None => {
            return Err(
                TextureNotFoundError {
                    name: east_name.to_owned(),
                    block: *block,
                    side: Side::EAST,
                },
            );
        },
    };
    Ok(CuboidTextures { top, bottom, south, north, west, east })
}

} // verus!
