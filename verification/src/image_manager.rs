//! The image registry: texture handles by image name.
//!
//! Decoding image files and uploading them to the graphics device are
//! platform work outside the library; the layer that does them registers
//! each uploaded texture's handle here under its name.

use vstd::prelude::*;

verus! {

/// The first handle registered under `name`, if any.
pub open spec fn image_lookup_spec(entries: Seq<(Seq<char>, u32)>, name: Seq<char>) -> Option<u32>
    decreases entries.len(),
{
    if entries.len() == 0 {
        None
    } else if entries[0].0 == name {
        Some(entries[0].1)
    } else {
        image_lookup_spec(entries.skip(1), name)
    }
}

/// Texture handles by image name. A later registration of a name shadows
/// an earlier one.
pub struct ImageManager {
    image_map: Vec<(String, u32)>,
}

impl View for ImageManager {
    type V = Seq<(Seq<char>, u32)>;

    closed spec fn view(&self) -> Seq<(Seq<char>, u32)> {
        self.image_map@.map_values(|e: (String, u32)| (e.0@, e.1))
    }
}

impl ImageManager {
    pub fn new() -> (r: ImageManager)
        ensures
            r@.len() == 0,
    {
        ImageManager { image_map: Vec::new() }
    }

    /// Registers a texture handle under an image name, shadowing any
    /// earlier registration of that name.
    pub fn register_image(&mut self, id: &str, texture: u32)
        ensures
            final(self)@ == old(self)@.insert(0, (id@, texture)),
    {
        let owned: String = id.to_owned();
        self.image_map.insert(0, (owned, texture));
        proof {
            assert(self@ =~= old(self)@.insert(0, (id@, texture)));
        }
    }

    /// Looks an image name's texture handle up; yields nothing for an
    /// unknown name.
    #[verifier::loop_isolation(false)]
    pub fn get_texture_id(&self, id: &str) -> (r: Option<u32>)
        ensures
            r == image_lookup_spec(self@, id@),
    {
        let wanted: String = id.to_owned();
        proof {
            assert(self@.skip(0) =~= self@);
        }
        let n = self.image_map.len();
        let mut i: usize = 0;
        while i < n
            invariant
                i <= n,
                image_lookup_spec(self@, id@) == image_lookup_spec(self@.skip(i as int), id@),
            decreases n - i,
        {
            proof {
                assert(self@.skip(i as int)[0] == self@[i as int]);
            }
            if self.image_map[i].0 == wanted {
                return Some(self.image_map[i].1);
            }
            proof {
                assert(self@.skip(i as int).skip(1) =~= self@.skip(i as int + 1));
            }
            i += 1;
        }
        proof {
            assert(self@.skip(n as int).len() == 0);
        }
        None
    }
}

} // verus!
