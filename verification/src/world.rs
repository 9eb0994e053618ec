//! The world: the sparse spatial index from chunk positions to chunks.

use crate::block::Block;
use crate::block_texture::{BlockTextures, TextureNotFoundError, TextureUV};
use crate::buffer_builder::BufferBuilder;
use crate::chunk::{chunk_mesh_upto, chunk_tex_ok, occupied_upto, Chunk};
use crate::mymath::{BlockPosInChunk, ChunkPos};
use vstd::prelude::*;

verus! {

/// Some chunk in the sequence stands at position `p`.
pub open spec fn contains_pos(chunks: Seq<Chunk>, p: ChunkPos) -> bool {
    exists|i: int| 0 <= i < chunks.len() && (#[trigger] chunks[i]).pos_spec() == p
}

/// The index of the chunk at position `p`; meaningful when one is there.
pub open spec fn index_of_pos(chunks: Seq<Chunk>, p: ChunkPos) -> int {
    choose|i: int| 0 <= i < chunks.len() && (#[trigger] chunks[i]).pos_spec() == p
}

/// The chunk at position `p`; meaningful when one is there.
pub open spec fn chunk_at(chunks: Seq<Chunk>, p: ChunkPos) -> Chunk {
    chunks[index_of_pos(chunks, p)]
}

/// The meshes of the first `k` registered chunks, concatenated in
/// registration order.
pub open spec fn world_mesh_upto(
    chunks: Seq<Chunk>,
    t: Seq<(Seq<char>, TextureUV)>,
    k: int,
) -> Seq<i64>
    decreases k,
{
    if k <= 0 {
        Seq::empty()
    } else {
        world_mesh_upto(chunks, t, k - 1) + chunk_mesh_upto(
            chunks[k - 1].blocks_spec(),
            chunks[k - 1].pos_spec(),
            t,
            4096,
        )
    }
}

/// Every occupied slot of the first `k` registered chunks holds a block
/// whose face textures the atlas table resolves.
pub open spec fn world_tex_ok(chunks: Seq<Chunk>, t: Seq<(Seq<char>, TextureUV)>, k: int) -> bool {
    forall|j: int| 0 <= j < k ==> chunk_tex_ok((#[trigger] chunks[j]).blocks_spec(), t, 4096)
}

/// The occupied slots of the first `k` registered chunks.
pub open spec fn world_occupied_upto(chunks: Seq<Chunk>, k: int) -> int
    decreases k,
{
    if k <= 0 {
        0
    } else {
        world_occupied_upto(chunks, k - 1) + occupied_upto(chunks[k - 1].blocks_spec(), 4096)
    }
}

/// Each chunk contributes at most its slot count of occupied slots.
pub proof fn lemma_world_occupied_bound(chunks: Seq<Chunk>, k: int)
    requires
        0 <= k,
    ensures
        0 <= world_occupied_upto(chunks, k) <= 4096 * k,
    decreases k,
{
    if k > 0 {
        lemma_world_occupied_bound(chunks, k - 1);
        crate::chunk::lemma_occupied_bound(chunks[k - 1].blocks_spec(), 4096);
    }
}

/// Registering a chunk at an occupied position fails; the chunk already
/// there is kept as it was.
#[derive(Clone, Copy, PartialEq, Eq, Structural, Debug)]
pub struct DuplicateChunkError;

/// The sole spatial index: each position holds at most one chunk, and a
/// registered chunk is never overwritten or unloaded.
pub struct World {
    chunks: Vec<Chunk>,
}

impl World {
    /// The registered chunks, in registration order.
    pub closed spec fn chunks_spec(&self) -> Seq<Chunk> {
        self.chunks@
    }

    /// The world is well formed: every chunk is, and no two chunks share a
    /// position. Constructors establish this and every method keeps it.
    pub open spec fn wf(&self) -> bool {
        &&& forall|i: int|
            0 <= i < self.chunks_spec().len() ==> (#[trigger] self.chunks_spec()[i]).wf()
        &&& forall|i: int, j: int|
            0 <= i < j < self.chunks_spec().len() ==> self.chunks_spec()[i].pos_spec()
                != self.chunks_spec()[j].pos_spec()
    }

    /// Builds an empty world.
    pub fn new() -> (r: World)
        ensures
            r.wf(),
            r.chunks_spec().len() == 0,
    {
        World { chunks: Vec::new() }
    }

    /// Registers a chunk under its position. Fails, leaving the world
    /// unchanged, exactly when a chunk is already registered there; the
    /// chunk already registered is never replaced.
    #[verifier::loop_isolation(false)]
    pub fn add_chunk(&mut self, chunk: Chunk) -> (r: Result<(), DuplicateChunkError>)
        requires
            old(self).wf(),
            chunk.wf(),
        ensures
            final(self).wf(),
            contains_pos(old(self).chunks_spec(), chunk.pos_spec()) ==> r is Err && *final(self)
                == *old(self),
            !contains_pos(old(self).chunks_spec(), chunk.pos_spec()) ==> r is Ok && final(self).chunks_spec() == old(self).chunks_spec().push(chunk),
    {
        let n = self.chunks.len();
        let mut i: usize = 0;
        while i < n
            invariant
                i <= n,
                n == self.chunks_spec().len(),
                forall|k: int|
                    0 <= k < i ==> (#[trigger] self.chunks_spec()[k]).pos_spec()
                        != chunk.pos_spec(),
        decreases n - i,
        {
            if self.chunks[i].position() == chunk.position() {
                return Err(DuplicateChunkError);
            }
            i += 1;
        }
        self.chunks.push(chunk);
        Ok(())
    }

    /// Looks the chunk at `pos` up; yields nothing when none is registered
    /// there.
    #[verifier::loop_isolation(false)]
    pub fn get_chunk(&self, pos: &ChunkPos) -> (r: Option<&Chunk>)
        requires
            self.wf(),
        ensures
            r is Some <==> contains_pos(self.chunks_spec(), *pos),
            r matches Some(c) ==> *c == chunk_at(self.chunks_spec(), *pos) && c.pos_spec() == *pos
                && c.wf(),
    {
        let n = self.chunks.len();
        let mut i: usize = 0;
        while i < n
            invariant
                i <= n,
                n == self.chunks_spec().len(),
                forall|k: int|
                    0 <= k < i ==> (#[trigger] self.chunks_spec()[k]).pos_spec() != *pos,
        decreases n - i,
        {
            if self.chunks[i].position() == pos {
                proof {
                    assert(self.chunks_spec()[i as int].pos_spec() == *pos);
                    let w = index_of_pos(self.chunks_spec(), *pos);
                    assert(self.chunks_spec()[w].pos_spec() == *pos);
                    if w != i as int {
                        assert(false);
                    }
                }
                return Some(&self.chunks[i]);
            }
            i += 1;
        }
        None
    }

    /// Writes a block into the chunk that owns `chunk_pos`, at the local
    /// position `pos`; reports whether such a chunk is registered, and
    /// changes nothing when none is.
    #[verifier::loop_isolation(false)]
    pub fn set_block(
        &mut self,
        block: &Block,
        chunk_pos: &ChunkPos,
        pos: &BlockPosInChunk,
    ) -> (r: bool)
        requires
            old(self).wf(),
        ensures
            final(self).wf(),
            r == contains_pos(old(self).chunks_spec(), *chunk_pos),
            !r ==> *final(self) == *old(self),
            r ==> ({
                let w = index_of_pos(old(self).chunks_spec(), *chunk_pos);
                &&& final(self).chunks_spec().len() == old(self).chunks_spec().len()
                &&& final(self).chunks_spec()[w].pos_spec() == old(self).chunks_spec()[w].pos_spec()
                &&& final(self).chunks_spec()[w].blocks_spec() == old(self).chunks_spec()[w].blocks_spec().update(
                    crate::mymath::index_of(pos@),
                    Some(*block),
                )
                &&& forall|k: int|
                    0 <= k < old(self).chunks_spec().len() && k != w ==> final(self).chunks_spec()[k] == old(self).chunks_spec()[k]
            }),
    {
        let n = self.chunks.len();
        let mut i: usize = 0;
        while i < n
            invariant
                i <= n,
                n == self.chunks_spec().len(),
                *self == *old(self),
                forall|k: int|
                    0 <= k < i ==> (#[trigger] self.chunks_spec()[k]).pos_spec() != *chunk_pos,
        decreases n - i,
        {
            if self.chunks[i].position() == chunk_pos {
                proof {
                    assert(self.chunks_spec()[i as int].pos_spec() == *chunk_pos);
                    let w = index_of_pos(self.chunks_spec(), *chunk_pos);
                    assert(self.chunks_spec()[w].pos_spec() == *chunk_pos);
                    if w != i as int {
                        assert(false);
                    }
                }
                let mut c = self.chunks.remove(i);
                proof {
                    assert(c.wf());
                }
                c.set_block(block, pos);
                let ghost c2 = c;
                self.chunks.insert(i, c);
                proof {
                    assert(self.chunks_spec() =~= old(self).chunks_spec().update(i as int, c2));
                }
                return true;
            }
            i += 1;
        }
        false
    }

    /// Builds the mesh of the whole world: every registered chunk's mesh,
    /// concatenated in registration order. Fails on the first face of the
    /// first occupied slot whose texture name the atlas table does not
    /// hold.
    #[verifier::loop_isolation(false)]
    pub fn generate_vertex_obj(&self, textures: &BlockTextures) -> (r: Result<
        BufferBuilder,
        TextureNotFoundError,
    >)
        requires
            self.wf(),
            self.chunks_spec().len() <= 14000,
        ensures
            r is Ok <==> world_tex_ok(self.chunks_spec(), textures@, self.chunks_spec().len() as int),
            r matches Ok(bb) ==> {
                &&& bb.wf()
                &&& bb.buffer_spec() == world_mesh_upto(
                    self.chunks_spec(),
                    textures@,
                    self.chunks_spec().len() as int,
                )
                &&& bb.vertex_num_spec() == 36 * world_occupied_upto(
                    self.chunks_spec(),
                    self.chunks_spec().len() as int,
                )
            },
            r matches Err(e) ==> {
                &&& e.side == crate::block_texture::first_missing_side(e.block, textures@)
                &&& e.name@ == crate::block_texture::texture_name_spec(e.block, e.side)
            },
    {
        let mut builder = BufferBuilder::new();
        let n = self.chunks.len();
        let mut i: usize = 0;
        while i < n
            invariant
                i <= n,
                builder.wf(),
                world_tex_ok(self.chunks_spec(), textures@, i as int),
                builder.buffer_spec() == world_mesh_upto(self.chunks_spec(), textures@, i as int),
                builder.vertex_num_spec() == 36 * world_occupied_upto(
                    self.chunks_spec(),
                    i as int,
                ),
            decreases n - i,
        {
            proof {
                lemma_world_occupied_bound(self.chunks_spec(), i as int);
                crate::chunk::lemma_occupied_bound(self.chunks_spec()[i as int].blocks_spec(), 4096);
            }
            match self.chunks[i].emit_mesh(&mut builder, textures) {
                Ok(()) => {},
                Err(e) => {
                    return Err(e);
                },
            }
            i += 1;
        }
        Ok(builder)
    }
}

} // verus!
