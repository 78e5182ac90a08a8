//! The makers of chunks.

pub mod flat;
pub mod pregen;

use crate::world::chunk::Chunk;
use vstd::prelude::*;

verus! {

/// Something that makes the chunk at a place.
pub trait WorldGenerator {
    /// The block the generator puts at `x`, `y`, `z` of every chunk.
    spec fn block(&self, x: int, y: int, z: int) -> u16;

    /// The chunk at `chunk_x`, `chunk_z`.
    fn generate_chunk(&self, chunk_x: i32, chunk_z: i32) -> (chunk: Chunk)
        ensures
            chunk.x == chunk_x,
            chunk.z == chunk_z,
            chunk.well_formed(),
            forall|x: int, y: int, z: int|
                0 <= x < 16 && crate::world::chunk::MIN_Y <= y < crate::world::chunk::MAX_Y && 0
                    <= z < 16 ==> #[trigger] chunk.block_at(x, y, z) == self.block(x, y, z),
    ;
}

} // verus!
