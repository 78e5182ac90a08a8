//! The flat world: the same few layers in every chunk.

use crate::world::chunk::{block_index, filled, layer_place, Chunk, CHUNK_SECTIONS, MAX_Y, MIN_Y};
use crate::world::generator::WorldGenerator;
use vstd::prelude::*;

verus! {

/// A layer of one block at one height.
#[derive(Debug, Clone, Copy)]
pub struct Layer {
    pub y: i32,
    pub block_id: u16,
}

/// A generator of flat chunks.
#[derive(Debug)]
pub struct FlatGenerator {
    layers: Vec<Layer>,
}

/// The block a flat world has at height `y`: bedrock at 0, three layers of
/// dirt above it, grass on top, air everywhere else.
pub open spec fn flat_block(y: int) -> u16 {
    if y == 0 {
        33
    } else if 1 <= y <= 3 {
        10
    } else if y == 4 {
        9
    } else {
        0
    }
}

impl FlatGenerator {
    /// The layers of the generator, from the lowest up.
    pub closed spec fn layers(&self) -> Seq<Layer> {
        self.layers@
    }

    /// Whether the generator has the five layers of the flat world.
    pub open spec fn standard(&self) -> bool {
        self.layers() == seq![
            Layer { y: 0, block_id: 33 },
            Layer { y: 1, block_id: 10 },
            Layer { y: 2, block_id: 10 },
            Layer { y: 3, block_id: 10 },
            Layer { y: 4, block_id: 9 },
        ]
    }

    /// The generator of the flat world: bedrock, three layers of dirt, grass.
    pub fn new() -> (generator: FlatGenerator)
        ensures
            generator.standard(),
    {
        let mut layers: Vec<Layer> = Vec::new();
        layers.push(Layer { y: 0, block_id: 33 });
        layers.push(Layer { y: 1, block_id: 10 });
        layers.push(Layer { y: 2, block_id: 10 });
        layers.push(Layer { y: 3, block_id: 10 });
        layers.push(Layer { y: 4, block_id: 9 });
        let generator = FlatGenerator { layers };
        assert(generator.layers() =~= seq![
            Layer { y: 0, block_id: 33 },
            Layer { y: 1, block_id: 10 },
            Layer { y: 2, block_id: 10 },
            Layer { y: 3, block_id: 10 },
            Layer { y: 4, block_id: 9 },
        ]);
        generator
    }
}

/// The block at `x`, `y`, `z` after the layers up to the `n`-th were laid
/// on air: that of the last of them at the height `y`, or air.
pub open spec fn laid(layers: Seq<Layer>, n: int, y: int) -> u16
    decreases n,
{
    if n <= 0 || n > layers.len() {
        0
    } else if layers[n - 1].y == y {
        layers[n - 1].block_id
    } else {
        laid(layers, n - 1, y)
    }
}

impl WorldGenerator for FlatGenerator {
    open spec fn block(&self, x: int, y: int, z: int) -> u16 {
        laid(self.layers(), self.layers().len() as int, y)
    }

    fn generate_chunk(&self, chunk_x: i32, chunk_z: i32) -> (chunk: Chunk) {
        let mut chunk = Chunk::new(chunk_x, chunk_z);
        let mut i: usize = 0;
        assert forall|x: int, y: int, z: int|
            0 <= x < 16 && MIN_Y <= y < MAX_Y && 0 <= z < 16 implies #[trigger] chunk.block_at(
            x,
            y,
            z,
        ) == laid(self.layers@, 0, y) by {
            let (section, local_y) = layer_place(y);
            assert(chunk.sections@[section].blocks@[block_index(x, local_y, z)] == 0);
        }
        while i < self.layers.len()
            invariant
                i <= self.layers@.len(),
                chunk.x == chunk_x,
                chunk.z == chunk_z,
                chunk.well_formed(),
                forall|x: int, y: int, z: int|
                    0 <= x < 16 && MIN_Y <= y < MAX_Y && 0 <= z < 16 ==> #[trigger] chunk.block_at(
                        x,
                        y,
                        z,
                    ) == laid(self.layers@, i as int, y),
            decreases self.layers@.len() - i,
        {
            let layer = self.layers[i];
            let ghost before = chunk;
            chunk.fill_layer(layer.y, layer.block_id);
            assert forall|x: int, y: int, z: int|
                0 <= x < 16 && MIN_Y <= y < MAX_Y && 0 <= z < 16 implies #[trigger] chunk.block_at(
                x,
                y,
                z,
            ) == laid(self.layers@, i + 1, y) by {
                let (section, local_y) = layer_place(y);
                assert(before.block_at(x, y, z) == laid(self.layers@, i as int, y));
                if MIN_Y <= layer.y < MAX_Y {
                    let (target, target_y) = layer_place(layer.y as int);
                    if section != target {
                        assert(chunk.sections@[section] == before.sections@[section]);
                    }
                } else {
                    assert(chunk.sections@ == before.sections@);
                }
            }
            i += 1;
        }
        chunk
    }
}

/// The flat world has bedrock at height 0, dirt from 1 to 3, grass at 4
/// and air everywhere else.
pub proof fn lemma_flat_layers(generator: FlatGenerator, x: int, y: int, z: int)
    requires
        generator.standard(),
    ensures
        generator.block(x, y, z) == flat_block(y),
{
    reveal_with_fuel(laid, 6);
}

} // verus!
