//! Chunks: columns of the world, sixteen blocks wide and long, cut into
//! sections sixteen blocks high.

use vstd::prelude::*;

verus! {

/// The blocks along each edge of a section.
pub const SECTION_EDGE: usize = 16;

/// The blocks in one layer of a section.
pub const LAYER_BLOCKS: usize = 256;

/// The blocks in a section.
pub const SECTION_BLOCKS: usize = 4096;

/// The sections of a chunk.
pub const CHUNK_SECTIONS: usize = 24;

/// The height of the lowest layer of a chunk.
pub const MIN_Y: i32 = -64;

/// The height above the highest layer of a chunk.
pub const MAX_Y: i32 = 320;

/// A column of the world.
#[derive(Debug)]
pub struct Chunk {
    pub x: i32,
    pub z: i32,
    pub sections: Vec<ChunkSection>,
}

/// A cube of sixteen by sixteen by sixteen blocks. A block is its id; 0
/// is air.
#[derive(Debug)]
pub struct ChunkSection {
    /// How many blocks of the section are not air.
    pub blocks_count: u16,
    pub blocks: Vec<u16>,
    pub biomes: Option<Vec<u8>>,
}

/// How many of `blocks` are not air.
pub open spec fn occupied(blocks: Seq<u16>) -> nat
    decreases blocks.len(),
{
    if blocks.len() == 0 {
        0
    } else {
        occupied(blocks.drop_last()) + if blocks.last() != 0 {
            1nat
        } else {
            0nat
        }
    }
}

/// The place of the block at `x`, `y`, `z` among the blocks of its section.
pub open spec fn block_index(x: int, y: int, z: int) -> int {
    (y * 16 + z) * 16 + x
}

/// `blocks` with those from `from` up to `to` set to `id`.
pub open spec fn filled(blocks: Seq<u16>, from: int, to: int, id: u16) -> Seq<u16> {
    Seq::new(
        blocks.len(),
        |i: int|
            if from <= i < to {
                id
            } else {
                blocks[i]
            },
    )
}

/// No more blocks are counted than there are.
pub proof fn lemma_occupied_bound(blocks: Seq<u16>)
    ensures
        occupied(blocks) <= blocks.len(),
    decreases blocks.len(),
{
    if blocks.len() > 0 {
        lemma_occupied_bound(blocks.drop_last());
    }
}

/// Setting one block changes the count of blocks by what the block was
/// and what it becomes.
pub proof fn lemma_occupied_update(blocks: Seq<u16>, i: int, id: u16)
    requires
        0 <= i < blocks.len(),
    ensures
        occupied(blocks.update(i, id)) + (if blocks[i] != 0 {
            1nat
        } else {
            0nat
        }) == occupied(blocks) + (if id != 0 {
            1nat
        } else {
            0nat
        }),
    decreases blocks.len(),
{
    let after = blocks.update(i, id);
    if i == blocks.len() - 1 {
        assert(after.drop_last() =~= blocks.drop_last());
    } else {
        assert(after.drop_last() =~= blocks.drop_last().update(i, id));
        lemma_occupied_update(blocks.drop_last(), i, id);
    }
}

/// Blocks that are all `id` count as many as they are, or none if `id` is
/// air.
pub proof fn lemma_occupied_uniform(blocks: Seq<u16>, id: u16)
    requires
        forall|i: int| 0 <= i < blocks.len() ==> blocks[i] == id,
    ensures
        occupied(blocks) == if id != 0 {
            blocks.len()
        } else {
            0
        },
    decreases blocks.len(),
{
    if blocks.len() > 0 {
        lemma_occupied_uniform(blocks.drop_last(), id);
    }
}

impl ChunkSection {
    /// Whether the section has its 4096 blocks and counts those that are
    /// not air rightly.
    pub open spec fn well_formed(&self) -> bool {
        &&& self.blocks@.len() == SECTION_BLOCKS
        &&& self.blocks_count == occupied(self.blocks@)
    }

    /// A section of air.
    pub fn new() -> (section: ChunkSection)
        ensures
            section.well_formed(),
            section.blocks_count == 0,
            forall|i: int| 0 <= i < SECTION_BLOCKS ==> section.blocks@[i] == 0,
            section.biomes is None,
    {
        let mut blocks: Vec<u16> = Vec::new();
        let mut i: usize = 0;
        while i < SECTION_BLOCKS
            invariant
                i <= SECTION_BLOCKS,
                blocks@.len() == i,
                forall|k: int| 0 <= k < i ==> blocks@[k] == 0,
            decreases SECTION_BLOCKS - i,
        {
            blocks.push(0);
            i += 1;
        }
        proof {
            lemma_occupied_uniform(blocks@, 0);
        }
        ChunkSection { blocks_count: 0, blocks, biomes: None }
    }

    /// Puts the block `block_id` at `x`, `y`, `z`.
    pub fn set_block(&mut self, x: usize, y: usize, z: usize, block_id: u16)
        requires
            old(self).well_formed(),
            x < SECTION_EDGE,
            y < SECTION_EDGE,
            z < SECTION_EDGE,
        ensures
            final(self).well_formed(),
            final(self).blocks@ == old(self).blocks@.update(
                block_index(x as int, y as int, z as int),
                block_id,
            ),
            final(self).biomes == old(self).biomes,
    {
        let index: usize = (y * 16 + z) * 16 + x;
        let old_id: u16 = self.blocks[index];
        proof {
            lemma_occupied_update(self.blocks@, index as int, block_id);
            lemma_occupied_bound(self.blocks@);
            lemma_occupied_bound(self.blocks@.update(index as int, block_id));
        }
        if old_id == 0 && block_id != 0 {
            self.blocks_count += 1;
        } else if old_id != 0 && block_id == 0 {
            self.blocks_count -= 1;
        }
        self.blocks.set(index, block_id);
    }

    /// The block at `x`, `y`, `z`.
    pub fn get_block(&self, x: usize, y: usize, z: usize) -> (block_id: u16)
        requires
            self.blocks@.len() == SECTION_BLOCKS,
            x < SECTION_EDGE,
            y < SECTION_EDGE,
            z < SECTION_EDGE,
        ensures
            block_id == self.blocks@[block_index(x as int, y as int, z as int)],
    {
        self.blocks[(y * 16 + z) * 16 + x]
    }

    /// Sets the blocks from `from` up to `to` to `block_id`.
    fn fill(&mut self, from: usize, to: usize, block_id: u16)
        requires
            old(self).well_formed(),
            from <= to <= SECTION_BLOCKS,
        ensures
            final(self).well_formed(),
            final(self).blocks@ == filled(old(self).blocks@, from as int, to as int, block_id),
            final(self).biomes == old(self).biomes,
    {
        let ghost before = self.blocks@;
        let mut i: usize = from;
        while i < to
            invariant
                from <= i <= to <= SECTION_BLOCKS,
                self.well_formed(),
                self.blocks@ == filled(before, from as int, i as int, block_id),
                self.biomes == old(self).biomes,
                before.len() == SECTION_BLOCKS,
            decreases to - i,
        {
            let ghost current = self.blocks@;
            proof {
                lemma_occupied_update(current, i as int, block_id);
                lemma_occupied_bound(current);
                lemma_occupied_bound(current.update(i as int, block_id));
            }
            let old_id: u16 = self.blocks[i];
            if old_id == 0 && block_id != 0 {
                self.blocks_count += 1;
            } else if old_id != 0 && block_id == 0 {
                self.blocks_count -= 1;
            }
            self.blocks.set(i, block_id);
            assert(self.blocks@ =~= filled(before, from as int, i + 1, block_id));
            i += 1;
        }
        assert(self.blocks@ =~= filled(before, from as int, to as int, block_id)) by {
            assert(filled(before, from as int, from as int, block_id) =~= before);
        }
    }
}

/// The section a layer at height `y` lies in, and the layer's place in it.
pub open spec fn layer_place(y: int) -> (int, int) {
    ((y - MIN_Y) / 16, (y - MIN_Y) % 16)
}

impl Chunk {
    /// Whether the chunk has its 24 sections, each well formed.
    pub open spec fn well_formed(&self) -> bool {
        &&& self.sections@.len() == CHUNK_SECTIONS
        &&& forall|i: int| 0 <= i < CHUNK_SECTIONS ==> (#[trigger] self.sections@[i]).well_formed()
    }

    /// The block at `x`, `y`, `z`, where `y` is a height of the world.
    pub open spec fn block_at(&self, x: int, y: int, z: int) -> u16 {
        let (section, local_y) = layer_place(y);
        self.sections@[section].blocks@[block_index(x, local_y, z)]
    }

    /// A chunk of air at `x`, `z`.
    pub fn new(x: i32, z: i32) -> (chunk: Chunk)
        ensures
            chunk.x == x,
            chunk.z == z,
            chunk.well_formed(),
            forall|i: int, k: int|
                0 <= i < CHUNK_SECTIONS && 0 <= k < SECTION_BLOCKS ==> #[trigger] chunk.sections@[i].blocks@[k]
                    == 0,
    {
        let mut sections: Vec<ChunkSection> = Vec::new();
        let mut i: usize = 0;
        while i < CHUNK_SECTIONS
            invariant
                i <= CHUNK_SECTIONS,
                sections@.len() == i,
                forall|j: int| 0 <= j < i ==> (#[trigger] sections@[j]).well_formed(),
                forall|j: int, k: int|
                    0 <= j < i && 0 <= k < SECTION_BLOCKS ==> #[trigger] sections@[j].blocks@[k]
                        == 0,
            decreases CHUNK_SECTIONS - i,
        {
            sections.push(ChunkSection::new());
            i += 1;
        }
        Chunk { x, z, sections }
    }

    /// Makes the whole layer at height `y` the block `block_id`. A height
    /// outside the chunk changes nothing.
    pub fn fill_layer(&mut self, y: i32, block_id: u16)
        requires
            old(self).well_formed(),
        ensures
            final(self).well_formed(),
            final(self).x == old(self).x,
            final(self).z == old(self).z,
            !(MIN_Y <= y < MAX_Y) ==> final(self).sections@ == old(self).sections@,
            MIN_Y <= y < MAX_Y ==> ({
                let (section, local_y) = layer_place(y as int);
                &&& forall|i: int|
                    0 <= i < CHUNK_SECTIONS && i != section ==> final(self).sections@[i] == old(self).sections@[i]
                &&& final(self).sections@[section].blocks@ == filled(
                    old(self).sections@[section].blocks@,
                    local_y * 256,
                    local_y * 256 + 256,
                    block_id,
                )
            }),
    {
        if y < MIN_Y || y >= MAX_Y {
            return ;
        }
        let idx: usize = ((y + 64) / 16) as usize;
        let local_y: usize = ((y + 64) % 16) as usize;
        let mut section = ChunkSection { blocks_count: 0, blocks: Vec::new(), biomes: None };
        let ghost before = self.sections@;
        core::mem::swap(&mut section, &mut self.sections[idx]);
        section.fill(local_y * LAYER_BLOCKS, local_y * LAYER_BLOCKS + LAYER_BLOCKS, block_id);
        self.sections.set(idx, section);
        assert forall|i: int| 0 <= i < CHUNK_SECTIONS implies (
        #[trigger] self.sections@[i]).well_formed() by {
            if i != idx {
                assert(self.sections@[i] == before[i]);
            }
        }
    }

    /// Makes the whole section `section_index` the block `block_id`. A
    /// section the chunk does not have changes nothing.
    pub fn fill_section(&mut self, section_index: usize, block_id: u16)
        requires
            old(self).well_formed(),
        ensures
            final(self).well_formed(),
            final(self).x == old(self).x,
            final(self).z == old(self).z,
            section_index >= CHUNK_SECTIONS ==> final(self).sections@ == old(self).sections@,
            section_index < CHUNK_SECTIONS ==> {
                &&& forall|i: int|
                    0 <= i < CHUNK_SECTIONS && i != section_index ==> final(self).sections@[i]
                        == old(self).sections@[i]
                &&& forall|k: int|
                    0 <= k < SECTION_BLOCKS ==> final(self).sections@[section_index as int].blocks@[k] == block_id
                &&& final(self).sections@[section_index as int].blocks_count == if block_id == 0 {
                    0
                } else {
                    SECTION_BLOCKS
                }
            },
    {
        if section_index >= self.sections.len() {
            return ;
        }
        let mut section = ChunkSection { blocks_count: 0, blocks: Vec::new(), biomes: None };
        let ghost before = self.sections@;
        core::mem::swap(&mut section, &mut self.sections[section_index]);
        section.fill(0, SECTION_BLOCKS, block_id);
        proof {
            lemma_occupied_uniform(section.blocks@, block_id);
        }
        self.sections.set(section_index, section);
        assert forall|i: int| 0 <= i < CHUNK_SECTIONS implies (
        #[trigger] self.sections@[i]).well_formed() by {
            if i != section_index {
                assert(self.sections@[i] == before[i]);
            }
        }
    }
}

} // verus!
