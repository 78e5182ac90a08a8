//! The world as far as the protocol touches it: chunks, the makers of
//! chunks and the dimensions a world has.

pub mod chunk;
pub mod generator;

use vstd::prelude::*;

verus! {

/// The dimensions of a world.
#[derive(Debug, Clone, Copy, PartialEq, Eq, Structural, Hash)]
pub enum DimensionId {
    Overworld,
    Nether,
    TheEnd,
}

impl DimensionId {
    /// The lowest height of the dimension and the number of its layers.
    pub open spec fn extent(self) -> (i32, i32) {
        match self {
            DimensionId::Overworld => (-64i32, 320i32),
            DimensionId::Nether => (0i32, 128i32),
            DimensionId::TheEnd => (0i32, 256i32),
        }
    }

    /// The lowest height of the dimension and the number of its layers.
    pub fn bounds(&self) -> (bounds: (i32, i32))
        ensures
            bounds == self.extent(),
    {
        match self {
            DimensionId::Overworld => (-64, 320),
            DimensionId::Nether => (0, 128),
            DimensionId::TheEnd => (0, 256),
        }
    }
}

} // verus!
