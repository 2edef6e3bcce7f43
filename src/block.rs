use vstd::prelude::*;

verus! {

/// What occupies one cell of the grid.
#[derive(Clone, Copy, Debug, PartialEq, Eq, Structural)]
pub enum BlockType {
    /// The empty cell: every visibility test looks for it.
    Air,
    /// Solid rock, the one material so far.
    Stone,
}

/// One cell of the grid.
///
/// `is_active` is reserved for gameplay state; it never affects meshing.
#[derive(Clone, Copy, Debug, PartialEq, Eq, Structural)]
pub struct Block {
    pub is_active: bool,
    pub block_type: BlockType,
}

impl Block {
    /// A block occupies space exactly when it is not air.
    pub open spec fn solid(self) -> bool {
        self.block_type != BlockType::Air
    }

    /// An inactive stone block.
    pub fn new() -> (r: Block)
        ensures
            r == (Block { is_active: false, block_type: BlockType::Stone }),
    {
        Block { is_active: false, block_type: BlockType::Stone }
    }

    /// An inactive block of the given type.
    pub fn from(b_type: BlockType) -> (r: Block)
        ensures
            r == (Block { is_active: false, block_type: b_type }),
    {
        Block { is_active: false, block_type: b_type }
    }

    /// Whether the block occupies space.
    pub fn is_solid(&self) -> (r: bool)
        ensures
            r == self.solid(),
    {
        match self.block_type {
            BlockType::Air => false,
            _ => true,
        }
    }
}

} // verus!
