//! Block kinds and the properties the mesher and the renderer read off them.

use vstd::prelude::*;

verus! {

/// The kind of a block.
#[derive(Clone, Copy, Debug, PartialEq, Eq, Hash, Structural)]
pub enum BlockType {
    Cobblestone,
    Dirt,
    Stone,
    Grass,
    Bedrock,
    Water,
}

/// One occupied cell of the grid. An empty cell is `None`.
#[derive(Clone, Copy, Debug, PartialEq, Eq, Hash, Structural)]
pub struct Block {
    pub block_type: BlockType,
}

impl BlockType {
    /// Water is the only kind light passes through.
    pub open spec fn transparent(self) -> bool {
        self == BlockType::Water
    }

    /// Water is also the only kind that is animated per voxel, so it is
    /// never merged into a larger quad.
    pub open spec fn animated(self) -> bool {
        self == BlockType::Water
    }

    /// The byte that stands for this kind in a stored chunk. Zero is kept
    /// for the empty cell.
    pub open spec fn spec_code(self) -> u8 {
        match self {
            BlockType::Cobblestone => 1,
            BlockType::Dirt => 2,
            BlockType::Stone => 3,
            BlockType::Grass => 4,
            BlockType::Bedrock => 5,
            BlockType::Water => 6,
        }
    }

    /// The kind a stored byte stands for, if any.
    pub open spec fn spec_from_code(code: u8) -> Option<BlockType> {
        if code == 1 {
            Some(BlockType::Cobblestone)
        } else if code == 2 {
            Some(BlockType::Dirt)
        } else if code == 3 {
            Some(BlockType::Stone)
        } else if code == 4 {
            Some(BlockType::Grass)
        } else if code == 5 {
            Some(BlockType::Bedrock)
        } else if code == 6 {
            Some(BlockType::Water)
        } else {
            None
        }
    }

    /// The texture-atlas index of each face of a block of this kind, in the
    /// order left, right, bottom, top, back, front. Only grass differs
    /// between its faces.
    pub open spec fn spec_texture_indices(self) -> (i32, i32, i32, i32, i32, i32) {
        match self {
            BlockType::Cobblestone => (0, 0, 0, 0, 0, 0),
            BlockType::Dirt => (1, 1, 1, 1, 1, 1),
            BlockType::Stone => (2, 2, 2, 2, 2, 2),
            BlockType::Grass => (3, 3, 1, 4, 3, 3),
            BlockType::Bedrock => (5, 5, 5, 5, 5, 5),
            BlockType::Water => (6, 6, 6, 6, 6, 6),
        }
    }

    pub fn is_transparent(self) -> (r: bool)
        ensures
            r == self.transparent(),
    {
        match self {
            BlockType::Water => true,
            _ => false,
        }
    }

    pub fn is_animated(self) -> (r: bool)
        ensures
            r == self.animated(),
    {
        match self {
            BlockType::Water => true,
            _ => false,
        }
    }

    pub fn code(self) -> (c: u8)
        ensures
            c == self.spec_code(),
            1 <= c <= 6,
    {
        match self {
            BlockType::Cobblestone => 1,
            BlockType::Dirt => 2,
            BlockType::Stone => 3,
            BlockType::Grass => 4,
            BlockType::Bedrock => 5,
            BlockType::Water => 6,
        }
    }

    pub fn from_code(code: u8) -> (r: Option<BlockType>)
        ensures
            r == Self::spec_from_code(code),
            r is Some <==> 1 <= code <= 6,
    {
        if code == 1 {
            Some(BlockType::Cobblestone)
        } else if code == 2 {
            Some(BlockType::Dirt)
        } else if code == 3 {
            Some(BlockType::Stone)
        } else if code == 4 {
            Some(BlockType::Grass)
        } else if code == 5 {
            Some(BlockType::Bedrock)
        } else if code == 6 {
            Some(BlockType::Water)
        } else {
            None
        }
    }

    pub fn texture_indices(self) -> (t: (i32, i32, i32, i32, i32, i32))
        ensures
            t == self.spec_texture_indices(),
    {
        match self {
            BlockType::Cobblestone => (0, 0, 0, 0, 0, 0),
            BlockType::Dirt => (1, 1, 1, 1, 1, 1),
            BlockType::Stone => (2, 2, 2, 2, 2, 2),
            BlockType::Grass => (3, 3, 1, 4, 3, 3),
            BlockType::Bedrock => (5, 5, 5, 5, 5, 5),
            BlockType::Water => (6, 6, 6, 6, 6, 6),
        }
    }

    /// A code names the kind it was made from, and no other.
    pub proof fn code_round_trip(self)
        ensures
            Self::spec_from_code(self.spec_code()) == Some(self),
    {
    }
}

} // verus!
