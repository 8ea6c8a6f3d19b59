//! Procedural terrain: a chunk is filled column by column from two height
//! fields sampled over its footprint.

use crate::world::block::{Block, BlockType};
use crate::world::chunk::{cell_index, grid_cell, in_chunk, Chunk, CHUNK_ISIZE, CHUNK_SIZE};
use crate::world::meshing::LAYER_AREA;
use vstd::prelude::*;

verus! {

/// Chunks below this height are flooded: every cell that terrain leaves
/// empty is filled with water.
pub const SEA_LEVEL_CHUNKS: i64 = 4;

/// The least and the greatest depth of the dirt that covers the stone.
pub const MIN_DIRT_DEPTH: i64 = 3;

pub const MAX_DIRT_DEPTH: i64 = 10;

/// One integer sample for each column of a chunk, row by row.
pub struct HeightMap {
    pub samples: Vec<i64>,
}

impl HeightMap {
    /// A height map holds one sample for each column.
    pub open spec fn wf(&self) -> bool {
        self.samples@.len() == LAYER_AREA
    }

    /// The sample of the column `(x, z)`.
    pub open spec fn value(&self, x: int, z: int) -> i64 {
        self.samples@[z * CHUNK_SIZE + x]
    }

    /// Takes the samples of a chunk's columns, `x` running fastest. `None`
    /// if there is not exactly one for each column.
    pub fn new(samples: Vec<i64>) -> (map: Option<HeightMap>)
        ensures
            map is Some <==> samples@.len() == LAYER_AREA,
            map is Some ==> map.unwrap().wf() && map.unwrap().samples@ == samples@,
    {
        if samples.len() == LAYER_AREA {
            Some(HeightMap { samples })
        } else {
            None
        }
    }

    pub fn get_value(&self, x: usize, z: usize) -> (value: i64)
        requires
            self.wf(),
            x < CHUNK_SIZE,
            z < CHUNK_SIZE,
        ensures
            value == self.value(x as int, z as int),
    {
        self.samples[z * CHUNK_SIZE + x]
    }
}

/// The depth of the dirt for a raw stone sample: the sample, held between
/// the least and the greatest depth.
pub open spec fn dirt_depth(stone: int) -> int {
    if stone < MIN_DIRT_DEPTH {
        MIN_DIRT_DEPTH as int
    } else if stone > MAX_DIRT_DEPTH {
        MAX_DIRT_DEPTH as int
    } else {
        stone
    }
}

/// What terrain puts at height `y` of a column of the chunk at height
/// `chunk_y`, where the ground lies at the global height `terrain`: bedrock
/// at the bottom of the world, stone up to the dirt, dirt up to the ground,
/// one cap of grass at the ground, and above that what was there before.
pub open spec fn terrain_cell(
    before: Option<Block>,
    chunk_y: int,
    terrain: int,
    stone: int,
    y: int,
) -> Option<Block> {
    let ground = terrain - chunk_y * CHUNK_ISIZE;
    let rock = ground - dirt_depth(stone);
    if chunk_y == 0 && y == 0 {
        Some(Block { block_type: BlockType::Bedrock })
    } else if y == ground {
        Some(Block { block_type: BlockType::Grass })
    } else if y < rock {
        Some(Block { block_type: BlockType::Stone })
    } else if y < ground {
        Some(Block { block_type: BlockType::Dirt })
    } else {
        before
    }
}

/// What generation leaves at height `y` of a column: the terrain, and
/// water in every cell that terrain leaves empty below sea level.
pub open spec fn generated_cell(
    before: Option<Block>,
    chunk_y: int,
    terrain: int,
    stone: int,
    y: int,
) -> Option<Block> {
    let cell = terrain_cell(before, chunk_y, terrain, stone, y);
    if chunk_y < SEA_LEVEL_CHUNKS && cell is None {
        Some(Block { block_type: BlockType::Water })
    } else {
        cell
    }
}

/// Generating twice from the same samples gives what generating once gives.
pub proof fn generation_is_idempotent(
    before: Option<Block>,
    chunk_y: int,
    terrain: int,
    stone: int,
    y: int,
)
    ensures
        generated_cell(
            generated_cell(before, chunk_y, terrain, stone, y),
            chunk_y,
            terrain,
            stone,
            y,
        ) == generated_cell(before, chunk_y, terrain, stone, y),
{
}

/// Generation never empties a cell, and below sea level it fills every
/// cell.
pub proof fn generation_only_fills(
    before: Option<Block>,
    chunk_y: int,
    terrain: int,
    stone: int,
    y: int,
)
    ensures
        before is Some ==> generated_cell(before, chunk_y, terrain, stone, y) is Some,
        chunk_y < SEA_LEVEL_CHUNKS ==> generated_cell(before, chunk_y, terrain, stone, y) is Some,
{
}

fn column_cell(before: Option<Block>, chunk_y: i64, terrain: i64, stone: i64, y: usize) -> (cell:
    Option<Block>)
    requires
        y < CHUNK_SIZE,
    ensures
        cell == generated_cell(before, chunk_y as int, terrain as int, stone as int, y as int),
{
    let depth: i128 = if stone < MIN_DIRT_DEPTH {
        MIN_DIRT_DEPTH as i128
    } else if stone > MAX_DIRT_DEPTH {
        MAX_DIRT_DEPTH as i128
    } else {
        stone as i128
    };
    let ground: i128 = terrain as i128 - (chunk_y as i128) * 32;
    let rock: i128 = ground - depth;
    let height: i128 = y as i128;
    let cell = if chunk_y == 0 && y == 0 {
        Some(Block { block_type: BlockType::Bedrock })
    } else if height == ground {
        Some(Block { block_type: BlockType::Grass })
    } else if height < rock {
        Some(Block { block_type: BlockType::Stone })
    } else if height < ground {
        Some(Block { block_type: BlockType::Dirt })
    } else {
        before
    };
    if chunk_y < SEA_LEVEL_CHUNKS && cell.is_none() {
        Some(Block { block_type: BlockType::Water })
    } else {
        cell
    }
}

impl Chunk {
    /// Fills the chunk at height `chunk_y` with terrain, column by column.
    /// `terrain` gives the global height of the ground of each column and
    /// `stone` the raw depth of its dirt. Cells above the ground keep what
    /// they held, except that below sea level the empty ones are flooded.
    pub fn generate(&mut self, chunk_y: i64, terrain: &HeightMap, stone: &HeightMap)
        requires
            old(self).wf(),
            terrain.wf(),
            stone.wf(),
        ensures
            final(self).wf(),
            final(self).full == old(self).full,
            final(self).geometry == old(self).geometry,
            forall|x: int, y: int, z: int|
                in_chunk(x, y, z) ==> #[trigger] grid_cell(final(self)@, x, y, z) == generated_cell(
                    grid_cell(old(self)@, x, y, z),
                    chunk_y as int,
                    terrain.value(x, z) as int,
                    stone.value(x, z) as int,
                    y,
                ),
    {
        let mut z: usize = 0;
        while z < CHUNK_SIZE
            invariant
                z <= CHUNK_SIZE,
                self.wf(),
                terrain.wf(),
                stone.wf(),
                self.full == old(self).full,
                self.geometry == old(self).geometry,
                forall|i: int, j: int, k: int|
                    in_chunk(i, j, k) ==> #[trigger] grid_cell(self@, i, j, k) == (if k < z {
                        generated_cell(
                            grid_cell(old(self)@, i, j, k),
                            chunk_y as int,
                            terrain.value(i, k) as int,
                            stone.value(i, k) as int,
                            j,
                        )
                    } else {
                        grid_cell(old(self)@, i, j, k)
                    }),
            decreases CHUNK_SIZE - z,
        {
            let mut x: usize = 0;
            while x < CHUNK_SIZE
                invariant
                    z < CHUNK_SIZE,
                    x <= CHUNK_SIZE,
                    self.wf(),
                    terrain.wf(),
                    stone.wf(),
                    self.full == old(self).full,
                    self.geometry == old(self).geometry,
                    forall|i: int, j: int, k: int|
                        in_chunk(i, j, k) ==> #[trigger] grid_cell(self@, i, j, k) == (if k < z
                            || (k == z && i < x) {
                            generated_cell(
                                grid_cell(old(self)@, i, j, k),
                                chunk_y as int,
                                terrain.value(i, k) as int,
                                stone.value(i, k) as int,
                                j,
                            )
                        } else {
                            grid_cell(old(self)@, i, j, k)
                        }),
                decreases CHUNK_SIZE - x,
            {
                let v = terrain.get_value(x, z);
                let s = stone.get_value(x, z);
                let mut y: usize = 0;
                while y < CHUNK_SIZE
                    invariant
                        z < CHUNK_SIZE,
                        x < CHUNK_SIZE,
                        y <= CHUNK_SIZE,
                        self.wf(),
                        v == terrain.value(x as int, z as int),
                        s == stone.value(x as int, z as int),
                        self.full == old(self).full,
                        self.geometry == old(self).geometry,
                        forall|i: int, j: int, k: int|
                            in_chunk(i, j, k) ==> #[trigger] grid_cell(self@, i, j, k) == (if k < z
                                || (k == z && i < x) || (k == z && i == x && j < y) {
                                generated_cell(
                                    grid_cell(old(self)@, i, j, k),
                                    chunk_y as int,
                                    terrain.value(i, k) as int,
                                    stone.value(i, k) as int,
                                    j,
                                )
                            } else {
                                grid_cell(old(self)@, i, j, k)
                            }),
                    decreases CHUNK_SIZE - y,
                {
                    let ghost grid = self@;
                    let before = self.get(x, y, z);
                    assert(before == grid_cell(old(self)@, x as int, y as int, z as int));
                    let cell = column_cell(before, chunk_y, v, s, y);
                    self.set(x, y, z, cell);
                    assert forall|i: int, j: int, k: int| in_chunk(i, j, k) implies #[trigger] grid_cell(
                        self@,
                        i,
                        j,
                        k,
                    ) == (if i == x && j == y && k == z {
                        cell
                    } else {
                        grid_cell(grid, i, j, k)
                    }) by {
                        if !(i == x && j == y && k == z) {
                            assert(cell_index(i, j, k) != cell_index(x as int, y as int, z as int));
                        }
                    }
                    y = y + 1;
                }
                x = x + 1;
            }
            z = z + 1;
        }
    }
}

} // verus!
