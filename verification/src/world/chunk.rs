//! A chunk: a cube of `CHUNK_SIZE` cells per edge, the unit of meshing and
//! of persistence.

use crate::geometry::Geometry;
use crate::world::block::Block;
use crate::world::coords::{GridPoint, LocalPoint};
use crate::world::face_flags::{
    face_mask, FaceFlags, FACE_BACK, FACE_BOTTOM, FACE_FRONT, FACE_LEFT, FACE_NONE, FACE_RIGHT,
    FACE_TOP,
};
use vstd::prelude::*;

verus! {

/// Cells along one edge of a chunk.
pub const CHUNK_SIZE: usize = 32;

/// `CHUNK_SIZE` as a signed number, for arithmetic on global coordinates.
pub const CHUNK_ISIZE: i64 = 32;

/// Cells in one chunk.
pub const CHUNK_VOLUME: usize = 32768;

/// The cells of a chunk, flattened: the cell `(x, y, z)` stands at
/// `cell_index(x, y, z)`.
pub type Grid = Seq<Option<Block>>;

/// Whether `(x, y, z)` names a cell of a chunk.
pub open spec fn in_chunk(x: int, y: int, z: int) -> bool {
    0 <= x < CHUNK_SIZE && 0 <= y < CHUNK_SIZE && 0 <= z < CHUNK_SIZE
}

/// Where the cell `(x, y, z)` stands in the flattened grid.
pub open spec fn cell_index(x: int, y: int, z: int) -> int {
    (y * CHUNK_SIZE + z) * CHUNK_SIZE + x
}

/// The cell `(x, y, z)` of a grid; empty outside the chunk.
pub open spec fn grid_cell(grid: Grid, x: int, y: int, z: int) -> Option<Block> {
    if in_chunk(x, y, z) {
        grid[cell_index(x, y, z)]
    } else {
        None
    }
}

/// Whether a cell of transparency `transparent` shows the face it turns
/// towards `(x, y, z)`: it does when that neighbour lies outside the chunk,
/// is empty, or differs in transparency.
pub open spec fn exposed_to(grid: Grid, transparent: bool, x: int, y: int, z: int) -> bool {
    match grid_cell(grid, x, y, z) {
        None => true,
        Some(neighbour) => neighbour.block_type.transparent() != transparent,
    }
}

/// The faces that the occupied cell `(x, y, z)` shows.
pub open spec fn visible_faces(grid: Grid, x: int, y: int, z: int) -> FaceFlags {
    let t = grid_cell(grid, x, y, z).unwrap().block_type.transparent();
    face_mask(
        exposed_to(grid, t, x - 1, y, z),
        exposed_to(grid, t, x + 1, y, z),
        exposed_to(grid, t, x, y - 1, z),
        exposed_to(grid, t, x, y + 1, z),
        exposed_to(grid, t, x, y, z - 1),
        exposed_to(grid, t, x, y, z + 1),
    )
}

/// Whether no cell of the grid is empty.
pub open spec fn grid_full(grid: Grid) -> bool {
    forall|i: int| 0 <= i < grid.len() ==> (#[trigger] grid[i]) is Some
}

/// The offset of a block inside a chunk along one axis, if the block lies
/// in the chunk.
pub open spec fn local_offset(chunk: i64, block: i64) -> Option<usize> {
    let d = block - chunk * CHUNK_ISIZE;
    if 0 <= d < CHUNK_ISIZE {
        Some(d as usize)
    } else {
        None
    }
}

/// The position of a block inside a chunk, if the block lies in the chunk.
pub open spec fn local_in_chunk(chunk: GridPoint, block: GridPoint) -> Option<LocalPoint> {
    if local_offset(chunk.x, block.x) is Some && local_offset(chunk.y, block.y) is Some
        && local_offset(chunk.z, block.z) is Some {
        Some(
            LocalPoint {
                x: local_offset(chunk.x, block.x).unwrap(),
                y: local_offset(chunk.y, block.y).unwrap(),
                z: local_offset(chunk.z, block.z).unwrap(),
            },
        )
    } else {
        None
    }
}

/// A cube of cells with what was last derived from them.
pub struct Chunk {
    /// The cells, flattened as `cell_index` says.
    pub blocks: Vec<Option<Block>>,
    /// The render geometry that `update_geometry` last made, if it ran.
    /// Like `full`, it goes stale when a cell changes.
    pub geometry: Option<Geometry>,
    /// Whether no cell was empty when `update_fullness` last ran.
    pub full: bool,
}

impl View for Chunk {
    type V = Grid;

    open spec fn view(&self) -> Grid {
        self.blocks@
    }
}

fn local_axis(chunk: i64, block: i64) -> (r: Option<usize>)
    ensures
        r == local_offset(chunk, block),
{
    let d: i128 = block as i128 - (chunk as i128) * 32;
    if 0 <= d && d < 32 {
        Some(d as usize)
    } else {
        None
    }
}

impl Chunk {
    /// A chunk holds exactly `CHUNK_VOLUME` cells.
    pub open spec fn wf(&self) -> bool {
        self.blocks@.len() == CHUNK_VOLUME
    }

    /// A chunk with every cell empty.
    pub fn new() -> (chunk: Chunk)
        ensures
            chunk.wf(),
            !chunk.full,
            chunk.geometry is None,
            forall|i: int| 0 <= i < CHUNK_VOLUME ==> (#[trigger] chunk@[i]) is None,
    {
        let mut blocks: Vec<Option<Block>> = Vec::new();
        let mut i: usize = 0;
        while i < CHUNK_VOLUME
            invariant
                i <= CHUNK_VOLUME,
                blocks@.len() == i,
                forall|j: int| 0 <= j < i ==> (#[trigger] blocks@[j]) is None,
            decreases CHUNK_VOLUME - i,
        {
            blocks.push(None);
            i = i + 1;
        }
        Chunk { blocks, geometry: None, full: false }
    }

    /// Whether the chunk holds exactly `CHUNK_VOLUME` cells.
    pub fn is_whole(&self) -> (r: bool)
        ensures
            r == self.wf(),
    {
        self.blocks.len() == CHUNK_VOLUME
    }

    /// The cell at `(x, y, z)`.
    pub fn get(&self, x: usize, y: usize, z: usize) -> (cell: Option<Block>)
        requires
            self.wf(),
            in_chunk(x as int, y as int, z as int),
        ensures
            cell == grid_cell(self@, x as int, y as int, z as int),
    {
        self.blocks[(y * CHUNK_SIZE + z) * CHUNK_SIZE + x]
    }

    /// Puts `cell` at `(x, y, z)` and leaves every other cell alone.
    pub fn set(&mut self, x: usize, y: usize, z: usize, cell: Option<Block>)
        requires
            old(self).wf(),
            in_chunk(x as int, y as int, z as int),
        ensures
            final(self).wf(),
            final(self)@ == old(self)@.update(cell_index(x as int, y as int, z as int), cell),
            final(self).full == old(self).full,
            final(self).geometry == old(self).geometry,
    {
        self.blocks.set((y * CHUNK_SIZE + z) * CHUNK_SIZE + x, cell);
    }

    /// Recomputes `full`: true exactly when no cell is empty.
    pub fn update_fullness(&mut self)
        requires
            old(self).wf(),
        ensures
            final(self)@ == old(self)@,
            final(self).full == grid_full(old(self)@),
            final(self).geometry == old(self).geometry,
    {
        let mut i: usize = 0;
        while i < CHUNK_VOLUME
            invariant
                i <= CHUNK_VOLUME,
                self.wf(),
                self@ == old(self)@,
                self.geometry == old(self).geometry,
                forall|j: int| 0 <= j < i ==> (#[trigger] self@[j]) is Some,
            decreases CHUNK_VOLUME - i,
        {
            if self.blocks[i].is_none() {
                self.full = false;
                return ;
            }
            i = i + 1;
        }
        self.full = true;
    }

    /// Turns a global block coordinate into a cell of the chunk at
    /// `chunk_coords`, or `None` if the block lies in another chunk.
    pub fn block_coords_to_local(chunk_coords: GridPoint, block_coords: GridPoint) -> (local:
        Option<LocalPoint>)
        ensures
            local == local_in_chunk(chunk_coords, block_coords),
    {
        let x = local_axis(chunk_coords.x, block_coords.x);
        let y = local_axis(chunk_coords.y, block_coords.y);
        let z = local_axis(chunk_coords.z, block_coords.z);
        match (x, y, z) {
            (Some(x), Some(y), Some(z)) => Some(LocalPoint { x, y, z }),
            _ => None,
        }
    }

    fn exposed(&self, transparent: bool, inside: bool, x: usize, y: usize, z: usize) -> (r: bool)
        requires
            self.wf(),
            inside ==> in_chunk(x as int, y as int, z as int),
        ensures
            inside ==> r == exposed_to(self@, transparent, x as int, y as int, z as int),
            !inside ==> r,
    {
        if !inside {
            return true;
        }
        match self.get(x, y, z) {
            None => true,
            Some(neighbour) => neighbour.block_type.is_transparent() != transparent,
        }
    }

    /// The faces that the occupied cell `(x, y, z)` shows: those turned
    /// towards the chunk's edge, an empty cell, or a cell of the other
    /// transparency. Cells of neighbouring chunks are never consulted.
    pub fn check_visible_faces(&self, x: usize, y: usize, z: usize) -> (faces: FaceFlags)
        requires
            self.wf(),
            in_chunk(x as int, y as int, z as int),
            grid_cell(self@, x as int, y as int, z as int) is Some,
        ensures
            faces == visible_faces(self@, x as int, y as int, z as int),
    {
        let transparent = self.get(x, y, z).unwrap().block_type.is_transparent();
        let last: usize = CHUNK_SIZE - 1;
        let left = self.exposed(transparent, x > 0, if x > 0 { x - 1 } else { 0 }, y, z);
        let right = self.exposed(transparent, x < last, x + 1, y, z);
        let bottom = self.exposed(transparent, y > 0, x, if y > 0 { y - 1 } else { 0 }, z);
        let top = self.exposed(transparent, y < last, x, y + 1, z);
        let back = self.exposed(transparent, z > 0, x, y, if z > 0 { z - 1 } else { 0 });
        let front = self.exposed(transparent, z < last, x, y, z + 1);
        let faces: FaceFlags = (if left { FACE_LEFT } else { FACE_NONE }) | (if right {
            FACE_RIGHT
        } else {
            FACE_NONE
        }) | (if bottom { FACE_BOTTOM } else { FACE_NONE }) | (if top { FACE_TOP } else {
            FACE_NONE
        }) | (if back { FACE_BACK } else { FACE_NONE }) | (if front { FACE_FRONT } else {
            FACE_NONE
        });
        faces
    }
}

impl Default for Chunk {
    fn default() -> (chunk: Chunk)
        ensures
            chunk.wf(),
            !chunk.full,
            chunk.geometry is None,
            forall|i: int| 0 <= i < CHUNK_VOLUME ==> (#[trigger] chunk@[i]) is None,
    {
        Chunk::new()
    }
}

} // verus!
