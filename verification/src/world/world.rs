//! The world: the chunks that exist, found by their chunk coordinate, and
//! the block the player aims at.

use crate::collections::{fx_map_get, fx_map_insert, fx_map_new};
use crate::world::block::Block;
use crate::world::chunk::{cell_index, grid_full, local_in_chunk, Chunk, CHUNK_ISIZE};
use crate::world::chunk_mesh::{
    chunk_coords_in_range, chunk_in_range, chunk_offset, chunk_quads, local_highlight,
    mesh_indices, mesh_vertices,
};
use crate::world::coords::{GridPoint, LocalPoint, Normal};
use fxhash::FxHashMap;
use vstd::prelude::*;

verus! {

/// The chunk coordinate of a global block coordinate along one axis.
pub open spec fn chunk_coord(v: int) -> int {
    v / CHUNK_ISIZE as int
}

/// The offset of a global block coordinate inside its chunk along one axis.
pub open spec fn local_coord(v: int) -> int {
    v % CHUNK_ISIZE as int
}

/// The chunk that holds the block at `position`.
pub open spec fn chunk_of(position: GridPoint) -> GridPoint {
    GridPoint {
        x: chunk_coord(position.x as int) as i64,
        y: chunk_coord(position.y as int) as i64,
        z: chunk_coord(position.z as int) as i64,
    }
}

/// The cell of its chunk that the block at `position` is.
pub open spec fn local_of(position: GridPoint) -> LocalPoint {
    LocalPoint {
        x: local_coord(position.x as int) as usize,
        y: local_coord(position.y as int) as usize,
        z: local_coord(position.z as int) as usize,
    }
}

/// Whether `chunk` holds the geometry of its own cells, meshed at
/// `chunk_coords` under the highlight `highlighted`.
pub open spec fn meshed(
    chunk: Chunk,
    chunk_coords: GridPoint,
    highlighted: Option<(GridPoint, Normal)>,
) -> bool {
    let quads = chunk_quads(
        chunk@,
        chunk_offset(chunk_coords),
        local_highlight(chunk_coords, highlighted),
    );
    &&& chunk.geometry is Some
    &&& chunk.geometry.unwrap().vertices@ == mesh_vertices(quads)
    &&& chunk.geometry.unwrap().indices@ == mesh_indices(quads)
    &&& chunk.full == grid_full(chunk@)
}

/// Which chunks a change of the highlight has meshed anew.
#[derive(Clone, Copy, Debug, PartialEq, Eq, Structural)]
pub struct Remeshed {
    /// The chunk that held the highlight before, if it exists.
    pub left: Option<GridPoint>,
    /// The chunk that holds the highlight now, if it exists and is another.
    pub entered: Option<GridPoint>,
}

/// The chunks that exist, each under its chunk coordinate, and the block
/// the player aims at. Its parts are private: whoever holds a world holds a
/// sound one.
pub struct World {
    /// The chunks, in the order in which they were added.
    chunks: Vec<Chunk>,
    /// The chunk coordinate of each chunk of `chunks`.
    positions: Vec<GridPoint>,
    /// Where in `chunks` the chunk at a chunk coordinate stands.
    index: FxHashMap<(i64, i64, i64), usize>,
    /// The block the player aims at, and the normal of the face aimed at.
    highlighted: Option<(GridPoint, Normal)>,
}

/// A global block coordinate is its chunk's coordinate times the chunk's
/// size plus an offset inside the chunk, and in no other chunk does the
/// block have a cell.
pub proof fn chunk_and_cell_name_the_block(position: GridPoint, other: GridPoint)
    ensures
        chunk_of(position).x * CHUNK_ISIZE + local_of(position).x == position.x,
        chunk_of(position).y * CHUNK_ISIZE + local_of(position).y == position.y,
        chunk_of(position).z * CHUNK_ISIZE + local_of(position).z == position.z,
        local_of(position).x < CHUNK_ISIZE,
        local_of(position).y < CHUNK_ISIZE,
        local_of(position).z < CHUNK_ISIZE,
        local_in_chunk(chunk_of(position), position) == Some(local_of(position)),
        local_in_chunk(other, position) is Some ==> other == chunk_of(position),
{
}

fn floor_div(v: i64) -> (r: i64)
    ensures
        r == chunk_coord(v as int),
{
    if v >= 0 {
        v / 32
    } else {
        -((-(v + 1)) / 32) - 1
    }
}

fn floor_mod(v: i64) -> (r: usize)
    ensures
        r == local_coord(v as int),
        r < 32,
{
    if v >= 0 {
        (v % 32) as usize
    } else {
        (31 - (-(v + 1)) % 32) as usize
    }
}

/// The chunk that holds the block at `position`.
pub fn chunk_holding(position: GridPoint) -> (chunk_coords: GridPoint)
    ensures
        chunk_coords == chunk_of(position),
{
    GridPoint { x: floor_div(position.x), y: floor_div(position.y), z: floor_div(position.z) }
}

/// The cell of its chunk that the block at `position` is.
pub fn cell_holding(position: GridPoint) -> (cell: LocalPoint)
    ensures
        cell == local_of(position),
        cell.x < 32 && cell.y < 32 && cell.z < 32,
{
    LocalPoint { x: floor_mod(position.x), y: floor_mod(position.y), z: floor_mod(position.z) }
}

impl World {
    /// The chunks and their coordinates stand side by side; every chunk is
    /// whole and lies in the range of global coordinates; and the index
    /// leads from each coordinate to its chunk, and to nothing else.
    pub closed spec fn wf(&self) -> bool {
        &&& self.positions@.len() == self.chunks@.len()
        &&& forall|i: int|
            0 <= i < self.chunks@.len() ==> {
                &&& (#[trigger] self.chunks@[i]).wf()
                &&& chunk_in_range(self.positions@[i])
            }
        &&& forall|i: int|
            0 <= i < self.positions@.len() ==> {
                &&& self.index@.dom().contains((#[trigger] self.positions@[i]).key())
                &&& self.index@[self.positions@[i].key()] == i
            }
        &&& forall|k: (i64, i64, i64)| #[trigger]
            self.index@.dom().contains(k) ==> self.index@[k] < self.positions@.len()
                && self.positions@[self.index@[k] as int].key() == k
    }

    /// Where the chunk at `chunk_coords` stands, if it exists.
    closed spec fn place(&self, chunk_coords: GridPoint) -> Option<int> {
        if self.index@.dom().contains(chunk_coords.key()) {
            Some(self.index@[chunk_coords.key()] as int)
        } else {
            None
        }
    }

    /// The chunk at `chunk_coords`, if it exists.
    pub closed spec fn chunk_at(&self, chunk_coords: GridPoint) -> Option<Chunk> {
        match self.place(chunk_coords) {
            None => None,
            Some(i) => Some(self.chunks@[i]),
        }
    }

    /// The chunk coordinates of the chunks that exist, in the order in
    /// which the chunks were added.
    pub closed spec fn coords(&self) -> Seq<GridPoint> {
        self.positions@
    }

    /// The block the player aims at, and the normal of the face aimed at.
    pub closed spec fn aim(&self) -> Option<(GridPoint, Normal)> {
        self.highlighted
    }

    /// The block at the global coordinate `position`: empty where no chunk
    /// exists.
    pub open spec fn block_at(&self, position: GridPoint) -> Option<Block> {
        match self.chunk_at(chunk_of(position)) {
            None => None,
            Some(chunk) => chunk@[cell_index(
                local_coord(position.x as int),
                local_coord(position.y as int),
                local_coord(position.z as int),
            )],
        }
    }

    /// Whether the two worlds hold the same chunks under the same
    /// coordinates, whatever they aim at.
    pub open spec fn same_chunks(&self, other: World) -> bool {
        &&& self.coords() == other.coords()
        &&& forall|c: GridPoint| #[trigger] self.chunk_at(c) == other.chunk_at(c)
    }

    /// The coordinates list exactly the chunks that exist, each once, and
    /// every chunk is whole and lies in the range of global coordinates.
    pub proof fn coords_list_the_chunks(&self)
        requires
            self.wf(),
        ensures
            forall|c: GridPoint| #[trigger] self.chunk_at(c) is Some <==> self.coords().contains(c),
            self.coords().no_duplicates(),
            forall|c: GridPoint| #[trigger]
                self.chunk_at(c) is Some ==> self.chunk_at(c).unwrap().wf() && chunk_in_range(c),
    {
        assert forall|c: GridPoint| #[trigger] self.chunk_at(c) is Some implies self.coords().contains(
            c,
        ) && self.chunk_at(c).unwrap().wf() && chunk_in_range(c) by {
            let i = self.index@[c.key()] as int;
            assert(self.positions@[i].key() == c.key());
            assert(self.positions@[i] == c);
            assert(self.chunks@[i].wf());
        }
        assert forall|c: GridPoint| self.coords().contains(c) implies #[trigger] self.chunk_at(
            c,
        ) is Some by {
            let i = choose|i: int| 0 <= i < self.positions@.len() && self.positions@[i] == c;
            assert(self.index@.dom().contains(self.positions@[i].key()));
        }
        assert forall|i: int, j: int|
            0 <= i < self.positions@.len() && 0 <= j < self.positions@.len() && i
                != j implies self.positions@[i] != self.positions@[j] by {
            assert(self.index@[self.positions@[i].key()] == i);
            assert(self.index@[self.positions@[j].key()] == j);
        }
    }

    /// A world without chunks and without a highlight.
    pub fn new() -> (world: World)
        ensures
            world.wf(),
            world.coords().len() == 0,
            world.aim() is None,
            forall|c: GridPoint| world.chunk_at(c) is None,
    {
        World {
            chunks: Vec::new(),
            positions: Vec::new(),
            index: fx_map_new(),
            highlighted: None,
        }
    }

    fn find(&self, chunk_coords: GridPoint) -> (place: Option<usize>)
        requires
            self.wf(),
        ensures
            place matches Some(i) ==> self.place(chunk_coords) == Some(i as int) && i
                < self.chunks@.len() && self.positions@[i as int] == chunk_coords,
            place is None ==> self.place(chunk_coords) is None,
    {
        fx_map_get(&self.index, (chunk_coords.x, chunk_coords.y, chunk_coords.z))
    }

    /// Whether a chunk exists at `chunk_coords`.
    pub fn has_chunk(&self, chunk_coords: GridPoint) -> (r: bool)
        requires
            self.wf(),
        ensures
            r == self.chunk_at(chunk_coords) is Some,
    {
        self.find(chunk_coords).is_some()
    }

    /// The chunk at `chunk_coords`, if it exists.
    pub fn chunk(&self, chunk_coords: GridPoint) -> (chunk: Option<&Chunk>)
        requires
            self.wf(),
        ensures
            chunk is Some <==> self.chunk_at(chunk_coords) is Some,
            chunk matches Some(found) ==> *found == self.chunk_at(chunk_coords).unwrap()
                && found.wf(),
    {
        match self.find(chunk_coords) {
            None => None,
            Some(i) => Some(&self.chunks[i]),
        }
    }

    /// Puts `chunk` at `chunk_coords`, in place of the chunk that was there
    /// if there was one. Refused, with the world left as it was, if the
    /// chunk is not whole or the coordinate lies outside the range of
    /// global coordinates.
    pub fn insert_chunk(&mut self, chunk_coords: GridPoint, chunk: Chunk) -> (inserted: bool)
        requires
            old(self).wf(),
        ensures
            final(self).wf(),
            inserted == (chunk.wf() && chunk_in_range(chunk_coords)),
            !inserted ==> *final(self) == *old(self),
            inserted ==> final(self).chunk_at(chunk_coords) == Some(chunk),
            final(self).aim() == old(self).aim(),
            inserted ==> final(self).coords() == (if old(self).chunk_at(chunk_coords) is Some {
                old(self).coords()
            } else {
                old(self).coords().push(chunk_coords)
            }),
            inserted ==> forall|c: GridPoint|
                c != chunk_coords ==> #[trigger] final(self).chunk_at(c) == old(self).chunk_at(c),
    {
        if !chunk.is_whole() || !chunk_coords_in_range(chunk_coords) {
            return false;
        }
        match self.find(chunk_coords) {
            Some(i) => {
                self.chunks[i] = chunk;
                assert forall|c: GridPoint| c != chunk_coords implies #[trigger] self.chunk_at(c)
                    == old(self).chunk_at(c) by {
                    if self.index@.dom().contains(c.key()) {
                        assert(self.positions@[self.index@[c.key()] as int].key() == c.key());
                    }
                }
            },
            None => {
                let place = self.chunks.len();
                self.chunks.push(chunk);
                self.positions.push(chunk_coords);
                fx_map_insert(
                    &mut self.index,
                    (chunk_coords.x, chunk_coords.y, chunk_coords.z),
                    place,
                );
                assert forall|i: int| 0 <= i < self.positions@.len() implies self.index@.dom().contains(
                    (#[trigger] self.positions@[i]).key(),
                ) && self.index@[self.positions@[i].key()] == i by {
                    if i < place {
                        assert(self.positions@[i] == old(self).positions@[i]);
                        assert(old(self).index@.dom().contains(old(self).positions@[i].key()));
                    }
                }
                assert forall|c: GridPoint| c != chunk_coords implies #[trigger] self.chunk_at(c)
                    == old(self).chunk_at(c) by {
                    assert(c.key() != chunk_coords.key());
                }
            },
        }
        true
    }

    /// The block the player aims at, and the normal of the face aimed at.
    pub fn highlight(&self) -> (highlighted: Option<(GridPoint, Normal)>)
        ensures
            highlighted == self.aim(),
    {
        self.highlighted
    }

    /// The chunk coordinates of the chunks that exist, in the order in
    /// which the chunks were added.
    pub fn positions(&self) -> (positions: &Vec<GridPoint>)
        ensures
            positions@ == self.coords(),
    {
        &self.positions
    }

    /// Changes what the world aims at and nothing else: no chunk is meshed.
    pub(crate) fn aim_at(&mut self, highlighted: Option<(GridPoint, Normal)>)
        requires
            old(self).wf(),
        ensures
            final(self).wf(),
            final(self).aim() == highlighted,
            final(self).same_chunks(*old(self)),
            highlighted == old(self).aim() ==> *final(self) == *old(self),
    {
        self.highlighted = highlighted;
    }

    /// Meshes the chunk at `chunk_coords` anew under the present highlight,
    /// if the chunk exists. Returns whether it does.
    pub fn update_chunk_geometry(&mut self, chunk_coords: GridPoint) -> (found: bool)
        requires
            old(self).wf(),
        ensures
            final(self).wf(),
            found == old(self).chunk_at(chunk_coords) is Some,
            found == final(self).chunk_at(chunk_coords) is Some,
            final(self).aim() == old(self).aim(),
            final(self).coords() == old(self).coords(),
            !found ==> *final(self) == *old(self),
            forall|c: GridPoint|
                c != chunk_coords ==> #[trigger] final(self).chunk_at(c) == old(self).chunk_at(c),
            found ==> final(self).chunk_at(chunk_coords).unwrap()@ == old(self).chunk_at(
                chunk_coords,
            ).unwrap()@,
            found ==> meshed(
                final(self).chunk_at(chunk_coords).unwrap(),
                chunk_coords,
                old(self).aim(),
            ),
    {
        let highlighted = self.highlighted;
        match self.find(chunk_coords) {
            None => false,
            Some(i) => {
                self.chunks[i].update_geometry(chunk_coords, highlighted);
                assert forall|c: GridPoint| c != chunk_coords implies #[trigger] self.chunk_at(c)
                    == old(self).chunk_at(c) by {
                    if self.index@.dom().contains(c.key()) {
                        assert(self.positions@[self.index@[c.key()] as int].key() == c.key());
                    }
                }
                true
            },
        }
    }

    /// The block at the global coordinate `position`; empty where no chunk
    /// exists.
    pub fn get_block(&self, position: GridPoint) -> (block: Option<Block>)
        requires
            self.wf(),
        ensures
            block == self.block_at(position),
    {
        let cell = cell_holding(position);
        match self.find(chunk_holding(position)) {
            None => None,
            Some(i) => self.chunks[i].get(cell.x, cell.y, cell.z),
        }
    }

    /// Puts `block` at the global coordinate `position` and meshes the
    /// chunk that holds it anew. Where no chunk exists, nothing happens.
    /// Returns whether a chunk was changed.
    pub fn set_block(&mut self, position: GridPoint, block: Option<Block>) -> (changed: bool)
        requires
            old(self).wf(),
        ensures
            final(self).wf(),
            changed == old(self).chunk_at(chunk_of(position)) is Some,
            changed == final(self).chunk_at(chunk_of(position)) is Some,
            final(self).aim() == old(self).aim(),
            final(self).coords() == old(self).coords(),
            !changed ==> *final(self) == *old(self),
            forall|c: GridPoint|
                c != chunk_of(position) ==> #[trigger] final(self).chunk_at(c) == old(
                    self,
                ).chunk_at(c),
            changed ==> final(self).chunk_at(chunk_of(position)).unwrap()@ == old(self).chunk_at(
                chunk_of(position),
            ).unwrap()@.update(
                cell_index(
                    local_coord(position.x as int),
                    local_coord(position.y as int),
                    local_coord(position.z as int),
                ),
                block,
            ),
            changed ==> meshed(
                final(self).chunk_at(chunk_of(position)).unwrap(),
                chunk_of(position),
                old(self).aim(),
            ),
            forall|p: GridPoint| #[trigger]
                final(self).block_at(p) == (if p == position && changed {
                    block
                } else {
                    old(self).block_at(p)
                }),
    {
        let chunk_coords = chunk_holding(position);
        let cell = cell_holding(position);
        let highlighted = self.highlighted;
        match self.find(chunk_coords) {
            None => false,
            Some(i) => {
                self.chunks[i].set(cell.x, cell.y, cell.z, block);
                self.chunks[i].update_geometry(chunk_coords, highlighted);
                assert forall|c: GridPoint| c != chunk_coords implies #[trigger] self.chunk_at(c)
                    == old(self).chunk_at(c) by {
                    if self.index@.dom().contains(c.key()) {
                        assert(self.positions@[self.index@[c.key()] as int].key() == c.key());
                    }
                }
                assert forall|p: GridPoint| #[trigger]
                    self.block_at(p) == (if p == position {
                        block
                    } else {
                        old(self).block_at(p)
                    }) by {
                    if chunk_of(p) == chunk_coords {
                        if p != position {
                            assert(cell_index(
                                local_coord(p.x as int),
                                local_coord(p.y as int),
                                local_coord(p.z as int),
                            ) != cell_index(cell.x as int, cell.y as int, cell.z as int));
                        }
                    } else {
                        assert(self.chunk_at(chunk_of(p)) == old(self).chunk_at(chunk_of(p)));
                    }
                }
                true
            },
        }
    }
}

} // verus!
