//! Greedy meshing of one layer of a chunk: culling of hidden cells, then
//! merging of the remaining ones into rectangles of one kind.

use crate::collections::{
    fx_map_get, fx_map_insert, fx_map_new, fx_set_contains, fx_set_insert, fx_set_new,
};
use crate::world::block::BlockType;
use crate::world::chunk::{grid_cell, visible_faces, Chunk, Grid, CHUNK_ISIZE, CHUNK_SIZE};
use crate::world::coords::{GridPoint, LocalPoint, Normal};
use crate::world::face_flags::{face_none_members, FaceFlags, FACE_NONE};
use crate::world::quad::Quad;
use fxhash::{FxHashMap, FxHashSet};
use std::collections::VecDeque;
use vstd::prelude::*;

verus! {

/// A cell of a layer: its `x` and its `z`.
pub type CoordinateXZ = (usize, usize);

/// What the mesher keeps of a cell: its kind and the faces it shows.
pub type BlockFace = (BlockType, FaceFlags);

/// Cells in one layer.
pub const LAYER_AREA: usize = 1024;

/// The cell that stands at place `i` when a layer is walked row by row,
/// `x` running fastest.
pub open spec fn layer_cell(i: int) -> CoordinateXZ {
    ((i % CHUNK_SIZE as int) as usize, (i / CHUNK_SIZE as int) as usize)
}

/// What culling keeps of the cell `(x, y, z)`: nothing if it is empty or
/// shows no face.
pub open spec fn culled_entry(grid: Grid, x: int, y: int, z: int) -> Option<BlockFace> {
    match grid_cell(grid, x, y, z) {
        None => None,
        Some(block) => if visible_faces(grid, x, y, z) == FACE_NONE {
            None
        } else {
            Some((block.block_type, visible_faces(grid, x, y, z)))
        },
    }
}

/// The culled cells among the first `n` cells of layer `y`.
pub open spec fn culled_upto(grid: Grid, y: int, n: int) -> Map<CoordinateXZ, BlockFace> {
    Map::new(
        |c: CoordinateXZ|
            c.0 < CHUNK_SIZE && c.1 < CHUNK_SIZE && c.1 * CHUNK_SIZE + c.0 < n && culled_entry(
                grid,
                c.0 as int,
                y,
                c.1 as int,
            ) is Some,
        |c: CoordinateXZ| culled_entry(grid, c.0 as int, y, c.1 as int).unwrap(),
    )
}

/// The culled cells of layer `y`, each with its kind and visible faces.
pub open spec fn culled_layer(grid: Grid, y: int) -> Map<CoordinateXZ, BlockFace> {
    culled_upto(grid, y, LAYER_AREA as int)
}

/// The culled cells among the first `n` cells of layer `y`, in the order of
/// the walk.
pub open spec fn culled_queue_upto(grid: Grid, y: int, n: int) -> Seq<CoordinateXZ>
    decreases n,
{
    if n <= 0 {
        Seq::empty()
    } else {
        let before = culled_queue_upto(grid, y, n - 1);
        let c = layer_cell(n - 1);
        if culled_entry(grid, c.0 as int, y, c.1 as int) is Some {
            before.push(c)
        } else {
            before
        }
    }
}

/// The culled cells of layer `y` in row-major order.
pub open spec fn culled_queue(grid: Grid, y: int) -> Seq<CoordinateXZ> {
    culled_queue_upto(grid, y, LAYER_AREA as int)
}

/// Whether the highlight, if any, lies on the cell `(x, y, z)`.
pub open spec fn is_highlighted(
    highlighted: Option<(LocalPoint, Normal)>,
    x: int,
    y: int,
    z: int,
) -> bool {
    match highlighted {
        None => false,
        Some((cell, _)) => cell.x == x && cell.y == y && cell.z == z,
    }
}

/// Whether the cell `(x, z)` may join a quad of kind `kind`: it was culled
/// in, is of that kind, belongs to no quad yet and is not highlighted.
pub open spec fn joinable(
    culled: Map<CoordinateXZ, BlockFace>,
    visited: Set<CoordinateXZ>,
    highlighted: Option<(LocalPoint, Normal)>,
    y: int,
    kind: BlockType,
    x: int,
    z: int,
) -> bool {
    let c = (x as usize, z as usize);
    &&& !visited.contains(c)
    &&& !is_highlighted(highlighted, x, y, z)
    &&& culled.dom().contains(c)
    &&& culled[c].0 == kind
}

/// Where the run of joinable cells that follows `(x, z)` towards +X ends:
/// the first `x` beyond it that cannot join, or the chunk's edge.
pub open spec fn span_end(
    culled: Map<CoordinateXZ, BlockFace>,
    visited: Set<CoordinateXZ>,
    highlighted: Option<(LocalPoint, Normal)>,
    y: int,
    kind: BlockType,
    x: int,
    z: int,
) -> int
    decreases CHUNK_SIZE - x,
{
    if x + 1 < CHUNK_SIZE && joinable(culled, visited, highlighted, y, kind, x + 1, z) {
        span_end(culled, visited, highlighted, y, kind, x + 1, z)
    } else {
        x + 1
    }
}

/// Whether every cell of row `z` from `x0` up to `x1` may join.
pub open spec fn row_joinable(
    culled: Map<CoordinateXZ, BlockFace>,
    visited: Set<CoordinateXZ>,
    highlighted: Option<(LocalPoint, Normal)>,
    y: int,
    kind: BlockType,
    x0: int,
    x1: int,
    z: int,
) -> bool {
    forall|x: int| x0 <= x < x1 ==> #[trigger] joinable(culled, visited, highlighted, y, kind, x, z)
}

/// Where the run of rows that can join as a whole ends: the first row
/// beyond `z` with a cell that cannot join, or the chunk's edge.
pub open spec fn rows_end(
    culled: Map<CoordinateXZ, BlockFace>,
    visited: Set<CoordinateXZ>,
    highlighted: Option<(LocalPoint, Normal)>,
    y: int,
    kind: BlockType,
    x0: int,
    x1: int,
    z: int,
) -> int
    decreases CHUNK_SIZE - z,
{
    if z + 1 < CHUNK_SIZE && row_joinable(culled, visited, highlighted, y, kind, x0, x1, z + 1) {
        rows_end(culled, visited, highlighted, y, kind, x0, x1, z + 1)
    } else {
        z + 1
    }
}

/// The union of the visible faces of the cells of row `z` from `x0` up to
/// `x1`.
pub open spec fn row_faces(culled: Map<CoordinateXZ, BlockFace>, x0: int, x1: int, z: int) -> FaceFlags
    decreases x1 - x0,
{
    if x1 <= x0 {
        FACE_NONE
    } else {
        row_faces(culled, x0, x1 - 1, z) | culled[((x1 - 1) as usize, z as usize)].1
    }
}

/// The union of the visible faces of the cells of the rectangle from
/// `(x0, z0)` up to `(x1, z1)`.
pub open spec fn rect_faces(
    culled: Map<CoordinateXZ, BlockFace>,
    x0: int,
    x1: int,
    z0: int,
    z1: int,
) -> FaceFlags
    decreases z1 - z0,
{
    if z1 <= z0 {
        FACE_NONE
    } else {
        rect_faces(culled, x0, x1, z0, z1 - 1) | row_faces(culled, x0, x1, z1 - 1)
    }
}

/// The cells of the rectangle from `(x0, z0)` up to `(x1, z1)`.
pub open spec fn rect_cells(x0: int, x1: int, z0: int, z1: int) -> Set<CoordinateXZ> {
    Set::new(|c: CoordinateXZ| x0 <= c.0 < x1 && z0 <= c.1 < z1)
}

/// The far corner of the quad anchored at the culled cell `(x, z)`: a
/// highlighted or animated cell stays alone; any other cell grows first
/// towards +X, then row by row towards +Z.
pub open spec fn quad_end(
    culled: Map<CoordinateXZ, BlockFace>,
    visited: Set<CoordinateXZ>,
    highlighted: Option<(LocalPoint, Normal)>,
    y: int,
    x: int,
    z: int,
) -> (int, int) {
    let c = (x as usize, z as usize);
    let kind = culled[c].0;
    if is_highlighted(highlighted, x, y, z) || kind.animated() {
        (x + 1, z + 1)
    } else {
        let seen = visited.insert(c);
        let x1 = span_end(culled, seen, highlighted, y, kind, x, z);
        (x1, rows_end(culled, seen, highlighted, y, kind, x, x1, z))
    }
}

/// The global position of the cell `(x, y, z)` of the chunk that starts at
/// `offset`.
pub open spec fn cell_position(offset: GridPoint, x: int, y: int, z: int) -> GridPoint {
    GridPoint { x: (offset.x + x) as i64, y: (offset.y + y) as i64, z: (offset.z + z) as i64 }
}

/// The quad anchored at the culled cell `(x, z)`.
pub open spec fn quad_at(
    culled: Map<CoordinateXZ, BlockFace>,
    visited: Set<CoordinateXZ>,
    highlighted: Option<(LocalPoint, Normal)>,
    y: int,
    offset: GridPoint,
    x: int,
    z: int,
) -> Quad {
    let c = (x as usize, z as usize);
    let (x1, z1) = quad_end(culled, visited, highlighted, y, x, z);
    Quad {
        position: cell_position(offset, x, y, z),
        dx: (x1 - x) as i64,
        dz: (z1 - z) as i64,
        highlighted_normal: if is_highlighted(highlighted, x, y, z) {
            highlighted.unwrap().1
        } else {
            Normal::spec_zero()
        },
        visible_faces: if is_highlighted(highlighted, x, y, z) || culled[c].0.animated() {
            culled[c].1
        } else {
            rect_faces(culled, x, x1, z, z1)
        },
        block_type: Some(culled[c].0),
    }
}

/// The quads that greedy merging makes of the cells of `queue`, taken in
/// order: a cell that already belongs to a quad or was culled out is passed
/// over, any other anchors a new quad, whose cells later cells cannot join.
pub open spec fn merge_quads(
    culled: Map<CoordinateXZ, BlockFace>,
    queue: Seq<CoordinateXZ>,
    visited: Set<CoordinateXZ>,
    highlighted: Option<(LocalPoint, Normal)>,
    y: int,
    offset: GridPoint,
) -> Seq<Quad>
    decreases queue.len(),
{
    if queue.len() == 0 {
        Seq::empty()
    } else {
        let c = queue[0];
        let rest = queue.subrange(1, queue.len() as int);
        if visited.contains(c) {
            merge_quads(culled, rest, visited, highlighted, y, offset)
        } else if !culled.dom().contains(c) {
            merge_quads(culled, rest, visited.insert(c), highlighted, y, offset)
        } else {
            let (x1, z1) = quad_end(culled, visited, highlighted, y, c.0 as int, c.1 as int);
            seq![quad_at(culled, visited, highlighted, y, offset, c.0 as int, c.1 as int)]
                + merge_quads(
                culled,
                rest,
                visited.union(rect_cells(c.0 as int, x1, c.1 as int, z1)),
                highlighted,
                y,
                offset,
            )
        }
    }
}

/// The quads of layer `y` of a grid.
pub open spec fn layer_quads(
    grid: Grid,
    y: int,
    offset: GridPoint,
    highlighted: Option<(LocalPoint, Normal)>,
) -> Seq<Quad> {
    merge_quads(culled_layer(grid, y), culled_queue(grid, y), Set::empty(), highlighted, y, offset)
}

/// Whether a chunk can start at `offset` without any of its cells leaving
/// the range of global coordinates.
pub open spec fn offset_in_range(offset: GridPoint) -> bool {
    &&& offset.x + CHUNK_ISIZE <= i64::MAX
    &&& offset.y + CHUNK_ISIZE <= i64::MAX
    &&& offset.z + CHUNK_ISIZE <= i64::MAX
}

/// Whether every cell of `queue` lies in the layer.
pub open spec fn queue_in_layer(queue: Seq<CoordinateXZ>) -> bool {
    forall|i: int|
        0 <= i < queue.len() ==> (#[trigger] queue[i]).0 < CHUNK_SIZE && queue[i].1 < CHUNK_SIZE
}


/// Whether the highlight lies on the cell `(x, y, z)`.
fn highlight_on(highlighted: Option<(LocalPoint, Normal)>, x: usize, y: usize, z: usize) -> (r:
    bool)
    ensures
        r == is_highlighted(highlighted, x as int, y as int, z as int),
{
    match highlighted {
        None => false,
        Some((cell, _)) => cell.x == x && cell.y == y && cell.z == z,
    }
}

/// The visible faces of the cell `(x, z)` if it may join a quad of kind
/// `kind`, else nothing.
fn joining_faces(
    culled: &FxHashMap<CoordinateXZ, BlockFace>,
    visited: &FxHashSet<CoordinateXZ>,
    highlighted: Option<(LocalPoint, Normal)>,
    y: usize,
    kind: BlockType,
    x: usize,
    z: usize,
) -> (faces: Option<FaceFlags>)
    ensures
        faces is Some <==> joinable(
            culled@,
            visited@,
            highlighted,
            y as int,
            kind,
            x as int,
            z as int,
        ),
        faces is Some ==> faces.unwrap() == culled@[(x, z)].1,
{
    if fx_set_contains(visited, (x, z)) || highlight_on(highlighted, x, y, z) {
        return None;
    }
    match fx_map_get(culled, (x, z)) {
        None => None,
        Some((other, faces)) => if other == kind {
            Some(faces)
        } else {
            None
        },
    }
}

impl Chunk {
    /// Drops the cells of layer `y` that are empty or show no face. Returns
    /// the others, each with its kind and visible faces, and their
    /// coordinates in row-major order.
    pub fn cull_layer(&self, y: usize) -> (culled: (
        FxHashMap<CoordinateXZ, BlockFace>,
        VecDeque<CoordinateXZ>,
    ))
        requires
            self.wf(),
            y < CHUNK_SIZE,
        ensures
            culled.0@ == culled_layer(self@, y as int),
            culled.1@ == culled_queue(self@, y as int),
            queue_in_layer(culled.1@),
    {
        let mut culled: FxHashMap<CoordinateXZ, BlockFace> = fx_map_new();
        let mut queue: VecDeque<CoordinateXZ> = VecDeque::new();
        let mut z: usize = 0;
        assert(culled@ =~= culled_upto(self@, y as int, 0));
        while z < CHUNK_SIZE
            invariant
                self.wf(),
                y < CHUNK_SIZE,
                z <= CHUNK_SIZE,
                culled@ == culled_upto(self@, y as int, z * CHUNK_SIZE),
                queue@ == culled_queue_upto(self@, y as int, z * CHUNK_SIZE),
                queue_in_layer(queue@),
            decreases CHUNK_SIZE - z,
        {
            let mut x: usize = 0;
            while x < CHUNK_SIZE
                invariant
                    self.wf(),
                    y < CHUNK_SIZE,
                    z < CHUNK_SIZE,
                    x <= CHUNK_SIZE,
                    culled@ == culled_upto(self@, y as int, z * CHUNK_SIZE + x),
                    queue@ == culled_queue_upto(self@, y as int, z * CHUNK_SIZE + x),
                    queue_in_layer(queue@),
                decreases CHUNK_SIZE - x,
            {
                let ghost n = z * CHUNK_SIZE + x;
                assert(layer_cell(n) == (x, z));
                match self.get(x, y, z) {
                    None => {},
                    Some(block) => {
                        let faces = self.check_visible_faces(x, y, z);
                        if faces != FACE_NONE {
                            fx_map_insert(&mut culled, (x, z), (block.block_type, faces));
                            queue.push_back((x, z));
                        }
                    },
                }
                assert(culled@ =~= culled_upto(self@, y as int, n + 1)) by {
                    assert forall|c: CoordinateXZ|
                        culled@.dom().contains(c) == culled_upto(
                            self@,
                            y as int,
                            n + 1,
                        ).dom().contains(c) by {
                        if c != (x, z) && c.0 < CHUNK_SIZE && c.1 < CHUNK_SIZE {
                            assert(c.1 * CHUNK_SIZE + c.0 != n);
                        }
                    }
                }
                x = x + 1;
            }
            z = z + 1;
        }
        (culled, queue)
    }
}

/// Only the rows beyond `z` decide where the run of rows ends.
proof fn rows_end_reads_later_rows(
    culled: Map<CoordinateXZ, BlockFace>,
    first: Set<CoordinateXZ>,
    second: Set<CoordinateXZ>,
    highlighted: Option<(LocalPoint, Normal)>,
    y: int,
    kind: BlockType,
    x0: int,
    x1: int,
    z: int,
)
    requires
        0 <= z,
        0 <= x0,
        x1 <= CHUNK_SIZE,
        forall|c: CoordinateXZ| c.1 > z ==> first.contains(c) == second.contains(c),
    ensures
        rows_end(culled, first, highlighted, y, kind, x0, x1, z) == rows_end(
            culled,
            second,
            highlighted,
            y,
            kind,
            x0,
            x1,
            z,
        ),
    decreases CHUNK_SIZE - z,
{
    let next = z + 1;
    if next < CHUNK_SIZE {
        assert forall|x: int| x0 <= x < x1 implies #[trigger] joinable(
            culled,
            first,
            highlighted,
            y,
            kind,
            x,
            next,
        ) == joinable(culled, second, highlighted, y, kind, x, next) by {
            let c = (x as usize, next as usize);
            assert(c.1 > z);
        }
        if row_joinable(culled, first, highlighted, y, kind, x0, x1, next) {
            assert forall|x: int| x0 <= x < x1 implies #[trigger] joinable(
                culled,
                second,
                highlighted,
                y,
                kind,
                x,
                next,
            ) by {
                assert(joinable(culled, first, highlighted, y, kind, x, next));
            }
            rows_end_reads_later_rows(culled, first, second, highlighted, y, kind, x0, x1, next);
        } else {
            let x = choose|x: int|
                x0 <= x < x1 && !joinable(culled, first, highlighted, y, kind, x, next);
            assert(!joinable(culled, second, highlighted, y, kind, x, next));
        }
    }
}

/// Grows the quad anchored at `(x, z)` towards +X as far as cells join,
/// marking each as taken. Returns where the run ends and the union of the
/// faces of the run, the anchor's `faces` included.
fn grow_x(
    culled: &FxHashMap<CoordinateXZ, BlockFace>,
    visited: &mut FxHashSet<CoordinateXZ>,
    highlighted: Option<(LocalPoint, Normal)>,
    y: usize,
    kind: BlockType,
    faces: FaceFlags,
    x: usize,
    z: usize,
) -> (grown: (usize, FaceFlags))
    requires
        x < CHUNK_SIZE,
        z < CHUNK_SIZE,
        faces == culled@[(x, z)].1,
    ensures
        grown.0 == span_end(culled@, old(visited)@, highlighted, y as int, kind, x as int, z as int),
        x < grown.0 <= CHUNK_SIZE,
        grown.1 == row_faces(culled@, x as int, grown.0 as int, z as int),
        final(visited)@ == old(visited)@.union(
            rect_cells(x as int + 1, grown.0 as int, z as int, z as int + 1),
        ),
        forall|i: int|
            x < i < grown.0 ==> #[trigger] joinable(
                culled@,
                old(visited)@,
                highlighted,
                y as int,
                kind,
                i,
                z as int,
            ),
{
    let mut xmax: usize = x + 1;
    let mut row: FaceFlags = faces;
    proof {
        face_none_members(faces, faces);
        assert(row_faces(culled@, x as int, x as int, z as int) == FACE_NONE);
    }
    loop
        invariant
            x < xmax <= CHUNK_SIZE,
            z < CHUNK_SIZE,
            row == row_faces(culled@, x as int, xmax as int, z as int),
            span_end(culled@, old(visited)@, highlighted, y as int, kind, xmax - 1, z as int)
                == span_end(culled@, old(visited)@, highlighted, y as int, kind, x as int, z as int),
            forall|c: CoordinateXZ|
                visited@.contains(c) <==> old(visited)@.contains(c) || (x < c.0 < xmax && c.1 == z),
            forall|i: int|
                x < i < xmax ==> #[trigger] joinable(
                    culled@,
                    old(visited)@,
                    highlighted,
                    y as int,
                    kind,
                    i,
                    z as int,
                ),
        ensures
            xmax == span_end(
                culled@,
                old(visited)@,
                highlighted,
                y as int,
                kind,
                x as int,
                z as int,
            ),
        decreases CHUNK_SIZE - xmax,
    {
        if xmax >= CHUNK_SIZE {
            break ;
        }
        match joining_faces(culled, visited, highlighted, y, kind, xmax, z) {
            None => {
                break ;
            },
            Some(more) => {
                row = row | more;
                fx_set_insert(visited, (xmax, z));
                xmax = xmax + 1;
            },
        }
    }
    assert(visited@ =~= old(visited)@.union(
        rect_cells(x as int + 1, xmax as int, z as int, z as int + 1),
    ));
    (xmax, row)
}

/// Whether every cell of row `z` from `x0` up to `x1` joins; if so, also the
/// union of their faces.
fn row_joining_faces(
    culled: &FxHashMap<CoordinateXZ, BlockFace>,
    visited: &FxHashSet<CoordinateXZ>,
    highlighted: Option<(LocalPoint, Normal)>,
    y: usize,
    kind: BlockType,
    x0: usize,
    x1: usize,
    z: usize,
) -> (faces: Option<FaceFlags>)
    requires
        x0 <= x1 <= CHUNK_SIZE,
    ensures
        faces is Some <==> row_joinable(
            culled@,
            visited@,
            highlighted,
            y as int,
            kind,
            x0 as int,
            x1 as int,
            z as int,
        ),
        faces is Some ==> faces.unwrap() == row_faces(culled@, x0 as int, x1 as int, z as int),
{
    let mut x: usize = x0;
    let mut row: FaceFlags = FACE_NONE;
    while x < x1
        invariant
            x0 <= x <= x1 <= CHUNK_SIZE,
            row == row_faces(culled@, x0 as int, x as int, z as int),
            row_joinable(
                culled@,
                visited@,
                highlighted,
                y as int,
                kind,
                x0 as int,
                x as int,
                z as int,
            ),
        decreases x1 - x,
    {
        match joining_faces(culled, visited, highlighted, y, kind, x, z) {
            None => {
                return None;
            },
            Some(more) => {
                row = row | more;
                x = x + 1;
            },
        }
    }
    Some(row)
}

/// Grows the quad that spans `x0` up to `x1` in row `z` towards +Z, one
/// whole row at a time, marking each joined row as taken. Returns where the
/// run of rows ends and the union of the faces of the rectangle, the first
/// row's `row` included.
fn grow_z(
    culled: &FxHashMap<CoordinateXZ, BlockFace>,
    visited: &mut FxHashSet<CoordinateXZ>,
    highlighted: Option<(LocalPoint, Normal)>,
    y: usize,
    kind: BlockType,
    row: FaceFlags,
    x0: usize,
    x1: usize,
    z: usize,
) -> (grown: (usize, FaceFlags))
    requires
        x0 < x1 <= CHUNK_SIZE,
        z < CHUNK_SIZE,
        row == row_faces(culled@, x0 as int, x1 as int, z as int),
    ensures
        grown.0 == rows_end(
            culled@,
            old(visited)@,
            highlighted,
            y as int,
            kind,
            x0 as int,
            x1 as int,
            z as int,
        ),
        z < grown.0 <= CHUNK_SIZE,
        grown.1 == rect_faces(culled@, x0 as int, x1 as int, z as int, grown.0 as int),
        final(visited)@ == old(visited)@.union(
            rect_cells(x0 as int, x1 as int, z as int + 1, grown.0 as int),
        ),
{
    let mut zmax: usize = z + 1;
    let mut faces: FaceFlags = row;
    proof {
        face_none_members(row, row);
        assert(rect_faces(culled@, x0 as int, x1 as int, z as int, z as int) == FACE_NONE);
    }
    loop
        invariant
            x0 < x1 <= CHUNK_SIZE,
            z < zmax <= CHUNK_SIZE,
            faces == rect_faces(culled@, x0 as int, x1 as int, z as int, zmax as int),
            rows_end(
                culled@,
                old(visited)@,
                highlighted,
                y as int,
                kind,
                x0 as int,
                x1 as int,
                zmax - 1,
            ) == rows_end(
                culled@,
                old(visited)@,
                highlighted,
                y as int,
                kind,
                x0 as int,
                x1 as int,
                z as int,
            ),
            forall|c: CoordinateXZ|
                visited@.contains(c) <==> old(visited)@.contains(c) || (x0 <= c.0 < x1 && z < c.1
                    < zmax),
        ensures
            zmax == rows_end(
                culled@,
                old(visited)@,
                highlighted,
                y as int,
                kind,
                x0 as int,
                x1 as int,
                z as int,
            ),
        decreases CHUNK_SIZE - zmax,
    {
        if zmax >= CHUNK_SIZE {
            break ;
        }
        let joined = row_joining_faces(culled, visited, highlighted, y, kind, x0, x1, zmax);
        proof {
            assert forall|x: int| x0 <= x < x1 implies #[trigger] joinable(
                culled@,
                visited@,
                highlighted,
                y as int,
                kind,
                x,
                zmax as int,
            ) == joinable(culled@, old(visited)@, highlighted, y as int, kind, x, zmax as int) by {
                let c = (x as usize, zmax);
                assert(visited@.contains(c) == old(visited)@.contains(c));
            }
            if joined is Some {
                assert forall|x: int| x0 <= x < x1 implies #[trigger] joinable(
                    culled@,
                    old(visited)@,
                    highlighted,
                    y as int,
                    kind,
                    x,
                    zmax as int,
                ) by {
                    assert(joinable(culled@, visited@, highlighted, y as int, kind, x, zmax as int));
                }
            } else {
                let x = choose|x: int|
                    x0 <= x < x1 && !joinable(
                        culled@,
                        visited@,
                        highlighted,
                        y as int,
                        kind,
                        x,
                        zmax as int,
                    );
                assert(!joinable(
                    culled@,
                    old(visited)@,
                    highlighted,
                    y as int,
                    kind,
                    x,
                    zmax as int,
                ));
            }
        }
        match joined {
            None => {
                break ;
            },
            Some(more) => {
                let ghost marked = visited@;
                let mut x: usize = x0;
                while x < x1
                    invariant
                        x0 <= x <= x1,
                        forall|c: CoordinateXZ|
                            visited@.contains(c) <==> marked.contains(c) || (x0 <= c.0 < x && c.1
                                == zmax),
                    decreases x1 - x,
                {
                    fx_set_insert(visited, (x, zmax));
                    x = x + 1;
                }
                faces = faces | more;
                zmax = zmax + 1;
            },
        }
    }
    assert(visited@ =~= old(visited)@.union(
        rect_cells(x0 as int, x1 as int, z as int + 1, zmax as int),
    ));
    (zmax, faces)
}

impl Chunk {
    /// Merges the culled cells of layer `y` into quads, taking the cells of
    /// `queue` in order and emptying it. The highlighted cell and animated
    /// cells become quads of one cell; any other cell grows into the
    /// largest rectangle of its kind that it can reach, first towards +X,
    /// then towards +Z. A quad carries the union of the visible faces of
    /// its cells.
    pub fn layer_to_quads(
        &self,
        y: usize,
        offset: GridPoint,
        culled: FxHashMap<CoordinateXZ, BlockFace>,
        queue: &mut VecDeque<CoordinateXZ>,
        highlighted: Option<(LocalPoint, Normal)>,
    ) -> (quads: Vec<Quad>)
        requires
            y < CHUNK_SIZE,
            offset_in_range(offset),
            queue_in_layer(old(queue)@),
        ensures
            quads@ == merge_quads(
                culled@,
                old(queue)@,
                Set::empty(),
                highlighted,
                y as int,
                offset,
            ),
            final(queue)@.len() == 0,
    {
        let mut quads: Vec<Quad> = Vec::new();
        let mut visited: FxHashSet<CoordinateXZ> = fx_set_new();
        let ghost whole = merge_quads(
            culled@,
            queue@,
            Set::empty(),
            highlighted,
            y as int,
            offset,
        );
        loop
            invariant
                y < CHUNK_SIZE,
                offset_in_range(offset),
                queue_in_layer(queue@),
                quads@ + merge_quads(culled@, queue@, visited@, highlighted, y as int, offset)
                    == whole,
            ensures
                queue@.len() == 0,
                quads@ == whole,
            decreases queue@.len(),
        {
            let ghost waiting = queue@;
            let ghost seen = visited@;
            let ghost made = quads@;
            let (x, z) = match queue.pop_front() {
                None => {
                    break ;
                },
                Some(c) => c,
            };
            assert(waiting[0] == (x, z));
            assert(queue_in_layer(queue@)) by {
                assert forall|i: int| 0 <= i < queue@.len() implies (#[trigger] queue@[i]).0
                    < CHUNK_SIZE && queue@[i].1 < CHUNK_SIZE by {
                    assert(queue@[i] == waiting[i + 1]);
                }
            }
            if fx_set_contains(&visited, (x, z)) {
                continue ;
            }
            fx_set_insert(&mut visited, (x, z));
            match fx_map_get(&culled, (x, z)) {
                None => {},
                Some((kind, faces)) => {
                    let position = GridPoint {
                        x: offset.x + x as i64,
                        y: offset.y + y as i64,
                        z: offset.z + z as i64,
                    };
                    let quad = if highlight_on(highlighted, x, y, z) {
                        assert(visited@ =~= seen.union(
                            rect_cells(x as int, x as int + 1, z as int, z as int + 1),
                        ));
                        Quad {
                            position,
                            dx: 1,
                            dz: 1,
                            highlighted_normal: highlighted.unwrap().1,
                            visible_faces: faces,
                            block_type: Some(kind),
                        }
                    } else if kind.is_animated() {
                        assert(visited@ =~= seen.union(
                            rect_cells(x as int, x as int + 1, z as int, z as int + 1),
                        ));
                        Quad {
                            position,
                            dx: 1,
                            dz: 1,
                            highlighted_normal: Normal::zero(),
                            visible_faces: faces,
                            block_type: Some(kind),
                        }
                    } else {
                        let ghost anchored = visited@;
                        let (xmax, row) = grow_x(
                            &culled,
                            &mut visited,
                            highlighted,
                            y,
                            kind,
                            faces,
                            x,
                            z,
                        );
                        let ghost spanned = visited@;
                        let (zmax, all) = grow_z(
                            &culled,
                            &mut visited,
                            highlighted,
                            y,
                            kind,
                            row,
                            x,
                            xmax,
                            z,
                        );
                        proof {
                            rows_end_reads_later_rows(
                                culled@,
                                anchored,
                                spanned,
                                highlighted,
                                y as int,
                                kind,
                                x as int,
                                xmax as int,
                                z as int,
                            );
                            assert(visited@ =~= seen.union(
                                rect_cells(x as int, xmax as int, z as int, zmax as int),
                            ));
                        }
                        Quad {
                            position,
                            dx: (xmax - x) as i64,
                            dz: (zmax - z) as i64,
                            highlighted_normal: Normal::zero(),
                            visible_faces: all,
                            block_type: Some(kind),
                        }
                    };
                    assert(quad == quad_at(
                        culled@,
                        seen,
                        highlighted,
                        y as int,
                        offset,
                        x as int,
                        z as int,
                    ));
                    quads.push(quad);
                    assert(quads@ + merge_quads(
                        culled@,
                        queue@,
                        visited@,
                        highlighted,
                        y as int,
                        offset,
                    ) =~= made + (seq![quad] + merge_quads(
                        culled@,
                        queue@,
                        visited@,
                        highlighted,
                        y as int,
                        offset,
                    )));
                },
            }
        }
        quads
    }
}

} // verus!
