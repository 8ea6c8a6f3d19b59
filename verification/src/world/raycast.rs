//! Block picking: a ray is walked through the grid cell by cell until it
//! enters an occupied cell or its reach is spent.

use crate::world::block::Block;
use crate::world::coords::{GridPoint, Normal};
use crate::world::world::World;
use vstd::prelude::*;

verus! {

/// The parts into which a block is divided along each axis when a
/// position inside it is given.
pub const SUBDIVISIONS: i64 = 65536;

/// A ray: the block that holds its origin, where in the block the origin
/// lies, counted in `SUBDIVISIONS`-ths of a block from the block's lowest
/// corner, and its direction. Only the ratio of the direction's components
/// counts, not its length.
#[derive(Clone, Copy, Debug, PartialEq, Eq, Structural)]
pub struct Ray {
    pub block: GridPoint,
    pub offset_x: u16,
    pub offset_y: u16,
    pub offset_z: u16,
    pub direction: Normal,
}

/// An axis of the grid.
#[derive(Clone, Copy, Debug, PartialEq, Eq, Structural)]
pub enum Axis {
    X,
    Y,
    Z,
}

/// Where a walk along a ray stands: the cell it is in, and for each axis
/// how far ahead of the origin, in parts of a block along that axis, the
/// ray next crosses into another cell.
#[derive(Clone, Copy, Debug, PartialEq, Eq, Structural)]
pub struct RayCursor {
    pub cell: GridPoint,
    pub ahead_x: i64,
    pub ahead_y: i64,
    pub ahead_z: i64,
}

/// The size of a number.
pub open spec fn magnitude(v: int) -> int {
    if v < 0 {
        -v
    } else {
        v
    }
}

/// Minus one, zero or one, as `v` is negative, zero or positive.
pub open spec fn signum(v: int) -> int {
    if v < 0 {
        -1
    } else if v > 0 {
        1
    } else {
        0
    }
}

/// Whether the ray crosses along the axis `a` no later than along the axis
/// `b`. A crossing that lies `ahead` parts ahead along an axis on which the
/// ray moves by `d` is reached at the time `ahead / |d|`; an axis on which
/// the ray does not move is never crossed.
pub open spec fn sooner(ahead_a: int, d_a: int, ahead_b: int, d_b: int) -> bool {
    d_a != 0 && (d_b == 0 || ahead_a * magnitude(d_b) <= ahead_b * magnitude(d_a))
}

/// The axis along which the ray crosses next: the one whose crossing comes
/// first, the earlier axis where two come together; none if the ray does
/// not move.
pub open spec fn next_axis(cursor: RayCursor, d: Normal) -> Option<Axis> {
    if sooner(cursor.ahead_x as int, d.x as int, cursor.ahead_y as int, d.y as int) && sooner(
        cursor.ahead_x as int,
        d.x as int,
        cursor.ahead_z as int,
        d.z as int,
    ) {
        Some(Axis::X)
    } else if sooner(cursor.ahead_y as int, d.y as int, cursor.ahead_z as int, d.z as int) {
        Some(Axis::Y)
    } else if d.z != 0 {
        Some(Axis::Z)
    } else {
        None
    }
}

/// How far ahead the first crossing along an axis lies: the rest of the
/// block in the direction of travel.
pub open spec fn first_crossing(offset: u16, d: int) -> i64 {
    if d > 0 {
        (SUBDIVISIONS - offset) as i64
    } else {
        offset as i64
    }
}

/// Where the walk along `ray` starts.
pub open spec fn cursor_start(ray: Ray) -> RayCursor {
    RayCursor {
        cell: ray.block,
        ahead_x: first_crossing(ray.offset_x, ray.direction.x as int),
        ahead_y: first_crossing(ray.offset_y, ray.direction.y as int),
        ahead_z: first_crossing(ray.offset_z, ray.direction.z as int),
    }
}

/// The coordinates of the cell that the ray enters when it crosses along
/// `axis`.
pub open spec fn entered_cell(cell: GridPoint, d: Normal, axis: Axis) -> (int, int, int) {
    match axis {
        Axis::X => (cell.x + signum(d.x as int), cell.y as int, cell.z as int),
        Axis::Y => (cell.x as int, cell.y + signum(d.y as int), cell.z as int),
        Axis::Z => (cell.x as int, cell.y as int, cell.z + signum(d.z as int)),
    }
}

/// Whether the cell that the ray enters along `axis` is a cell of the grid.
pub open spec fn can_enter(cell: GridPoint, d: Normal, axis: Axis) -> bool {
    let (x, y, z) = entered_cell(cell, d, axis);
    i64::MIN <= x <= i64::MAX && i64::MIN <= y <= i64::MAX && i64::MIN <= z <= i64::MAX
}

/// The walk after the ray has crossed along `axis`.
pub open spec fn cursor_after(cursor: RayCursor, d: Normal, axis: Axis) -> RayCursor {
    let (x, y, z) = entered_cell(cursor.cell, d, axis);
    let cell = GridPoint { x: x as i64, y: y as i64, z: z as i64 };
    match axis {
        Axis::X => RayCursor { cell, ahead_x: (cursor.ahead_x + SUBDIVISIONS) as i64, ..cursor },
        Axis::Y => RayCursor { cell, ahead_y: (cursor.ahead_y + SUBDIVISIONS) as i64, ..cursor },
        Axis::Z => RayCursor { cell, ahead_z: (cursor.ahead_z + SUBDIVISIONS) as i64, ..cursor },
    }
}

/// The outward normal of the face through which a ray of direction `d`
/// enters a cell when it crosses along `axis`: it points back against the
/// ray.
pub open spec fn entry_normal(d: Normal, axis: Axis) -> Normal {
    match axis {
        Axis::X => Normal { x: (-signum(d.x as int)) as i32, y: 0, z: 0 },
        Axis::Y => Normal { x: 0, y: (-signum(d.y as int)) as i32, z: 0 },
        Axis::Z => Normal { x: 0, y: 0, z: (-signum(d.z as int)) as i32 },
    }
}

/// The first occupied cell among the next `steps` cells that the walk
/// enters, with the normal of the face through which the ray enters it.
/// None if the ray does not move, would leave the grid, or enters no
/// occupied cell within `steps` cells. The cell in which the walk stands is
/// not looked at.
pub open spec fn cast(world: World, cursor: RayCursor, d: Normal, steps: nat) -> Option<
    (GridPoint, Normal),
>
    decreases steps,
{
    if steps == 0 {
        None
    } else {
        match next_axis(cursor, d) {
            None => None,
            Some(axis) => if !can_enter(cursor.cell, d, axis) {
                None
            } else {
                let next = cursor_after(cursor, d, axis);
                if world.block_at(next.cell) is Some {
                    Some((next.cell, entry_normal(d, axis)))
                } else {
                    cast(world, next, d, (steps - 1) as nat)
                }
            },
        }
    }
}

/// The number of cell borders between two cells, counted along the axes.
pub open spec fn grid_distance(a: GridPoint, b: GridPoint) -> int {
    magnitude(a.x - b.x) + magnitude(a.y - b.y) + magnitude(a.z - b.z)
}

/// A ray that finds no occupied cell within its reach hits nothing.
pub proof fn cast_misses_in_empty_space(world: World, cursor: RayCursor, d: Normal, steps: nat)
    requires
        forall|p: GridPoint|
            grid_distance(p, cursor.cell) <= steps ==> (#[trigger] world.block_at(p)) is None,
    ensures
        cast(world, cursor, d, steps) is None,
    decreases steps,
{
    if steps > 0 {
        match next_axis(cursor, d) {
            None => {},
            Some(axis) => {
                if can_enter(cursor.cell, d, axis) {
                    let next = cursor_after(cursor, d, axis);
                    assert(grid_distance(next.cell, cursor.cell) <= 1);
                    assert(world.block_at(next.cell) is None);
                    assert forall|p: GridPoint|
                        grid_distance(p, next.cell) <= steps - 1 implies (#[trigger] world.block_at(
                        p,
                    )) is None by {
                        assert(grid_distance(p, cursor.cell) <= steps);
                    }
                    cast_misses_in_empty_space(world, next, d, (steps - 1) as nat);
                }
            },
        }
    }
}

/// Whether a ray of direction `d` moves along `axis`.
pub open spec fn moves_along(d: Normal, axis: Axis) -> bool {
    match axis {
        Axis::X => d.x != 0,
        Axis::Y => d.y != 0,
        Axis::Z => d.z != 0,
    }
}

/// Whether a step of `delta` along an axis goes with a ray that moves by
/// `d` along it, and not against it.
pub open spec fn along(delta: int, d: int) -> bool {
    if d > 0 {
        delta >= 0
    } else if d < 0 {
        delta <= 0
    } else {
        delta == 0
    }
}

/// Whether `target` lies ahead of `cell` for a ray of direction `d`: along
/// no axis does it lie against the direction of travel.
pub open spec fn ahead_of(cell: GridPoint, d: Normal, target: GridPoint) -> bool {
    &&& along(target.x - cell.x, d.x as int)
    &&& along(target.y - cell.y, d.y as int)
    &&& along(target.z - cell.z, d.z as int)
}

/// The block that stands against the face of `position` whose outward
/// normal is `normal`, if it is a block of the grid.
pub open spec fn neighbour(position: GridPoint, normal: Normal) -> Option<GridPoint> {
    if i64::MIN <= position.x + normal.x <= i64::MAX && i64::MIN <= position.y + normal.y
        <= i64::MAX && i64::MIN <= position.z + normal.z <= i64::MAX {
        Some(
            GridPoint {
                x: (position.x + normal.x) as i64,
                y: (position.y + normal.y) as i64,
                z: (position.z + normal.z) as i64,
            },
        )
    } else {
        None
    }
}

/// What a ray hits is an occupied cell that lies ahead of it and within its
/// reach, and the normal it reports is the entry normal of an axis along
/// which the ray moves: a unit vector that points back against the ray. It
/// leads to the cell from which the ray came, which is the ray's own block
/// or an empty cell.
pub proof fn cast_hits_an_occupied_cell(world: World, cursor: RayCursor, d: Normal, steps: nat)
    requires
        cast(world, cursor, d, steps) is Some,
    ensures
        ({
            let (cell, normal) = cast(world, cursor, d, steps).unwrap();
            &&& world.block_at(cell) is Some
            &&& ahead_of(cursor.cell, d, cell)
            &&& 1 <= grid_distance(cell, cursor.cell) <= steps
            &&& exists|axis: Axis| #[trigger] moves_along(d, axis) && normal == entry_normal(d, axis)
            &&& neighbour(cell, normal) matches Some(back) && (back == cursor.cell
                || world.block_at(back) is None)
        }),
    decreases steps,
{
    let axis = next_axis(cursor, d).unwrap();
    let next = cursor_after(cursor, d, axis);
    assert(moves_along(d, axis));
    if world.block_at(next.cell) is Some {
        assert(neighbour(next.cell, entry_normal(d, axis)) == Some(cursor.cell));
    } else {
        cast_hits_an_occupied_cell(world, next, d, (steps - 1) as nat);
    }
}


fn size_of(v: i32) -> (r: i128)
    ensures
        r == magnitude(v as int),
        0 <= r <= 0x8000_0000,
{
    if v < 0 {
        -(v as i128)
    } else {
        v as i128
    }
}

fn crosses_sooner(ahead_a: i64, d_a: i32, ahead_b: i64, d_b: i32) -> (r: bool)
    requires
        0 <= ahead_a,
        0 <= ahead_b,
    ensures
        r == sooner(ahead_a as int, d_a as int, ahead_b as int, d_b as int),
{
    if d_a == 0 {
        return false;
    }
    if d_b == 0 {
        return true;
    }
    let size_a = size_of(d_a);
    let size_b = size_of(d_b);
    assert(ahead_a * size_b <= 0x7fff_ffff_ffff_ffff * 0x8000_0000) by (nonlinear_arith)
        requires
            0 <= ahead_a <= 0x7fff_ffff_ffff_ffff,
            0 <= size_b <= 0x8000_0000,
    ;
    assert(ahead_b * size_a <= 0x7fff_ffff_ffff_ffff * 0x8000_0000) by (nonlinear_arith)
        requires
            0 <= ahead_b <= 0x7fff_ffff_ffff_ffff,
            0 <= size_a <= 0x8000_0000,
    ;
    assert(0 <= ahead_a * size_b) by (nonlinear_arith)
        requires
            0 <= ahead_a,
            0 <= size_b,
    ;
    assert(0 <= ahead_b * size_a) by (nonlinear_arith)
        requires
            0 <= ahead_b,
            0 <= size_a,
    ;
    (ahead_a as i128) * size_b <= (ahead_b as i128) * size_a
}

fn pick_axis(cursor: &RayCursor, d: Normal) -> (axis: Option<Axis>)
    requires
        0 <= cursor.ahead_x,
        0 <= cursor.ahead_y,
        0 <= cursor.ahead_z,
    ensures
        axis == next_axis(*cursor, d),
{
    if crosses_sooner(cursor.ahead_x, d.x, cursor.ahead_y, d.y) && crosses_sooner(
        cursor.ahead_x,
        d.x,
        cursor.ahead_z,
        d.z,
    ) {
        Some(Axis::X)
    } else if crosses_sooner(cursor.ahead_y, d.y, cursor.ahead_z, d.z) {
        Some(Axis::Y)
    } else if d.z != 0 {
        Some(Axis::Z)
    } else {
        None
    }
}

/// The coordinate one cell further in the direction of `d`, if it is a
/// coordinate of the grid.
fn step_along(v: i64, d: i32) -> (r: Option<i64>)
    ensures
        r is Some <==> i64::MIN <= v + signum(d as int) <= i64::MAX,
        r is Some ==> r.unwrap() == v + signum(d as int),
{
    if d > 0 {
        if v == i64::MAX {
            None
        } else {
            Some(v + 1)
        }
    } else if d < 0 {
        if v == i64::MIN {
            None
        } else {
            Some(v - 1)
        }
    } else {
        Some(v)
    }
}

fn against(d: i32) -> (r: i32)
    ensures
        r == -signum(d as int),
{
    if d > 0 {
        -1
    } else if d < 0 {
        1
    } else {
        0
    }
}

fn first_ahead(offset: u16, d: i32) -> (r: i64)
    ensures
        r == first_crossing(offset, d as int),
        0 <= r <= SUBDIVISIONS,
{
    if d > 0 {
        SUBDIVISIONS - offset as i64
    } else {
        offset as i64
    }
}

impl World {
    /// Walks along `ray` through the grid and returns the first occupied
    /// cell that the ray enters, with the outward normal of the face
    /// through which it enters. At most `reach` cells are entered, so a hit
    /// lies at most `reach` cell borders from the ray's own block, which is
    /// itself not looked at. None if nothing is hit.
    pub fn raycast(&self, ray: &Ray, reach: u32) -> (hit: Option<(GridPoint, Normal)>)
        requires
            self.wf(),
        ensures
            hit == cast(*self, cursor_start(*ray), ray.direction, reach as nat),
    {
        let d = ray.direction;
        let mut cursor = RayCursor {
            cell: ray.block,
            ahead_x: first_ahead(ray.offset_x, d.x),
            ahead_y: first_ahead(ray.offset_y, d.y),
            ahead_z: first_ahead(ray.offset_z, d.z),
        };
        let mut done: u32 = 0;
        while done < reach
            invariant
                self.wf(),
                d == ray.direction,
                done <= reach,
                0 <= cursor.ahead_x <= SUBDIVISIONS * (done + 1),
                0 <= cursor.ahead_y <= SUBDIVISIONS * (done + 1),
                0 <= cursor.ahead_z <= SUBDIVISIONS * (done + 1),
                cast(*self, cursor, d, (reach - done) as nat) == cast(
                    *self,
                    cursor_start(*ray),
                    d,
                    reach as nat,
                ),
            decreases reach - done,
        {
            let axis = match pick_axis(&cursor, d) {
                None => {
                    return None;
                },
                Some(axis) => axis,
            };
            let (entered, normal) = match axis {
                Axis::X => (
                    match step_along(cursor.cell.x, d.x) {
                        None => None,
                        Some(x) => Some(GridPoint { x, y: cursor.cell.y, z: cursor.cell.z }),
                    },
                    Normal { x: against(d.x), y: 0, z: 0 },
                ),
                Axis::Y => (
                    match step_along(cursor.cell.y, d.y) {
                        None => None,
                        Some(y) => Some(GridPoint { x: cursor.cell.x, y, z: cursor.cell.z }),
                    },
                    Normal { x: 0, y: against(d.y), z: 0 },
                ),
                Axis::Z => (
                    match step_along(cursor.cell.z, d.z) {
                        None => None,
                        Some(z) => Some(GridPoint { x: cursor.cell.x, y: cursor.cell.y, z }),
                    },
                    Normal { x: 0, y: 0, z: against(d.z) },
                ),
            };
            let cell = match entered {
                None => {
                    return None;
                },
                Some(cell) => cell,
            };
            let next = match axis {
                Axis::X => RayCursor {
                    cell,
                    ahead_x: cursor.ahead_x + SUBDIVISIONS,
                    ahead_y: cursor.ahead_y,
                    ahead_z: cursor.ahead_z,
                },
                Axis::Y => RayCursor {
                    cell,
                    ahead_x: cursor.ahead_x,
                    ahead_y: cursor.ahead_y + SUBDIVISIONS,
                    ahead_z: cursor.ahead_z,
                },
                Axis::Z => RayCursor {
                    cell,
                    ahead_x: cursor.ahead_x,
                    ahead_y: cursor.ahead_y,
                    ahead_z: cursor.ahead_z + SUBDIVISIONS,
                },
            };
            assert(next == cursor_after(cursor, d, axis));
            assert(normal == entry_normal(d, axis));
            if self.get_block(cell).is_some() {
                return Some((cell, normal));
            }
            cursor = next;
            done = done + 1;
        }
        None
    }
}

} // verus!
