//! Why the walk follows the ray: each cell it enters, it enters at a point
//! of the ray that lies on the face it shares with the cell it leaves, and
//! between two crossings the ray stays in the cell in which the walk stands.
//! So what a ray cast hits is the first occupied cell along the ray.
//!
//! The point of a ray at the time `t` is its origin plus `t` times its
//! direction. Times are fractions `num / den` here, and positions are
//! counted in parts of a block from the lowest corner of the ray's block.

use crate::world::coords::{GridPoint, Normal};
use crate::world::raycast::{
    can_enter, cast, cursor_after, cursor_start, entry_normal, magnitude, moves_along, neighbour,
    next_axis, sooner, Axis, Ray, RayCursor, SUBDIVISIONS,
};
use crate::world::world::World;
use vstd::prelude::*;

verus! {

/// Whether, along one axis, the point of the ray at the time `num / den`
/// lies in the span of the cell `cell`, borders included.
pub open spec fn within_span(block: int, offset: int, d: int, num: int, den: int, cell: int) -> bool {
    let low = (cell - block) * SUBDIVISIONS;
    den * low <= den * offset + num * d && den * offset + num * d <= den * (low + SUBDIVISIONS)
}

/// Whether the point of the ray at the time `num / den` lies in the cell
/// `cell`, faces included.
pub open spec fn ray_point_in_cell(ray: Ray, num: int, den: int, cell: GridPoint) -> bool {
    &&& within_span(
        ray.block.x as int,
        ray.offset_x as int,
        ray.direction.x as int,
        num,
        den,
        cell.x as int,
    )
    &&& within_span(
        ray.block.y as int,
        ray.offset_y as int,
        ray.direction.y as int,
        num,
        den,
        cell.y as int,
    )
    &&& within_span(
        ray.block.z as int,
        ray.offset_z as int,
        ray.direction.z as int,
        num,
        den,
        cell.z as int,
    )
}

/// Whether, along one axis, `ahead` is the distance from the ray's origin
/// to the border through which the ray leaves the cell `cell`.
pub open spec fn aligned_along(block: int, offset: int, d: int, cell: int, ahead: int) -> bool {
    if d > 0 {
        ahead == (cell - block + 1) * SUBDIVISIONS - offset
    } else if d < 0 {
        ahead == offset - (cell - block) * SUBDIVISIONS
    } else {
        cell == block
    }
}

/// Whether the walk's distances to the next crossings are those of the
/// ray from the cell in which the walk stands.
pub open spec fn aligned(ray: Ray, cursor: RayCursor) -> bool {
    &&& aligned_along(
        ray.block.x as int,
        ray.offset_x as int,
        ray.direction.x as int,
        cursor.cell.x as int,
        cursor.ahead_x as int,
    )
    &&& aligned_along(
        ray.block.y as int,
        ray.offset_y as int,
        ray.direction.y as int,
        cursor.cell.y as int,
        cursor.ahead_y as int,
    )
    &&& aligned_along(
        ray.block.z as int,
        ray.offset_z as int,
        ray.direction.z as int,
        cursor.cell.z as int,
        cursor.ahead_z as int,
    )
}

/// Whether, along one axis, the time `num / den` lies between the crossing
/// into the present cell and the crossing out of it.
pub open spec fn between_crossings(ahead: int, d: int, num: int, den: int) -> bool {
    d == 0 || ((ahead - SUBDIVISIONS) * den <= num * magnitude(d) && num * magnitude(d) <= ahead
        * den)
}

/// Whether, along every axis, the time `num / den` lies between the
/// crossing into the cell in which the walk stands and the crossing out of
/// it.
pub open spec fn timed(cursor: RayCursor, d: Normal, num: int, den: int) -> bool {
    &&& den > 0
    &&& between_crossings(cursor.ahead_x as int, d.x as int, num, den)
    &&& between_crossings(cursor.ahead_y as int, d.y as int, num, den)
    &&& between_crossings(cursor.ahead_z as int, d.z as int, num, den)
}

/// How far ahead the next crossing along `axis` lies.
pub open spec fn ahead_along(cursor: RayCursor, axis: Axis) -> int {
    match axis {
        Axis::X => cursor.ahead_x as int,
        Axis::Y => cursor.ahead_y as int,
        Axis::Z => cursor.ahead_z as int,
    }
}

/// By how much the ray moves along `axis`.
pub open spec fn movement_along(d: Normal, axis: Axis) -> int {
    match axis {
        Axis::X => d.x as int,
        Axis::Y => d.y as int,
        Axis::Z => d.z as int,
    }
}

/// Fractions with positive denominators are ordered transitively.
proof fn fractions_order(p1: int, q1: int, p2: int, q2: int, p3: int, q3: int)
    requires
        q1 > 0,
        q2 > 0,
        q3 > 0,
        p1 * q2 <= p2 * q1,
        p2 * q3 <= p3 * q2,
    ensures
        p1 * q3 <= p3 * q1,
{
    assert((p1 * q2) * q3 <= (p2 * q1) * q3) by (nonlinear_arith)
        requires
            p1 * q2 <= p2 * q1,
            q3 > 0,
    ;
    assert((p2 * q3) * q1 <= (p3 * q2) * q1) by (nonlinear_arith)
        requires
            p2 * q3 <= p3 * q2,
            q1 > 0,
    ;
    assert((p1 * q3) * q2 == (p1 * q2) * q3) by (nonlinear_arith);
    assert((p2 * q1) * q3 == (p2 * q3) * q1) by (nonlinear_arith);
    assert((p3 * q2) * q1 == (p3 * q1) * q2) by (nonlinear_arith);
    assert(p1 * q3 <= p3 * q1) by (nonlinear_arith)
        requires
            (p1 * q3) * q2 <= (p3 * q1) * q2,
            q2 > 0,
    ;
}

/// The same with a strict step in the middle.
proof fn fractions_order_strictly(p1: int, q1: int, p2: int, q2: int, p3: int, q3: int)
    requires
        q1 > 0,
        q2 > 0,
        q3 > 0,
        p1 * q2 < p2 * q1,
        p2 * q3 <= p3 * q2,
    ensures
        p1 * q3 < p3 * q1,
{
    assert((p1 * q2) * q3 < (p2 * q1) * q3) by (nonlinear_arith)
        requires
            p1 * q2 < p2 * q1,
            q3 > 0,
    ;
    assert((p2 * q3) * q1 <= (p3 * q2) * q1) by (nonlinear_arith)
        requires
            p2 * q3 <= p3 * q2,
            q1 > 0,
    ;
    assert((p1 * q3) * q2 == (p1 * q2) * q3) by (nonlinear_arith);
    assert((p2 * q1) * q3 == (p2 * q3) * q1) by (nonlinear_arith);
    assert((p3 * q2) * q1 == (p3 * q1) * q2) by (nonlinear_arith);
    assert(p1 * q3 < p3 * q1) by (nonlinear_arith)
        requires
            (p1 * q3) * q2 < (p3 * q1) * q2,
            q2 > 0,
    ;
}

/// The walk crosses next along an axis on which the ray moves, and along
/// no other axis does the ray cross sooner.
pub proof fn next_axis_is_soonest(cursor: RayCursor, d: Normal, axis: Axis, other: Axis)
    requires
        next_axis(cursor, d) == Some(axis),
        moves_along(d, other),
    ensures
        moves_along(d, axis),
        ahead_along(cursor, axis) * magnitude(movement_along(d, other)) <= ahead_along(
            cursor,
            other,
        ) * magnitude(movement_along(d, axis)),
{
    let (ax, ay, az) = (cursor.ahead_x as int, cursor.ahead_y as int, cursor.ahead_z as int);
    let (mx, my, mz) = (magnitude(d.x as int), magnitude(d.y as int), magnitude(d.z as int));
    match axis {
        Axis::X => {},
        Axis::Y => {
            if other == Axis::X {
                if !sooner(ax, d.x as int, ay, d.y as int) {
                } else {
                    // x before y, y before z, but z strictly before x: impossible.
                    assert(az * mx < ax * mz);
                    fractions_order(ax, mx, ay, my, az, mz);
                }
            }
        },
        Axis::Z => {
            if other == Axis::X {
                if !sooner(ax, d.x as int, az, d.z as int) {
                } else {
                    assert(ay * mx < ax * my);
                    if d.y != 0 {
                        // z strictly before y, y strictly before x.
                        assert(az * my < ay * mz);
                        fractions_order_strictly(az, mz, ay, my, ax, mx);
                    }
                }
            }
        },
    }
}

/// Along one axis, a time between the crossings is a time at which the
/// ray's point lies in the cell's span.
proof fn between_crossings_is_within_span(
    block: int,
    offset: int,
    d: int,
    cell: int,
    ahead: int,
    num: int,
    den: int,
)
    requires
        aligned_along(block, offset, d, cell, ahead),
        between_crossings(ahead, d, num, den),
        den > 0,
        0 <= offset < SUBDIVISIONS,
    ensures
        within_span(block, offset, d, num, den, cell),
{
    let low = (cell - block) * SUBDIVISIONS;
    if d > 0 {
        assert(den * low <= den * offset + num * d && den * offset + num * d <= den * (low
            + 65536)) by (nonlinear_arith)
            requires
                ahead == low + 65536 - offset,
                (ahead - 65536) * den <= num * d,
                num * d <= ahead * den,
        ;
    } else if d < 0 {
        assert(den * low <= den * offset + num * d && den * offset + num * d <= den * (low
            + 65536)) by (nonlinear_arith)
            requires
                ahead == offset - low,
                (ahead - 65536) * den <= num * (-d),
                num * (-d) <= ahead * den,
        ;
    } else {
        assert(den * low <= den * offset + num * d && den * offset + num * d <= den * (low
            + 65536)) by (nonlinear_arith)
            requires
                low == 0,
                d == 0,
                den > 0,
                0 <= offset < 65536,
        ;
    }
}

/// A walk that stands in line with the ray at a time between its crossings
/// stands in the cell that holds the ray's point at that time.
pub proof fn timed_walk_holds_the_point(ray: Ray, cursor: RayCursor, num: int, den: int)
    requires
        aligned(ray, cursor),
        timed(cursor, ray.direction, num, den),
    ensures
        ray_point_in_cell(ray, num, den, cursor.cell),
{
    between_crossings_is_within_span(
        ray.block.x as int,
        ray.offset_x as int,
        ray.direction.x as int,
        cursor.cell.x as int,
        cursor.ahead_x as int,
        num,
        den,
    );
    between_crossings_is_within_span(
        ray.block.y as int,
        ray.offset_y as int,
        ray.direction.y as int,
        cursor.cell.y as int,
        cursor.ahead_y as int,
        num,
        den,
    );
    between_crossings_is_within_span(
        ray.block.z as int,
        ray.offset_z as int,
        ray.direction.z as int,
        cursor.cell.z as int,
        cursor.ahead_z as int,
        num,
        den,
    );
}

/// Whether the walk can take `steps` more steps without its distances
/// ahead leaving the range of their type.
pub open spec fn room_ahead(cursor: RayCursor, steps: nat) -> bool {
    &&& 0 <= cursor.ahead_x && cursor.ahead_x + steps * SUBDIVISIONS <= i64::MAX
    &&& 0 <= cursor.ahead_y && cursor.ahead_y + steps * SUBDIVISIONS <= i64::MAX
    &&& 0 <= cursor.ahead_z && cursor.ahead_z + steps * SUBDIVISIONS <= i64::MAX
}

/// The walk starts in line with the ray, at the time zero, with room for
/// any reach.
pub proof fn walk_starts_on_the_ray(ray: Ray, reach: u32)
    ensures
        aligned(ray, cursor_start(ray)),
        timed(cursor_start(ray), ray.direction, 0, 1),
        room_ahead(cursor_start(ray), reach as nat),
{
    assert(reach * SUBDIVISIONS <= 0x1_0000_0000 * 65536) by (nonlinear_arith)
        requires
            reach <= 0x1_0000_0000,
    ;
}

/// One step of the walk, taken at the time of the crossing: that time is
/// not earlier than the present time, the ray's point at that time lies
/// both in the cell that the walk leaves and in the cell that it enters,
/// and the walk still stands in line with the ray.
pub proof fn step_follows_the_ray(
    ray: Ray,
    cursor: RayCursor,
    axis: Axis,
    num: int,
    den: int,
    steps: nat,
)
    requires
        aligned(ray, cursor),
        timed(cursor, ray.direction, num, den),
        room_ahead(cursor, steps),
        steps > 0,
        next_axis(cursor, ray.direction) == Some(axis),
        can_enter(cursor.cell, ray.direction, axis),
    ensures
        ({
            let next = cursor_after(cursor, ray.direction, axis);
            let at = ahead_along(cursor, axis);
            let speed = magnitude(movement_along(ray.direction, axis));
            &&& speed > 0
            &&& num * speed <= at * den
            &&& aligned(ray, next)
            &&& timed(next, ray.direction, at, speed)
            &&& timed(cursor, ray.direction, at, speed)
            &&& room_ahead(next, (steps - 1) as nat)
            &&& ray_point_in_cell(ray, at, speed, cursor.cell)
            &&& ray_point_in_cell(ray, at, speed, next.cell)
        }),
{
    let d = ray.direction;
    let next = cursor_after(cursor, d, axis);
    let at = ahead_along(cursor, axis);
    let speed = magnitude(movement_along(d, axis));
    next_axis_is_soonest(cursor, d, axis, axis);
    assert(steps * SUBDIVISIONS == (steps - 1) * SUBDIVISIONS + SUBDIVISIONS) by (nonlinear_arith);
    assert(room_ahead(next, (steps - 1) as nat));
    assert(aligned(ray, next));
    // Along the axis of the step, the crossing is the border between the two cells.
    assert(at * speed <= (at + 65536) * speed && (at - 65536) * speed <= at * speed)
        by (nonlinear_arith)
        requires
            speed > 0,
    ;
    // Along every other axis on which the ray moves, the crossing comes no
    // later than that axis's own next crossing, and no earlier than its last.
    assert forall|other: Axis| moves_along(d, other) && other != axis implies between_crossings(
        ahead_along(cursor, other),
        movement_along(d, other),
        at,
        speed,
    ) by {
        let ahead = ahead_along(cursor, other);
        let pace = magnitude(movement_along(d, other));
        next_axis_is_soonest(cursor, d, axis, other);
        assert(between_crossings(ahead, movement_along(d, other), num, den));
        assert(between_crossings(at, movement_along(d, axis), num, den));
        fractions_order(ahead - SUBDIVISIONS, pace, num, den, at, speed);
    }
    assert(num * speed <= at * den) by {
        assert(between_crossings(at, movement_along(d, axis), num, den));
    }
    assert(timed(cursor, d, at, speed)) by {
        match axis {
            Axis::X => {
                assert(moves_along(d, Axis::Y) ==> between_crossings(
                    ahead_along(cursor, Axis::Y),
                    movement_along(d, Axis::Y),
                    at,
                    speed,
                ));
                assert(moves_along(d, Axis::Z) ==> between_crossings(
                    ahead_along(cursor, Axis::Z),
                    movement_along(d, Axis::Z),
                    at,
                    speed,
                ));
            },
            Axis::Y => {
                assert(moves_along(d, Axis::X) ==> between_crossings(
                    ahead_along(cursor, Axis::X),
                    movement_along(d, Axis::X),
                    at,
                    speed,
                ));
                assert(moves_along(d, Axis::Z) ==> between_crossings(
                    ahead_along(cursor, Axis::Z),
                    movement_along(d, Axis::Z),
                    at,
                    speed,
                ));
            },
            Axis::Z => {
                assert(moves_along(d, Axis::X) ==> between_crossings(
                    ahead_along(cursor, Axis::X),
                    movement_along(d, Axis::X),
                    at,
                    speed,
                ));
                assert(moves_along(d, Axis::Y) ==> between_crossings(
                    ahead_along(cursor, Axis::Y),
                    movement_along(d, Axis::Y),
                    at,
                    speed,
                ));
            },
        }
    }
    assert(timed(next, d, at, speed));
    timed_walk_holds_the_point(ray, cursor, at, speed);
    timed_walk_holds_the_point(ray, next, at, speed);
}

/// The time at which the walk enters the cell that it hits, as a fraction;
/// zero if it hits nothing.
pub open spec fn hit_time(world: World, cursor: RayCursor, d: Normal, steps: nat) -> (int, int)
    decreases steps,
{
    if steps == 0 {
        (0, 1)
    } else {
        match next_axis(cursor, d) {
            None => (0, 1),
            Some(axis) => if !can_enter(cursor.cell, d, axis) {
                (0, 1)
            } else {
                let next = cursor_after(cursor, d, axis);
                if world.block_at(next.cell) is Some {
                    (ahead_along(cursor, axis), magnitude(movement_along(d, axis)))
                } else {
                    hit_time(world, next, d, (steps - 1) as nat)
                }
            },
        }
    }
}

/// Where a walk that follows the ray hits a cell, it hits it at a time that
/// is not earlier than the present, and at that time the ray's point lies
/// on the face whose normal is reported: both in the cell that is hit and
/// in the cell against that face.
pub proof fn walk_hits_on_the_ray(
    world: World,
    ray: Ray,
    cursor: RayCursor,
    num: int,
    den: int,
    steps: nat,
)
    requires
        aligned(ray, cursor),
        timed(cursor, ray.direction, num, den),
        room_ahead(cursor, steps),
        cast(world, cursor, ray.direction, steps) is Some,
    ensures
        ({
            let (cell, normal) = cast(world, cursor, ray.direction, steps).unwrap();
            let (at, speed) = hit_time(world, cursor, ray.direction, steps);
            &&& speed > 0
            &&& num * speed <= at * den
            &&& neighbour(cell, normal) is Some
            &&& ray_point_in_cell(ray, at, speed, cell)
            &&& ray_point_in_cell(ray, at, speed, neighbour(cell, normal).unwrap())
        }),
    decreases steps,
{
    let d = ray.direction;
    let axis = next_axis(cursor, d).unwrap();
    let next = cursor_after(cursor, d, axis);
    let at = ahead_along(cursor, axis);
    let speed = magnitude(movement_along(d, axis));
    step_follows_the_ray(ray, cursor, axis, num, den, steps);
    if world.block_at(next.cell) is Some {
        assert(neighbour(next.cell, entry_normal(d, axis)) == Some(cursor.cell));
    } else {
        walk_hits_on_the_ray(world, ray, next, at, speed, (steps - 1) as nat);
        let (later, pace) = hit_time(world, cursor, d, steps);
        fractions_order(num, den, at, speed, later, pace);
    }
}

/// Until a walk that follows the ray hits a cell, the ray passes through no
/// occupied cell but the one in which the walk stands: at every time from
/// the present to the hit, the ray's point lies in that cell or in an empty
/// one.
pub proof fn walk_passes_no_block(
    world: World,
    ray: Ray,
    cursor: RayCursor,
    num: int,
    den: int,
    steps: nat,
    t_num: int,
    t_den: int,
)
    requires
        aligned(ray, cursor),
        timed(cursor, ray.direction, num, den),
        room_ahead(cursor, steps),
        cast(world, cursor, ray.direction, steps) is Some,
        t_den > 0,
        num * t_den <= t_num * den,
        t_num * hit_time(world, cursor, ray.direction, steps).1 <= hit_time(
            world,
            cursor,
            ray.direction,
            steps,
        ).0 * t_den,
    ensures
        exists|cell: GridPoint| #[trigger]
            ray_point_in_cell(ray, t_num, t_den, cell) && (cell == cursor.cell || world.block_at(
                cell,
            ) is None),
    decreases steps,
{
    let d = ray.direction;
    let axis = next_axis(cursor, d).unwrap();
    let next = cursor_after(cursor, d, axis);
    let at = ahead_along(cursor, axis);
    let speed = magnitude(movement_along(d, axis));
    step_follows_the_ray(ray, cursor, axis, num, den, steps);
    if t_num * speed <= at * t_den {
        // Not later than the next crossing: the ray is still in the present cell.
        assert forall|other: Axis| moves_along(d, other) implies between_crossings(
            ahead_along(cursor, other),
            movement_along(d, other),
            t_num,
            t_den,
        ) by {
            let ahead = ahead_along(cursor, other);
            let pace = magnitude(movement_along(d, other));
            next_axis_is_soonest(cursor, d, axis, other);
            assert(between_crossings(ahead, movement_along(d, other), num, den));
            fractions_order(ahead - SUBDIVISIONS, pace, num, den, t_num, t_den);
            fractions_order(t_num, t_den, at, speed, ahead, pace);
        }
        assert(timed(cursor, d, t_num, t_den)) by {
            assert(moves_along(d, Axis::X) ==> between_crossings(
                ahead_along(cursor, Axis::X),
                movement_along(d, Axis::X),
                t_num,
                t_den,
            ));
            assert(moves_along(d, Axis::Y) ==> between_crossings(
                ahead_along(cursor, Axis::Y),
                movement_along(d, Axis::Y),
                t_num,
                t_den,
            ));
            assert(moves_along(d, Axis::Z) ==> between_crossings(
                ahead_along(cursor, Axis::Z),
                movement_along(d, Axis::Z),
                t_num,
                t_den,
            ));
        }
        timed_walk_holds_the_point(ray, cursor, t_num, t_den);
        assert(ray_point_in_cell(ray, t_num, t_den, cursor.cell));
    } else {
        // Later than the next crossing, so that crossing was no hit.
        assert(world.block_at(next.cell) is None);
        walk_passes_no_block(world, ray, next, at, speed, (steps - 1) as nat, t_num, t_den);
        let cell = choose|cell: GridPoint| #[trigger]
            ray_point_in_cell(ray, t_num, t_den, cell) && (cell == next.cell || world.block_at(
                cell,
            ) is None);
        assert(ray_point_in_cell(ray, t_num, t_den, cell));
    }
}

/// What a ray cast hits, the ray hits first. At the time of the hit, which
/// is not negative, the point of the ray lies on the face of the hit cell
/// whose normal is reported: in both the hit cell and the cell against that
/// face. And at every time from zero to the hit, the point of the ray lies
/// in the ray's own block or in an empty cell.
pub proof fn hit_is_the_first_block_on_the_ray(
    world: World,
    ray: Ray,
    reach: u32,
    t_num: int,
    t_den: int,
)
    requires
        cast(world, cursor_start(ray), ray.direction, reach as nat) is Some,
    ensures
        ({
            let (cell, normal) = cast(
                world,
                cursor_start(ray),
                ray.direction,
                reach as nat,
            ).unwrap();
            let (at, speed) = hit_time(world, cursor_start(ray), ray.direction, reach as nat);
            &&& speed > 0
            &&& at >= 0
            &&& neighbour(cell, normal) is Some
            &&& ray_point_in_cell(ray, at, speed, cell)
            &&& ray_point_in_cell(ray, at, speed, neighbour(cell, normal).unwrap())
            &&& t_den > 0 && 0 <= t_num && t_num * speed <= at * t_den ==> exists|
                passed: GridPoint,
            | #[trigger]
                ray_point_in_cell(ray, t_num, t_den, passed) && (passed == ray.block
                    || world.block_at(passed) is None)
        }),
{
    let start = cursor_start(ray);
    let (at, speed) = hit_time(world, start, ray.direction, reach as nat);
    walk_starts_on_the_ray(ray, reach);
    walk_hits_on_the_ray(world, ray, start, 0, 1, reach as nat);
    if t_den > 0 && 0 <= t_num && t_num * speed <= at * t_den {
        walk_passes_no_block(world, ray, start, 0, 1, reach as nat, t_num, t_den);
    }
}

} // verus!
