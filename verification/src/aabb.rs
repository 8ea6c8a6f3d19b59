//! Axis-aligned boxes with integer corners, and the test that decides
//! which chunks are worth drawing.

use crate::world::chunk::{Chunk, CHUNK_ISIZE};
use crate::world::coords::GridPoint;
use vstd::prelude::*;

verus! {

/// A box from `min` to `max`, both corners included.
#[derive(Clone, Copy, Debug, PartialEq, Eq, Structural)]
pub struct Aabb {
    pub min: GridPoint,
    pub max: GridPoint,
}

/// Whether the span from `min` to `max` meets the span from `other_min` to
/// `other_max`, ends included.
pub open spec fn spans_meet(min: int, max: int, other_min: int, other_max: int) -> bool {
    min <= other_max && max >= other_min
}

/// Whether the box of a chunk whose lowest corner is `(x, y, z)` meets
/// `view`.
pub open spec fn chunk_box_meets(x: int, y: int, z: int, view: Aabb) -> bool {
    &&& spans_meet(x, x + CHUNK_ISIZE, view.min.x as int, view.max.x as int)
    &&& spans_meet(y, y + CHUNK_ISIZE, view.min.y as int, view.max.y as int)
    &&& spans_meet(z, z + CHUNK_ISIZE, view.min.z as int, view.max.z as int)
}

/// Whether a point lies within `limit` of another, measured in the
/// horizontal plane.
pub open spec fn flat_distance_within(
    position: GridPoint,
    camera: GridPoint,
    limit: u32,
) -> bool {
    (position.x - camera.x) * (position.x - camera.x) + (position.z - camera.z) * (position.z
        - camera.z) <= limit * limit
}

/// What is to be done with a chunk when a frame is drawn.
#[derive(Clone, Copy, Debug, PartialEq, Eq, Structural)]
pub enum RenderAction {
    /// The chunk lies outside the view: nothing is drawn.
    Culled,
    /// The chunk was never meshed: nothing is drawn, and it is worth a note.
    NotLoaded,
    /// The chunk's geometry is drawn.
    Draw { index_count: usize },
}

impl Aabb {
    /// Whether the two boxes share a point.
    pub open spec fn meets(self, other: Aabb) -> bool {
        &&& spans_meet(self.min.x as int, self.max.x as int, other.min.x as int, other.max.x as int)
        &&& spans_meet(self.min.y as int, self.max.y as int, other.min.y as int, other.max.y as int)
        &&& spans_meet(self.min.z as int, self.max.z as int, other.min.z as int, other.max.z as int)
    }

    pub fn intersects(&self, other: &Aabb) -> (r: bool)
        ensures
            r == self.meets(*other),
    {
        self.min.x <= other.max.x && self.max.x >= other.min.x && self.min.y <= other.max.y
            && self.max.y >= other.min.y && self.min.z <= other.max.z && self.max.z
            >= other.min.z
    }

    /// Boxes meet each other or not at all.
    pub proof fn meets_is_symmetric(self, other: Aabb)
        ensures
            self.meets(other) == other.meets(self),
    {
    }
}

impl RenderAction {
    /// The number of triangles that the action draws.
    pub fn triangle_count(&self) -> (count: usize)
        ensures
            count == (match *self {
                RenderAction::Draw { index_count } => index_count / 3,
                _ => 0,
            }),
    {
        match *self {
            RenderAction::Draw { index_count } => index_count / 3,
            _ => 0,
        }
    }
}

fn span_meets(low: i128, other_min: i64, other_max: i64) -> (r: bool)
    requires
        -0x1000_0000_0000_0000_0000 <= low <= 0x1000_0000_0000_0000_0000,
    ensures
        r == spans_meet(low as int, low + CHUNK_ISIZE, other_min as int, other_max as int),
{
    low <= other_max as i128 && low + 32 >= other_min as i128
}

impl Chunk {
    /// Whether the box of this chunk, whose lowest corner is the global
    /// block coordinate `position`, meets the box of the view.
    pub fn is_visible(&self, position: GridPoint, view: &Aabb) -> (r: bool)
        ensures
            r == chunk_box_meets(position.x as int, position.y as int, position.z as int, *view),
    {
        span_meets(position.x as i128, view.min.x, view.max.x) && span_meets(
            position.y as i128,
            view.min.y,
            view.max.y,
        ) && span_meets(position.z as i128, view.min.z, view.max.z)
    }

    /// Whether the point `position` lies within `limit` blocks of the
    /// camera, measured in the horizontal plane: the cheap test that comes
    /// before the test against the view.
    pub fn in_draw_distance(position: GridPoint, camera: GridPoint, limit: u32) -> (r: bool)
        ensures
            r == flat_distance_within(position, camera, limit),
    {
        let dx: i128 = position.x as i128 - camera.x as i128;
        let dz: i128 = position.z as i128 - camera.z as i128;
        let reach: i128 = limit as i128;
        proof {
            let l = limit as int;
            assert(l * l >= 0) by (nonlinear_arith);
            assert(dx * dx >= 0) by (nonlinear_arith);
            assert(dz * dz >= 0) by (nonlinear_arith);
            assert(dx > l || dx < -l ==> dx * dx > l * l) by (nonlinear_arith)
                requires
                    l >= 0,
            ;
            assert(dz > l || dz < -l ==> dz * dz > l * l) by (nonlinear_arith)
                requires
                    l >= 0,
            ;
            assert(-l <= dx <= l ==> dx * dx <= l * l) by (nonlinear_arith)
                requires
                    l >= 0,
            ;
            assert(-l <= dz <= l ==> dz * dz <= l * l) by (nonlinear_arith)
                requires
                    l >= 0,
            ;
            assert(l * l <= 0x1_0000_0000 * 0x1_0000_0000) by (nonlinear_arith)
                requires
                    0 <= l <= 0x1_0000_0000,
            ;
        }
        if dx > reach || dx < -reach || dz > reach || dz < -reach {
            return false;
        }
        dx * dx + dz * dz <= reach * reach
    }

    /// Decides what to do with the chunk at the chunk coordinate
    /// `position` when a frame is drawn: nothing if its box misses the
    /// view or if it was never meshed, else its geometry is drawn.
    pub fn render(&self, position: &GridPoint, view: &Aabb) -> (action: RenderAction)
        ensures
            action == (if !chunk_box_meets(
                position.x * CHUNK_ISIZE,
                position.y * CHUNK_ISIZE,
                position.z * CHUNK_ISIZE,
                *view,
            ) {
                RenderAction::Culled
            } else {
                match self.geometry {
                    None => RenderAction::NotLoaded,
                    Some(geometry) => RenderAction::Draw { index_count: geometry.indices@.len() as usize },
                }
            }),
    {
        let visible = span_meets((position.x as i128) * 32, view.min.x, view.max.x) && span_meets(
            (position.y as i128) * 32,
            view.min.y,
            view.max.y,
        ) && span_meets((position.z as i128) * 32, view.min.z, view.max.z);
        if !visible {
            RenderAction::Culled
        } else {
            match &self.geometry {
                None => RenderAction::NotLoaded,
                Some(geometry) => RenderAction::Draw { index_count: geometry.indices.len() },
            }
        }
    }
}

} // verus!
