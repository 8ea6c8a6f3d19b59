//! Integer coordinates: global grid points, cell positions inside a chunk,
//! and face normals.

use vstd::prelude::*;

verus! {

/// A point of an integer grid: a block in world coordinates, or a chunk in
/// chunk coordinates.
#[derive(Clone, Copy, Debug, PartialEq, Eq, Hash, Structural)]
pub struct GridPoint {
    pub x: i64,
    pub y: i64,
    pub z: i64,
}

/// A cell of a chunk, counted from the chunk's lowest corner.
#[derive(Clone, Copy, Debug, PartialEq, Eq, Hash, Structural)]
pub struct LocalPoint {
    pub x: usize,
    pub y: usize,
    pub z: usize,
}

/// A direction with integer components, used for face normals.
#[derive(Clone, Copy, Debug, PartialEq, Eq, Hash, Structural)]
pub struct Normal {
    pub x: i32,
    pub y: i32,
    pub z: i32,
}

impl GridPoint {
    pub fn new(x: i64, y: i64, z: i64) -> (p: GridPoint)
        ensures
            p.x == x,
            p.y == y,
            p.z == z,
    {
        GridPoint { x, y, z }
    }

    /// The point as the key under which hash collections hold it.
    pub open spec fn key(self) -> (i64, i64, i64) {
        (self.x, self.y, self.z)
    }
}

impl LocalPoint {
    pub fn new(x: usize, y: usize, z: usize) -> (p: LocalPoint)
        ensures
            p.x == x,
            p.y == y,
            p.z == z,
    {
        LocalPoint { x, y, z }
    }
}

impl Normal {
    pub fn new(x: i32, y: i32, z: i32) -> (n: Normal)
        ensures
            n.x == x,
            n.y == y,
            n.z == z,
    {
        Normal { x, y, z }
    }

    /// The zero vector, carried by quads that are not highlighted.
    pub open spec fn spec_zero() -> Normal {
        Normal { x: 0, y: 0, z: 0 }
    }

    pub fn zero() -> (n: Normal)
        ensures
            n == Normal::spec_zero(),
    {
        Normal { x: 0, y: 0, z: 0 }
    }
}

} // verus!
