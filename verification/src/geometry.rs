//! Render geometry in plain integers: vertices and the indices of a
//! triangle list.

use crate::world::coords::{GridPoint, Normal};
use vstd::prelude::*;

verus! {

/// One corner of a face of a quad.
#[derive(Clone, Copy, Debug, PartialEq, Eq)]
pub struct BlockVertex {
    /// The corner, in global block coordinates.
    pub position: GridPoint,
    /// Where the corner lies in the block's texture, in blocks: a quad of
    /// three cells repeats its texture three times.
    pub texture_coordinates: (i64, i64),
    /// The outward normal of the face.
    pub normal: Normal,
    /// One if the face is the one the player looks at, else zero.
    pub highlighted: i32,
    /// The texture-atlas index of the face.
    pub texture_id: i32,
}

/// A triangle list: each three consecutive indices name a triangle among
/// the vertices.
pub struct Geometry {
    pub vertices: Vec<BlockVertex>,
    pub indices: Vec<u32>,
}

impl Geometry {
    pub fn new() -> (geometry: Geometry)
        ensures
            geometry.vertices@.len() == 0,
            geometry.indices@.len() == 0,
    {
        Geometry { vertices: Vec::new(), indices: Vec::new() }
    }

    /// Moves the vertices and indices of `other` to the end of this
    /// geometry. The indices are taken as they are: `other` must have been
    /// made to start at this geometry's vertex count.
    pub fn append(&mut self, other: &mut Geometry)
        ensures
            final(self).vertices@ == old(self).vertices@ + old(other).vertices@,
            final(self).indices@ == old(self).indices@ + old(other).indices@,
            final(other).vertices@.len() == 0,
            final(other).indices@.len() == 0,
    {
        self.vertices.append(&mut other.vertices);
        self.indices.append(&mut other.indices);
    }

    /// The number of triangles.
    pub fn triangle_count(&self) -> (count: usize)
        ensures
            count == self.indices@.len() / 3,
    {
        self.indices.len() / 3
    }
}

impl Default for Geometry {
    fn default() -> (geometry: Geometry)
        ensures
            geometry.vertices@.len() == 0,
            geometry.indices@.len() == 0,
    {
        Geometry::new()
    }
}

} // verus!
