//! A quad: a rectangle of merged cells in one layer of a chunk.

use crate::geometry::{BlockVertex, Geometry};
use crate::world::block::BlockType;
use crate::world::coords::{GridPoint, Normal};
use crate::world::face_flags::{
    has_face, FaceFlags, FACE_ALL, FACE_BACK, FACE_BOTTOM, FACE_FRONT, FACE_LEFT, FACE_RIGHT,
    FACE_TOP,
};
use vstd::prelude::*;

verus! {

/// A rectangle of `dx` by `dz` cells of one kind, one cell high, anchored at
/// the global block coordinate `position` and stretching towards +X and +Z.
#[derive(Clone, Copy, Debug, PartialEq, Eq, Structural)]
pub struct Quad {
    pub position: GridPoint,
    pub dx: i64,
    pub dz: i64,
    /// The normal of the face the player looks at, if this quad is the
    /// highlighted block; zero otherwise.
    pub highlighted_normal: Normal,
    pub visible_faces: FaceFlags,
    pub block_type: Option<BlockType>,
}


/// The outward normal of a single face.
pub open spec fn face_normal(face: FaceFlags) -> Normal {
    if face == FACE_LEFT {
        Normal { x: -1i32, y: 0, z: 0 }
    } else if face == FACE_RIGHT {
        Normal { x: 1, y: 0, z: 0 }
    } else if face == FACE_BOTTOM {
        Normal { x: 0, y: -1i32, z: 0 }
    } else if face == FACE_TOP {
        Normal { x: 0, y: 1, z: 0 }
    } else if face == FACE_BACK {
        Normal { x: 0, y: 0, z: -1i32 }
    } else {
        Normal { x: 0, y: 0, z: 1 }
    }
}

/// The texture-atlas index of a face of a block of kind `kind`; zero for a
/// quad of no kind.
pub open spec fn face_texture(kind: Option<BlockType>, face: FaceFlags) -> i32 {
    match kind {
        None => 0,
        Some(kind) => {
            let t = kind.spec_texture_indices();
            if face == FACE_LEFT {
                t.0
            } else if face == FACE_RIGHT {
                t.1
            } else if face == FACE_BOTTOM {
                t.2
            } else if face == FACE_TOP {
                t.3
            } else if face == FACE_BACK {
                t.4
            } else {
                t.5
            }
        },
    }
}

/// Which corner of the box the `k`-th vertex of a face is: for each axis,
/// whether it lies on the far side. The four corners of a face run
/// counter-clockwise when seen from outside.
pub open spec fn face_corner(face: FaceFlags, k: int) -> (bool, bool, bool) {
    if face == FACE_LEFT {
        (false, k == 2 || k == 3, k == 1 || k == 2)
    } else if face == FACE_RIGHT {
        (true, k == 2 || k == 3, k == 0 || k == 3)
    } else if face == FACE_BOTTOM {
        (k == 1 || k == 2, false, k == 2 || k == 3)
    } else if face == FACE_TOP {
        (k == 1 || k == 2, true, k == 0 || k == 1)
    } else if face == FACE_BACK {
        (k == 0 || k == 3, k == 2 || k == 3, false)
    } else {
        (k == 1 || k == 2, k == 2 || k == 3, true)
    }
}

/// The width and height of a face of the quad, in blocks.
pub open spec fn face_extent(quad: Quad, face: FaceFlags) -> (int, int) {
    if face == FACE_LEFT || face == FACE_RIGHT {
        (quad.dz as int, 1)
    } else if face == FACE_BOTTOM || face == FACE_TOP {
        (quad.dx as int, quad.dz as int)
    } else {
        (quad.dx as int, 1)
    }
}

/// The `k`-th vertex of a face of the quad.
pub open spec fn face_vertex(quad: Quad, face: FaceFlags, k: int) -> BlockVertex {
    let (far_x, far_y, far_z) = face_corner(face, k);
    let (w, h) = face_extent(quad, face);
    BlockVertex {
        position: GridPoint {
            x: (quad.position.x + if far_x {
                quad.dx as int
            } else {
                0
            }) as i64,
            y: (quad.position.y + if far_y {
                1int
            } else {
                0
            }) as i64,
            z: (quad.position.z + if far_z {
                quad.dz as int
            } else {
                0
            }) as i64,
        },
        texture_coordinates: (
            (if k == 1 || k == 2 {
                w
            } else {
                0
            }) as i64,
            (if k == 0 || k == 1 {
                h
            } else {
                0
            }) as i64,
        ),
        normal: face_normal(face),
        highlighted: if quad.highlighted_normal == face_normal(face) {
            1
        } else {
            0
        },
        texture_id: face_texture(quad.block_type, face),
    }
}

/// The four vertices of a face of the quad, if the quad shows the face.
pub open spec fn face_vertices(quad: Quad, face: FaceFlags) -> Seq<BlockVertex> {
    if has_face(quad.visible_faces, face) {
        seq![
            face_vertex(quad, face, 0),
            face_vertex(quad, face, 1),
            face_vertex(quad, face, 2),
            face_vertex(quad, face, 3),
        ]
    } else {
        Seq::empty()
    }
}

/// The two triangles of a face whose first vertex has the index `base`, if
/// the quad shows the face.
pub open spec fn face_indices(quad: Quad, face: FaceFlags, base: int) -> Seq<u32> {
    if has_face(quad.visible_faces, face) {
        seq![
            base as u32,
            (base + 1) as u32,
            (base + 2) as u32,
            base as u32,
            (base + 2) as u32,
            (base + 3) as u32,
        ]
    } else {
        Seq::empty()
    }
}

/// The single face that stands at place `i` of the order left, right,
/// bottom, top, back, front.
pub open spec fn nth_face(i: int) -> FaceFlags {
    if i == 0 {
        FACE_LEFT
    } else if i == 1 {
        FACE_RIGHT
    } else if i == 2 {
        FACE_BOTTOM
    } else if i == 3 {
        FACE_TOP
    } else if i == 4 {
        FACE_BACK
    } else {
        FACE_FRONT
    }
}

/// The vertices of the first `n` faces of the quad that it shows.
pub open spec fn quad_vertices_upto(quad: Quad, n: int) -> Seq<BlockVertex>
    decreases n,
{
    if n <= 0 {
        Seq::empty()
    } else {
        quad_vertices_upto(quad, n - 1) + face_vertices(quad, nth_face(n - 1))
    }
}

/// The indices of the first `n` faces of the quad that it shows, when the
/// quad's first vertex has the index `start`.
pub open spec fn quad_indices_upto(quad: Quad, start: int, n: int) -> Seq<u32>
    decreases n,
{
    if n <= 0 {
        Seq::empty()
    } else {
        quad_indices_upto(quad, start, n - 1) + face_indices(
            quad,
            nth_face(n - 1),
            start + quad_vertices_upto(quad, n - 1).len(),
        )
    }
}

/// The vertices of the quad: four for each face it shows.
pub open spec fn quad_vertices(quad: Quad) -> Seq<BlockVertex> {
    quad_vertices_upto(quad, 6)
}

/// The indices of the quad: two triangles for each face it shows.
pub open spec fn quad_indices(quad: Quad, start: int) -> Seq<u32> {
    quad_indices_upto(quad, start, 6)
}

/// A quad shows at most six faces: twenty-four vertices, thirty-six
/// indices, and six indices for every four vertices.
pub proof fn quad_geometry_size(quad: Quad, start: int, n: int)
    requires
        0 <= n <= 6,
    ensures
        quad_vertices_upto(quad, n).len() <= 4 * n,
        quad_vertices_upto(quad, n).len() % 4 == 0,
        quad_indices_upto(quad, start, n).len() * 4 == quad_vertices_upto(quad, n).len() * 6,
    decreases n,
{
    if n > 0 {
        quad_geometry_size(quad, start, n - 1);
    }
}

/// Every index of a quad names one of the quad's own vertices.
pub proof fn quad_indices_name_its_vertices(quad: Quad, start: int, n: int)
    requires
        0 <= n <= 6,
        0 <= start,
        start + 24 <= u32::MAX,
    ensures
        forall|i: int|
            0 <= i < quad_indices_upto(quad, start, n).len() ==> start <= (#[trigger] quad_indices_upto(
                quad,
                start,
                n,
            )[i]) < start + quad_vertices_upto(quad, n).len(),
    decreases n,
{
    if n > 0 {
        quad_indices_name_its_vertices(quad, start, n - 1);
        quad_geometry_size(quad, start, n - 1);
        let before = quad_indices_upto(quad, start, n - 1);
        let all = quad_indices_upto(quad, start, n);
        assert forall|i: int| 0 <= i < all.len() implies start <= (#[trigger] all[i]) < start
            + quad_vertices_upto(quad, n).len() by {
            if i < before.len() {
                assert(all[i] == before[i]);
            }
        }
    }
}

fn face_by_place(i: usize) -> (face: FaceFlags)
    requires
        i < 6,
    ensures
        face == nth_face(i as int),
{
    if i == 0 {
        FACE_LEFT
    } else if i == 1 {
        FACE_RIGHT
    } else if i == 2 {
        FACE_BOTTOM
    } else if i == 3 {
        FACE_TOP
    } else if i == 4 {
        FACE_BACK
    } else {
        FACE_FRONT
    }
}

fn normal_of(face: FaceFlags) -> (normal: Normal)
    ensures
        normal == face_normal(face),
{
    if face == FACE_LEFT {
        Normal { x: -1, y: 0, z: 0 }
    } else if face == FACE_RIGHT {
        Normal { x: 1, y: 0, z: 0 }
    } else if face == FACE_BOTTOM {
        Normal { x: 0, y: -1, z: 0 }
    } else if face == FACE_TOP {
        Normal { x: 0, y: 1, z: 0 }
    } else if face == FACE_BACK {
        Normal { x: 0, y: 0, z: -1 }
    } else {
        Normal { x: 0, y: 0, z: 1 }
    }
}

fn corner_of(face: FaceFlags, k: usize) -> (corner: (bool, bool, bool))
    ensures
        corner == face_corner(face, k as int),
{
    if face == FACE_LEFT {
        (false, k == 2 || k == 3, k == 1 || k == 2)
    } else if face == FACE_RIGHT {
        (true, k == 2 || k == 3, k == 0 || k == 3)
    } else if face == FACE_BOTTOM {
        (k == 1 || k == 2, false, k == 2 || k == 3)
    } else if face == FACE_TOP {
        (k == 1 || k == 2, true, k == 0 || k == 1)
    } else if face == FACE_BACK {
        (k == 0 || k == 3, k == 2 || k == 3, false)
    } else {
        (k == 1 || k == 2, k == 2 || k == 3, true)
    }
}

impl Quad {
    /// Whether the quad's far corner is a global coordinate: its extents
    /// are not negative, and the box it spans does not leave the range.
    pub open spec fn wf(&self) -> bool {
        &&& 0 <= self.dx
        &&& 0 <= self.dz
        &&& self.position.x + self.dx <= i64::MAX
        &&& self.position.y + 1 <= i64::MAX
        &&& self.position.z + self.dz <= i64::MAX
    }

    fn texture_of(&self, face: FaceFlags) -> (texture: i32)
        ensures
            texture == face_texture(self.block_type, face),
    {
        match self.block_type {
            None => 0,
            Some(kind) => {
                let t = kind.texture_indices();
                if face == FACE_LEFT {
                    t.0
                } else if face == FACE_RIGHT {
                    t.1
                } else if face == FACE_BOTTOM {
                    t.2
                } else if face == FACE_TOP {
                    t.3
                } else if face == FACE_BACK {
                    t.4
                } else {
                    t.5
                }
            },
        }
    }

    fn vertex(&self, face: FaceFlags, k: usize) -> (vertex: BlockVertex)
        requires
            self.wf(),
        ensures
            vertex == face_vertex(*self, face, k as int),
    {
        let (far_x, far_y, far_z) = corner_of(face, k);
        let (w, h): (i64, i64) = if face == FACE_LEFT || face == FACE_RIGHT {
            (self.dz, 1)
        } else if face == FACE_BOTTOM || face == FACE_TOP {
            (self.dx, self.dz)
        } else {
            (self.dx, 1)
        };
        let normal = normal_of(face);
        BlockVertex {
            position: GridPoint {
                x: self.position.x + if far_x {
                    self.dx
                } else {
                    0
                },
                y: self.position.y + if far_y {
                    1
                } else {
                    0
                },
                z: self.position.z + if far_z {
                    self.dz
                } else {
                    0
                },
            },
            texture_coordinates: (if k == 1 || k == 2 {
                w
            } else {
                0
            }, if k == 0 || k == 1 {
                h
            } else {
                0
            }),
            normal,
            highlighted: if self.highlighted_normal == normal {
                1
            } else {
                0
            },
            texture_id: self.texture_of(face),
        }
    }

    /// Tessellates the quad: for each face it shows, four vertices with the
    /// face's outward normal, texture and highlight flag, and two
    /// triangles. The first vertex gets the index `start_index`.
    pub fn to_geometry(&self, start_index: u32) -> (geometry: Geometry)
        requires
            self.wf(),
            start_index + 24 <= u32::MAX,
        ensures
            geometry.vertices@ == quad_vertices(*self),
            geometry.indices@ == quad_indices(*self, start_index as int),
    {
        let mut geometry = Geometry::new();
        let mut i: usize = 0;
        assert(geometry.vertices@ =~= quad_vertices_upto(*self, 0));
        assert(geometry.indices@ =~= quad_indices_upto(*self, start_index as int, 0));
        while i < 6
            invariant
                i <= 6,
                self.wf(),
                start_index + 24 <= u32::MAX,
                geometry.vertices@ == quad_vertices_upto(*self, i as int),
                geometry.indices@ == quad_indices_upto(*self, start_index as int, i as int),
            decreases 6 - i,
        {
            proof {
                quad_geometry_size(*self, start_index as int, i as int);
            }
            let face = face_by_place(i);
            if self.visible_faces & face != 0 {
                let base: u32 = start_index + geometry.vertices.len() as u32;
                let ghost vertices = geometry.vertices@;
                let ghost indices = geometry.indices@;
                geometry.vertices.push(self.vertex(face, 0));
                geometry.vertices.push(self.vertex(face, 1));
                geometry.vertices.push(self.vertex(face, 2));
                geometry.vertices.push(self.vertex(face, 3));
                geometry.indices.push(base);
                geometry.indices.push(base + 1);
                geometry.indices.push(base + 2);
                geometry.indices.push(base);
                geometry.indices.push(base + 2);
                geometry.indices.push(base + 3);
                assert(geometry.vertices@ =~= vertices + face_vertices(*self, face));
                assert(geometry.indices@ =~= indices + face_indices(*self, face, base as int));
            } else {
                assert(geometry.vertices@ =~= geometry.vertices@ + face_vertices(*self, face));
                assert(geometry.indices@ =~= geometry.indices@ + face_indices(
                    *self,
                    face,
                    start_index + geometry.vertices@.len(),
                ));
            }
            i = i + 1;
        }
        geometry
    }

    /// A quad of no kind yet, with every face visible and no highlight.
    pub fn new(position: GridPoint, dx: i64, dz: i64) -> (quad: Quad)
        ensures
            quad == (Quad {
                position,
                dx,
                dz,
                highlighted_normal: Normal::spec_zero(),
                visible_faces: FACE_ALL,
                block_type: None,
            }),
    {
        Quad {
            position,
            dx,
            dz,
            highlighted_normal: Normal::zero(),
            visible_faces: FACE_ALL,
            block_type: None,
        }
    }
}

} // verus!
