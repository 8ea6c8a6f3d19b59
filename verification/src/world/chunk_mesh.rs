//! Meshing of a whole chunk: its layers are merged side by side, the quads
//! are joined in layer order and tessellated into one triangle list.

use crate::geometry::{BlockVertex, Geometry};
use crate::world::chunk::{grid_full, local_in_chunk, Chunk, Grid, CHUNK_ISIZE, CHUNK_SIZE};
use crate::world::coords::{GridPoint, LocalPoint, Normal};
use crate::world::meshing::{
    culled_layer, culled_queue, culled_queue_upto, layer_quads, merge_quads, offset_in_range,
    quad_end, rect_cells, BlockFace, CoordinateXZ, LAYER_AREA,
};
use crate::world::meshing_laws::{layer_quads_tile_visible_cells, quad_sound};
use crate::world::quad::{
    quad_geometry_size, quad_indices, quad_indices_name_its_vertices, quad_vertices, Quad,
};
use rayon::iter::{IntoParallelIterator, ParallelIterator};
use vstd::prelude::*;

verus! {

/// The quads of the first `n` layers of a grid, lowest layer first.
pub open spec fn chunk_quads_upto(
    grid: Grid,
    offset: GridPoint,
    highlighted: Option<(LocalPoint, Normal)>,
    n: int,
) -> Seq<Quad>
    decreases n,
{
    if n <= 0 {
        Seq::empty()
    } else {
        chunk_quads_upto(grid, offset, highlighted, n - 1) + layer_quads(
            grid,
            n - 1,
            offset,
            highlighted,
        )
    }
}

/// The quads of a grid: those of each layer, lowest layer first.
pub open spec fn chunk_quads(
    grid: Grid,
    offset: GridPoint,
    highlighted: Option<(LocalPoint, Normal)>,
) -> Seq<Quad> {
    chunk_quads_upto(grid, offset, highlighted, CHUNK_SIZE as int)
}

/// The vertices of a list of quads, quad after quad.
pub open spec fn mesh_vertices(quads: Seq<Quad>) -> Seq<BlockVertex>
    decreases quads.len(),
{
    if quads.len() == 0 {
        Seq::empty()
    } else {
        mesh_vertices(quads.drop_last()) + quad_vertices(quads.last())
    }
}

/// The indices of a list of quads, quad after quad: each quad's indices
/// start at the number of vertices before it.
pub open spec fn mesh_indices(quads: Seq<Quad>) -> Seq<u32>
    decreases quads.len(),
{
    if quads.len() == 0 {
        Seq::empty()
    } else {
        mesh_indices(quads.drop_last()) + quad_indices(
            quads.last(),
            mesh_vertices(quads.drop_last()).len() as int,
        )
    }
}

/// Whether a chunk at `chunk_coords` lies in the range of global block
/// coordinates.
pub open spec fn chunk_in_range(chunk_coords: GridPoint) -> bool {
    &&& i64::MIN <= chunk_coords.x * CHUNK_ISIZE && chunk_coords.x * CHUNK_ISIZE + CHUNK_ISIZE
        <= i64::MAX
    &&& i64::MIN <= chunk_coords.y * CHUNK_ISIZE && chunk_coords.y * CHUNK_ISIZE + CHUNK_ISIZE
        <= i64::MAX
    &&& i64::MIN <= chunk_coords.z * CHUNK_ISIZE && chunk_coords.z * CHUNK_ISIZE + CHUNK_ISIZE
        <= i64::MAX
}

/// The global coordinate of the lowest corner of the chunk at
/// `chunk_coords`.
pub open spec fn chunk_offset(chunk_coords: GridPoint) -> GridPoint {
    GridPoint {
        x: (chunk_coords.x * CHUNK_ISIZE) as i64,
        y: (chunk_coords.y * CHUNK_ISIZE) as i64,
        z: (chunk_coords.z * CHUNK_ISIZE) as i64,
    }
}

/// The highlight as the chunk at `chunk_coords` sees it: the cell it lies
/// on, or nothing if it lies in another chunk.
pub open spec fn local_highlight(
    chunk_coords: GridPoint,
    highlighted: Option<(GridPoint, Normal)>,
) -> Option<(LocalPoint, Normal)> {
    match highlighted {
        None => None,
        Some((position, normal)) => match local_in_chunk(chunk_coords, position) {
            None => None,
            Some(cell) => Some((cell, normal)),
        },
    }
}

/// Culling keeps at most as many cells as it looks at.
pub proof fn culled_queue_is_short(grid: Grid, y: int, n: int)
    requires
        0 <= n,
    ensures
        culled_queue_upto(grid, y, n).len() <= n,
    decreases n,
{
    if n > 0 {
        culled_queue_is_short(grid, y, n - 1);
    }
}

/// Merging makes at most one quad for each cell of the queue.
pub proof fn merge_quads_is_short(
    culled: Map<CoordinateXZ, BlockFace>,
    queue: Seq<CoordinateXZ>,
    visited: Set<CoordinateXZ>,
    highlighted: Option<(LocalPoint, Normal)>,
    y: int,
    offset: GridPoint,
)
    ensures
        merge_quads(culled, queue, visited, highlighted, y, offset).len() <= queue.len(),
    decreases queue.len(),
{
    if queue.len() > 0 {
        let c = queue[0];
        let rest = queue.subrange(1, queue.len() as int);
        if visited.contains(c) {
            merge_quads_is_short(culled, rest, visited, highlighted, y, offset);
        } else if !culled.dom().contains(c) {
            merge_quads_is_short(culled, rest, visited.insert(c), highlighted, y, offset);
        } else {
            let (x1, z1) = quad_end(culled, visited, highlighted, y, c.0 as int, c.1 as int);
            merge_quads_is_short(
                culled,
                rest,
                visited.union(rect_cells(c.0 as int, x1, c.1 as int, z1)),
                highlighted,
                y,
                offset,
            );
        }
    }
}

/// A layer has at most as many quads as cells, and each of its quads spans
/// a box of global coordinates.
pub proof fn layer_quads_are_bounded(
    grid: Grid,
    y: int,
    offset: GridPoint,
    highlighted: Option<(LocalPoint, Normal)>,
)
    requires
        0 <= y < CHUNK_SIZE,
        offset_in_range(offset),
    ensures
        layer_quads(grid, y, offset, highlighted).len() <= LAYER_AREA,
        forall|i: int|
            0 <= i < layer_quads(grid, y, offset, highlighted).len() ==> (#[trigger] layer_quads(
                grid,
                y,
                offset,
                highlighted,
            )[i]).wf(),
{
    let quads = layer_quads(grid, y, offset, highlighted);
    culled_queue_is_short(grid, y, LAYER_AREA as int);
    merge_quads_is_short(
        culled_layer(grid, y),
        culled_queue(grid, y),
        Set::empty(),
        highlighted,
        y,
        offset,
    );
    layer_quads_tile_visible_cells(grid, y, offset, highlighted);
    assert forall|i: int| 0 <= i < quads.len() implies (#[trigger] quads[i]).wf() by {
        assert(quad_sound(
            culled_layer(grid, y),
            Set::<CoordinateXZ>::empty(),
            highlighted,
            y,
            offset,
            quads[i],
        ));
    }
}

/// A chunk has at most as many quads as cells in the layers meshed, and
/// each of its quads spans a box of global coordinates.
pub proof fn chunk_quads_are_bounded(
    grid: Grid,
    offset: GridPoint,
    highlighted: Option<(LocalPoint, Normal)>,
    n: int,
)
    requires
        0 <= n <= CHUNK_SIZE,
        offset_in_range(offset),
    ensures
        chunk_quads_upto(grid, offset, highlighted, n).len() <= n * LAYER_AREA,
        forall|i: int|
            0 <= i < chunk_quads_upto(grid, offset, highlighted, n).len()
                ==> (#[trigger] chunk_quads_upto(grid, offset, highlighted, n)[i]).wf(),
    decreases n,
{
    if n > 0 {
        chunk_quads_are_bounded(grid, offset, highlighted, n - 1);
        layer_quads_are_bounded(grid, n - 1, offset, highlighted);
        let before = chunk_quads_upto(grid, offset, highlighted, n - 1);
        let layer = layer_quads(grid, n - 1, offset, highlighted);
        let quads = chunk_quads_upto(grid, offset, highlighted, n);
        assert forall|i: int| 0 <= i < quads.len() implies (#[trigger] quads[i]).wf() by {
            if i < before.len() {
                assert(quads[i] == before[i]);
            } else {
                assert(quads[i] == layer[i - before.len()]);
            }
        }
    }
}

/// A list of quads has at most twenty-four vertices for each quad.
pub proof fn mesh_vertices_are_few(quads: Seq<Quad>)
    ensures
        mesh_vertices(quads).len() <= 24 * quads.len(),
    decreases quads.len(),
{
    if quads.len() > 0 {
        mesh_vertices_are_few(quads.drop_last());
        quad_geometry_size(quads.last(), 0, 6);
    }
}

/// A triangle list made of quads is sound: every index names a vertex of
/// the list, and there are six indices for every four vertices.
pub proof fn mesh_indices_name_vertices(quads: Seq<Quad>)
    requires
        24 * quads.len() + 24 <= u32::MAX,
    ensures
        mesh_indices(quads).len() * 4 == mesh_vertices(quads).len() * 6,
        forall|i: int|
            0 <= i < mesh_indices(quads).len() ==> (#[trigger] mesh_indices(quads)[i])
                < mesh_vertices(quads).len(),
    decreases quads.len(),
{
    if quads.len() > 0 {
        let front = quads.drop_last();
        let start = mesh_vertices(front).len() as int;
        mesh_indices_name_vertices(front);
        mesh_vertices_are_few(front);
        quad_geometry_size(quads.last(), start, 6);
        quad_indices_name_its_vertices(quads.last(), start, 6);
        let before = mesh_indices(front);
        let all = mesh_indices(quads);
        assert forall|i: int| 0 <= i < all.len() implies (#[trigger] all[i]) < mesh_vertices(
            quads,
        ).len() by {
            if i < before.len() {
                assert(all[i] == before[i]);
            } else {
                assert(all[i] == quad_indices(quads.last(), start)[i - before.len()]);
            }
        }
    }
}

/// Meshes the layers of `chunk` on rayon's worker pool, one job for each
/// layer, and joins the quads. Trusted of `flat_map` and `collect` of
/// rayon's parallel iterators: the closure runs once for each layer of the
/// range, and the vector holds what it returned in the order of the range,
/// as the example in the documentation of `flat_map` shows.
#[verifier::external_body]
fn mesh_layers(
    chunk: &Chunk,
    offset: GridPoint,
    highlighted: Option<(LocalPoint, Normal)>,
) -> (quads: Vec<Quad>)
    requires
        chunk.wf(),
        offset_in_range(offset),
    ensures
        quads@ == chunk_quads(chunk@, offset, highlighted),
{
    (0..CHUNK_SIZE).into_par_iter().flat_map(|y| chunk.mesh_layer(y, offset, highlighted)).collect()
}

/// Whether a chunk at `chunk_coords` lies in the range of global block
/// coordinates.
pub fn chunk_coords_in_range(chunk_coords: GridPoint) -> (r: bool)
    ensures
        r == chunk_in_range(chunk_coords),
{
    let low: i64 = -0x0400_0000_0000_0000;
    let high: i64 = 0x03ff_ffff_ffff_fffe;
    low <= chunk_coords.x && chunk_coords.x <= high && low <= chunk_coords.y && chunk_coords.y
        <= high && low <= chunk_coords.z && chunk_coords.z <= high
}

fn scaled(coordinate: i64) -> (r: i64)
    requires
        i64::MIN <= coordinate * CHUNK_ISIZE,
        coordinate * CHUNK_ISIZE <= i64::MAX,
    ensures
        r == coordinate * CHUNK_ISIZE,
{
    coordinate * CHUNK_ISIZE
}

impl Chunk {
    /// The quads of layer `y`: culling, then merging.
    pub fn mesh_layer(
        &self,
        y: usize,
        offset: GridPoint,
        highlighted: Option<(LocalPoint, Normal)>,
    ) -> (quads: Vec<Quad>)
        requires
            self.wf(),
            y < CHUNK_SIZE,
            offset_in_range(offset),
        ensures
            quads@ == layer_quads(self@, y as int, offset, highlighted),
    {
        let (culled, mut queue) = self.cull_layer(y);
        self.layer_to_quads(y, offset, culled, &mut queue, highlighted)
    }

    /// Tessellates the quads one after the other into one triangle list.
    pub fn quads_to_geometry(quads: Vec<Quad>) -> (geometry: Geometry)
        requires
            forall|i: int| 0 <= i < quads@.len() ==> (#[trigger] quads@[i]).wf(),
            24 * quads@.len() + 24 <= u32::MAX,
        ensures
            geometry.vertices@ == mesh_vertices(quads@),
            geometry.indices@ == mesh_indices(quads@),
    {
        let mut geometry = Geometry::new();
        let mut i: usize = 0;
        assert(quads@.take(0) =~= Seq::empty());
        while i < quads.len()
            invariant
                i <= quads@.len(),
                forall|i: int| 0 <= i < quads@.len() ==> (#[trigger] quads@[i]).wf(),
                24 * quads@.len() + 24 <= u32::MAX,
                geometry.vertices@ == mesh_vertices(quads@.take(i as int)),
                geometry.indices@ == mesh_indices(quads@.take(i as int)),
            decreases quads@.len() - i,
        {
            proof {
                mesh_vertices_are_few(quads@.take(i as int));
                assert(quads@.take(i + 1).drop_last() =~= quads@.take(i as int));
                assert(quads@.take(i + 1).last() == quads@[i as int]);
            }
            let mut part = quads[i].to_geometry(geometry.vertices.len() as u32);
            geometry.append(&mut part);
            i = i + 1;
        }
        assert(quads@.take(quads@.len() as int) =~= quads@);
        geometry
    }

    /// Meshes the chunk at `chunk_coords` anew and recomputes its fullness.
    /// The highlight counts only if it lies in this chunk.
    pub fn update_geometry(
        &mut self,
        chunk_coords: GridPoint,
        highlighted: Option<(GridPoint, Normal)>,
    )
        requires
            old(self).wf(),
            chunk_in_range(chunk_coords),
        ensures
            final(self)@ == old(self)@,
            final(self).full == grid_full(old(self)@),
            final(self).geometry is Some,
            final(self).geometry.unwrap().vertices@ == mesh_vertices(
                chunk_quads(
                    old(self)@,
                    chunk_offset(chunk_coords),
                    local_highlight(chunk_coords, highlighted),
                ),
            ),
            final(self).geometry.unwrap().indices@ == mesh_indices(
                chunk_quads(
                    old(self)@,
                    chunk_offset(chunk_coords),
                    local_highlight(chunk_coords, highlighted),
                ),
            ),
    {
        let local = match highlighted {
            None => None,
            Some((position, normal)) => match Self::block_coords_to_local(chunk_coords, position) {
                None => None,
                Some(cell) => Some((cell, normal)),
            },
        };
        let offset = GridPoint {
            x: scaled(chunk_coords.x),
            y: scaled(chunk_coords.y),
            z: scaled(chunk_coords.z),
        };
        let quads = mesh_layers(self, offset, local);
        proof {
            chunk_quads_are_bounded(self@, offset, local, CHUNK_SIZE as int);
        }
        self.geometry = Some(Self::quads_to_geometry(quads));
        self.update_fullness();
    }
}

} // verus!
