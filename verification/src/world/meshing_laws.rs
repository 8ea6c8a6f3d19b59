//! What greedy merging guarantees: the quads of a layer tile exactly the
//! cells that culling kept, each quad is of one kind and carries exactly
//! the faces of its cells, and highlighted and animated cells stay alone.

use crate::world::block::BlockType;
use crate::world::chunk::{
    cell_index, exposed_to, grid_cell, in_chunk, visible_faces, Grid, CHUNK_SIZE, CHUNK_VOLUME,
};
use crate::world::coords::{GridPoint, LocalPoint, Normal};
use crate::world::face_flags::{
    face_mask_members, face_none_members, face_union_members, has_face, same_faces, FaceFlags,
    FACE_ALL, FACE_NONE,
};
use crate::world::meshing::{
    cell_position, culled_entry, culled_layer, culled_queue, culled_queue_upto, culled_upto,
    is_highlighted, joinable, layer_cell, layer_quads, merge_quads, offset_in_range, quad_at,
    quad_end, queue_in_layer, rect_cells, rect_faces, row_faces, row_joinable, rows_end,
    span_end, BlockFace, CoordinateXZ, LAYER_AREA,
};
use crate::world::quad::Quad;
use vstd::prelude::*;

verus! {

/// Whether the culled cell `(x, z)` shows a face of `faces`.
pub open spec fn cell_has_face(
    culled: Map<CoordinateXZ, BlockFace>,
    x: int,
    z: int,
    faces: FaceFlags,
) -> bool {
    has_face(culled[(x as usize, z as usize)].1, faces)
}

/// Whether some cell of row `z` from `x0` up to `x1` shows a face of
/// `faces`.
pub open spec fn row_has_face(
    culled: Map<CoordinateXZ, BlockFace>,
    x0: int,
    x1: int,
    z: int,
    faces: FaceFlags,
) -> bool {
    exists|x: int| x0 <= x < x1 && #[trigger] cell_has_face(culled, x, z, faces)
}

/// Whether some cell of the rectangle from `(x0, z0)` up to `(x1, z1)`
/// shows a face of `faces`.
pub open spec fn rect_has_face(
    culled: Map<CoordinateXZ, BlockFace>,
    x0: int,
    x1: int,
    z0: int,
    z1: int,
    faces: FaceFlags,
) -> bool {
    exists|x: int, z: int|
        x0 <= x < x1 && z0 <= z < z1 && #[trigger] cell_has_face(culled, x, z, faces)
}

/// The union of the faces of a row holds a face exactly when a cell of the
/// row shows it.
pub proof fn row_faces_members(
    culled: Map<CoordinateXZ, BlockFace>,
    x0: int,
    x1: int,
    z: int,
    faces: FaceFlags,
)
    ensures
        has_face(row_faces(culled, x0, x1, z), faces) == row_has_face(culled, x0, x1, z, faces),
    decreases x1 - x0,
{
    if x1 <= x0 {
        face_none_members(faces, faces);
    } else {
        row_faces_members(culled, x0, x1 - 1, z, faces);
        let last = culled[((x1 - 1) as usize, z as usize)].1;
        face_union_members(row_faces(culled, x0, x1 - 1, z), last, faces);
        if row_has_face(culled, x0, x1, z, faces) {
            let x = choose|x: int| x0 <= x < x1 && #[trigger] cell_has_face(culled, x, z, faces);
            if x < x1 - 1 {
                assert(row_has_face(culled, x0, x1 - 1, z, faces));
            }
        }
        if row_has_face(culled, x0, x1 - 1, z, faces) {
            let x = choose|x: int|
                x0 <= x < x1 - 1 && #[trigger] cell_has_face(culled, x, z, faces);
            assert(cell_has_face(culled, x, z, faces));
        }
        if has_face(last, faces) {
            assert(cell_has_face(culled, x1 - 1, z, faces));
        }
    }
}

/// The union of the faces of a rectangle holds a face exactly when a cell
/// of the rectangle shows it.
pub proof fn rect_faces_members(
    culled: Map<CoordinateXZ, BlockFace>,
    x0: int,
    x1: int,
    z0: int,
    z1: int,
    faces: FaceFlags,
)
    ensures
        has_face(rect_faces(culled, x0, x1, z0, z1), faces) == rect_has_face(
            culled,
            x0,
            x1,
            z0,
            z1,
            faces,
        ),
    decreases z1 - z0,
{
    if z1 <= z0 {
        face_none_members(faces, faces);
    } else {
        rect_faces_members(culled, x0, x1, z0, z1 - 1, faces);
        row_faces_members(culled, x0, x1, z1 - 1, faces);
        face_union_members(
            rect_faces(culled, x0, x1, z0, z1 - 1),
            row_faces(culled, x0, x1, z1 - 1),
            faces,
        );
        if rect_has_face(culled, x0, x1, z0, z1, faces) {
            let (x, z) = choose|x: int, z: int|
                x0 <= x < x1 && z0 <= z < z1 && #[trigger] cell_has_face(culled, x, z, faces);
            if z < z1 - 1 {
                assert(rect_has_face(culled, x0, x1, z0, z1 - 1, faces));
            } else {
                assert(row_has_face(culled, x0, x1, z1 - 1, faces));
            }
        }
        if rect_has_face(culled, x0, x1, z0, z1 - 1, faces) {
            let (x, z) = choose|x: int, z: int|
                x0 <= x < x1 && z0 <= z < z1 - 1 && #[trigger] cell_has_face(culled, x, z, faces);
            assert(cell_has_face(culled, x, z, faces));
        }
        if row_has_face(culled, x0, x1, z1 - 1, faces) {
            let x = choose|x: int|
                x0 <= x < x1 && #[trigger] cell_has_face(culled, x, z1 - 1, faces);
            assert(cell_has_face(culled, x, z1 - 1, faces));
        }
    }
}

/// The run towards +X ends inside the chunk, every cell of it joins, and
/// the cell beyond it, if any, does not.
pub proof fn span_end_is_maximal(
    culled: Map<CoordinateXZ, BlockFace>,
    visited: Set<CoordinateXZ>,
    highlighted: Option<(LocalPoint, Normal)>,
    y: int,
    kind: BlockType,
    x: int,
    z: int,
)
    requires
        0 <= x < CHUNK_SIZE,
    ensures
        x < span_end(culled, visited, highlighted, y, kind, x, z) <= CHUNK_SIZE,
        forall|i: int|
            x < i < span_end(culled, visited, highlighted, y, kind, x, z) ==> #[trigger] joinable(
                culled,
                visited,
                highlighted,
                y,
                kind,
                i,
                z,
            ),
        span_end(culled, visited, highlighted, y, kind, x, z) < CHUNK_SIZE ==> !joinable(
            culled,
            visited,
            highlighted,
            y,
            kind,
            span_end(culled, visited, highlighted, y, kind, x, z),
            z,
        ),
    decreases CHUNK_SIZE - x,
{
    let next = x + 1;
    if next < CHUNK_SIZE && joinable(culled, visited, highlighted, y, kind, next, z) {
        span_end_is_maximal(culled, visited, highlighted, y, kind, next, z);
    }
}

/// The run of rows towards +Z ends inside the chunk, every row of it joins
/// as a whole, and the row beyond it, if any, does not.
pub proof fn rows_end_is_maximal(
    culled: Map<CoordinateXZ, BlockFace>,
    visited: Set<CoordinateXZ>,
    highlighted: Option<(LocalPoint, Normal)>,
    y: int,
    kind: BlockType,
    x0: int,
    x1: int,
    z: int,
)
    requires
        0 <= z < CHUNK_SIZE,
    ensures
        z < rows_end(culled, visited, highlighted, y, kind, x0, x1, z) <= CHUNK_SIZE,
        forall|r: int|
            z < r < rows_end(culled, visited, highlighted, y, kind, x0, x1, z)
                ==> #[trigger] row_joinable(culled, visited, highlighted, y, kind, x0, x1, r),
        rows_end(culled, visited, highlighted, y, kind, x0, x1, z) < CHUNK_SIZE ==> !row_joinable(
            culled,
            visited,
            highlighted,
            y,
            kind,
            x0,
            x1,
            rows_end(culled, visited, highlighted, y, kind, x0, x1, z),
        ),
    decreases CHUNK_SIZE - z,
{
    let next = z + 1;
    if next < CHUNK_SIZE && row_joinable(culled, visited, highlighted, y, kind, x0, x1, next) {
        rows_end_is_maximal(culled, visited, highlighted, y, kind, x0, x1, next);
    }
}


/// Whether the quad covers the cell `(x, z)` of its layer, in the
/// coordinates of the chunk that starts at `offset`.
pub open spec fn quad_covers(quad: Quad, offset: GridPoint, x: int, z: int) -> bool {
    &&& quad.position.x - offset.x <= x < quad.position.x - offset.x + quad.dx
    &&& quad.position.z - offset.z <= z < quad.position.z - offset.z + quad.dz
}

/// Whether some quad of `quads` covers the cell `(x, z)`.
pub open spec fn covered(quads: Seq<Quad>, offset: GridPoint, x: int, z: int) -> bool {
    exists|i: int| 0 <= i < quads.len() && quad_covers(#[trigger] quads[i], offset, x, z)
}

/// Whether the cell `(x, z)` may lie in a quad of kind `kind`: it was
/// culled in, is of that kind, and belonged to no quad before.
pub open spec fn cell_fits(
    culled: Map<CoordinateXZ, BlockFace>,
    visited: Set<CoordinateXZ>,
    kind: BlockType,
    x: int,
    z: int,
) -> bool {
    let c = (x as usize, z as usize);
    &&& !visited.contains(c)
    &&& culled.dom().contains(c)
    &&& culled[c].0 == kind
}

/// What holds of every quad that merging makes: it lies in its layer, its
/// cells were culled in, are of its kind and were free; it carries exactly
/// the faces that its cells show; and it is a single cell if it is animated
/// or holds the highlight, whose normal it then carries.
pub open spec fn quad_sound(
    culled: Map<CoordinateXZ, BlockFace>,
    visited: Set<CoordinateXZ>,
    highlighted: Option<(LocalPoint, Normal)>,
    y: int,
    offset: GridPoint,
    quad: Quad,
) -> bool {
    let x0 = quad.position.x - offset.x;
    let z0 = quad.position.z - offset.z;
    &&& quad.position.y == offset.y + y
    &&& 0 <= x0 && 1 <= quad.dx && x0 + quad.dx <= CHUNK_SIZE
    &&& 0 <= z0 && 1 <= quad.dz && z0 + quad.dz <= CHUNK_SIZE
    &&& quad.block_type is Some
    &&& forall|x: int, z: int|
        quad_covers(quad, offset, x, z) ==> #[trigger] cell_fits(
            culled,
            visited,
            quad.block_type.unwrap(),
            x,
            z,
        )
    &&& forall|faces: FaceFlags|
        #[trigger] has_face(quad.visible_faces, faces) == rect_has_face(
            culled,
            x0,
            x0 + quad.dx,
            z0,
            z0 + quad.dz,
            faces,
        )
    &&& quad.block_type.unwrap().animated() ==> quad.dx == 1 && quad.dz == 1
    &&& forall|x: int, z: int|
        quad_covers(quad, offset, x, z) && #[trigger] is_highlighted(highlighted, x, y, z)
            ==> quad.dx == 1 && quad.dz == 1 && quad.highlighted_normal == highlighted.unwrap().1
    &&& !is_highlighted(highlighted, x0, y, z0) ==> quad.highlighted_normal == Normal::spec_zero()
}

/// The quad anchored at a free culled cell is sound, and covers exactly the
/// rectangle from the cell up to `quad_end`.
pub proof fn quad_at_is_sound(
    culled: Map<CoordinateXZ, BlockFace>,
    visited: Set<CoordinateXZ>,
    highlighted: Option<(LocalPoint, Normal)>,
    y: int,
    offset: GridPoint,
    x: int,
    z: int,
)
    requires
        0 <= x < CHUNK_SIZE,
        0 <= z < CHUNK_SIZE,
        0 <= y < CHUNK_SIZE,
        offset_in_range(offset),
        culled.dom().contains((x as usize, z as usize)),
        !visited.contains((x as usize, z as usize)),
    ensures
        quad_sound(
            culled,
            visited,
            highlighted,
            y,
            offset,
            quad_at(culled, visited, highlighted, y, offset, x, z),
        ),
        quad_at(culled, visited, highlighted, y, offset, x, z).position == cell_position(
            offset,
            x,
            y,
            z,
        ),
        x + quad_at(culled, visited, highlighted, y, offset, x, z).dx == quad_end(
            culled,
            visited,
            highlighted,
            y,
            x,
            z,
        ).0,
        z + quad_at(culled, visited, highlighted, y, offset, x, z).dz == quad_end(
            culled,
            visited,
            highlighted,
            y,
            x,
            z,
        ).1,
        quad_covers(quad_at(culled, visited, highlighted, y, offset, x, z), offset, x, z),
{
    let c = (x as usize, z as usize);
    let kind = culled[c].0;
    let quad = quad_at(culled, visited, highlighted, y, offset, x, z);
    let (x1, z1) = quad_end(culled, visited, highlighted, y, x, z);
    let seen = visited.insert(c);
    let alone = is_highlighted(highlighted, x, y, z) || kind.animated();
    if !alone {
        span_end_is_maximal(culled, seen, highlighted, y, kind, x, z);
        rows_end_is_maximal(culled, seen, highlighted, y, kind, x, x1, z);
    }
    assert(x < x1 <= CHUNK_SIZE && z < z1 <= CHUNK_SIZE);
    assert(quad.position.x - offset.x == x && quad.position.z - offset.z == z);
    assert(quad.dx == x1 - x && quad.dz == z1 - z);
    assert forall|i: int, j: int| quad_covers(quad, offset, i, j) implies #[trigger] cell_fits(
        culled,
        visited,
        kind,
        i,
        j,
    ) by {
        if i == x && j == z {
        } else if j == z {
            assert(joinable(culled, seen, highlighted, y, kind, i, z));
        } else {
            assert(row_joinable(culled, seen, highlighted, y, kind, x, x1, j));
            assert(joinable(culled, seen, highlighted, y, kind, i, j));
        }
    }
    assert forall|i: int, j: int|
        quad_covers(quad, offset, i, j) && #[trigger] is_highlighted(
            highlighted,
            i,
            y,
            j,
        ) implies quad.dx == 1 && quad.dz == 1 && quad.highlighted_normal
        == highlighted.unwrap().1 by {
        if !alone {
            if i == x && j == z {
            } else if j == z {
                assert(joinable(culled, seen, highlighted, y, kind, i, z));
            } else {
                assert(row_joinable(culled, seen, highlighted, y, kind, x, x1, j));
                assert(joinable(culled, seen, highlighted, y, kind, i, j));
            }
        }
    }
    assert forall|faces: FaceFlags| #[trigger]
        has_face(quad.visible_faces, faces) == rect_has_face(culled, x, x1, z, z1, faces) by {
        if alone {
            if has_face(culled[c].1, faces) {
                assert(cell_has_face(culled, x, z, faces));
            }
            if rect_has_face(culled, x, x1, z, z1, faces) {
                let (i, j) = choose|i: int, j: int|
                    x <= i < x1 && z <= j < z1 && #[trigger] cell_has_face(culled, i, j, faces);
                assert(i == x && j == z);
            }
        } else {
            rect_faces_members(culled, x, x1, z, z1, faces);
        }
    }
}

/// What holds of the quads of a layer together: each is sound, and no two
/// share a cell.
pub open spec fn quads_sound(
    culled: Map<CoordinateXZ, BlockFace>,
    visited: Set<CoordinateXZ>,
    highlighted: Option<(LocalPoint, Normal)>,
    y: int,
    offset: GridPoint,
    quads: Seq<Quad>,
) -> bool {
    &&& forall|i: int|
        0 <= i < quads.len() ==> quad_sound(
            culled,
            visited,
            highlighted,
            y,
            offset,
            #[trigger] quads[i],
        )
    &&& forall|i: int, j: int, x: int, z: int|
        #![trigger quad_covers(quads[i], offset, x, z), quad_covers(quads[j], offset, x, z)]
        0 <= i < j < quads.len() && quad_covers(quads[i], offset, x, z) ==> !quad_covers(
            quads[j],
            offset,
            x,
            z,
        )
}

/// A quad that is sound with more cells taken is sound with fewer.
proof fn quad_sound_with_fewer_taken(
    culled: Map<CoordinateXZ, BlockFace>,
    fewer: Set<CoordinateXZ>,
    more: Set<CoordinateXZ>,
    highlighted: Option<(LocalPoint, Normal)>,
    y: int,
    offset: GridPoint,
    quad: Quad,
)
    requires
        quad_sound(culled, more, highlighted, y, offset, quad),
        fewer.subset_of(more),
    ensures
        quad_sound(culled, fewer, highlighted, y, offset, quad),
{
    let kind = quad.block_type.unwrap();
    assert forall|x: int, z: int| quad_covers(quad, offset, x, z) implies #[trigger] cell_fits(
        culled,
        fewer,
        kind,
        x,
        z,
    ) by {
        assert(cell_fits(culled, more, kind, x, z));
    }
}

/// Whatever the queue and the cells already taken, the quads that merging
/// makes are sound and pairwise disjoint.
pub proof fn merge_quads_are_sound(
    culled: Map<CoordinateXZ, BlockFace>,
    queue: Seq<CoordinateXZ>,
    visited: Set<CoordinateXZ>,
    highlighted: Option<(LocalPoint, Normal)>,
    y: int,
    offset: GridPoint,
)
    requires
        queue_in_layer(queue),
        0 <= y < CHUNK_SIZE,
        offset_in_range(offset),
    ensures
        quads_sound(
            culled,
            visited,
            highlighted,
            y,
            offset,
            merge_quads(culled, queue, visited, highlighted, y, offset),
        ),
    decreases queue.len(),
{
    let quads = merge_quads(culled, queue, visited, highlighted, y, offset);
    if queue.len() > 0 {
        let c = queue[0];
        let rest = queue.subrange(1, queue.len() as int);
        assert(queue_in_layer(rest)) by {
            assert forall|i: int| 0 <= i < rest.len() implies (#[trigger] rest[i]).0 < CHUNK_SIZE
                && rest[i].1 < CHUNK_SIZE by {
                assert(rest[i] == queue[i + 1]);
            }
        }
        if visited.contains(c) {
            merge_quads_are_sound(culled, rest, visited, highlighted, y, offset);
        } else if !culled.dom().contains(c) {
            let taken = visited.insert(c);
            merge_quads_are_sound(culled, rest, taken, highlighted, y, offset);
            assert forall|i: int| 0 <= i < quads.len() implies quad_sound(
                culled,
                visited,
                highlighted,
                y,
                offset,
                #[trigger] quads[i],
            ) by {
                quad_sound_with_fewer_taken(
                    culled,
                    visited,
                    taken,
                    highlighted,
                    y,
                    offset,
                    quads[i],
                );
            }
        } else {
            let x = c.0 as int;
            let z = c.1 as int;
            let (x1, z1) = quad_end(culled, visited, highlighted, y, x, z);
            let head = quad_at(culled, visited, highlighted, y, offset, x, z);
            let taken = visited.union(rect_cells(x, x1, z, z1));
            let tail = merge_quads(culled, rest, taken, highlighted, y, offset);
            quad_at_is_sound(culled, visited, highlighted, y, offset, x, z);
            merge_quads_are_sound(culled, rest, taken, highlighted, y, offset);
            assert(quads == seq![head] + tail);
            assert forall|i: int| 0 <= i < quads.len() implies quad_sound(
                culled,
                visited,
                highlighted,
                y,
                offset,
                #[trigger] quads[i],
            ) by {
                if i > 0 {
                    assert(quads[i] == tail[i - 1]);
                    quad_sound_with_fewer_taken(
                        culled,
                        visited,
                        taken,
                        highlighted,
                        y,
                        offset,
                        tail[i - 1],
                    );
                }
            }
            assert forall|i: int, j: int, a: int, b: int|
                #![trigger quad_covers(quads[i], offset, a, b), quad_covers(quads[j], offset, a, b)]
                0 <= i < j < quads.len() && quad_covers(quads[i], offset, a, b) implies !quad_covers(
                    quads[j],
                    offset,
                    a,
                    b,
                ) by {
                assert(quads[j] == tail[j - 1]);
                if quad_covers(quads[j], offset, a, b) {
                    assert(cell_fits(culled, taken, tail[j - 1].block_type.unwrap(), a, b));
                    if i == 0 {
                        assert(rect_cells(x, x1, z, z1).contains((a as usize, b as usize)));
                    } else {
                        assert(quads[i] == tail[i - 1]);
                    }
                }
            }
        }
    }
}

/// Every free culled cell of the queue lies in one of the quads that
/// merging makes.
pub proof fn merge_quads_cover_queue(
    culled: Map<CoordinateXZ, BlockFace>,
    queue: Seq<CoordinateXZ>,
    visited: Set<CoordinateXZ>,
    highlighted: Option<(LocalPoint, Normal)>,
    y: int,
    offset: GridPoint,
    k: int,
)
    requires
        queue_in_layer(queue),
        0 <= y < CHUNK_SIZE,
        offset_in_range(offset),
        0 <= k < queue.len(),
        culled.dom().contains(queue[k]),
        !visited.contains(queue[k]),
    ensures
        covered(
            merge_quads(culled, queue, visited, highlighted, y, offset),
            offset,
            queue[k].0 as int,
            queue[k].1 as int,
        ),
    decreases queue.len(),
{
    let quads = merge_quads(culled, queue, visited, highlighted, y, offset);
    let c = queue[0];
    let rest = queue.subrange(1, queue.len() as int);
    let want = queue[k];
    assert(queue_in_layer(rest)) by {
        assert forall|i: int| 0 <= i < rest.len() implies (#[trigger] rest[i]).0 < CHUNK_SIZE
            && rest[i].1 < CHUNK_SIZE by {
            assert(rest[i] == queue[i + 1]);
        }
    }
    if k > 0 {
        assert(rest[k - 1] == want);
    }
    if visited.contains(c) {
        merge_quads_cover_queue(culled, rest, visited, highlighted, y, offset, k - 1);
    } else if !culled.dom().contains(c) {
        merge_quads_cover_queue(culled, rest, visited.insert(c), highlighted, y, offset, k - 1);
    } else {
        let x = c.0 as int;
        let z = c.1 as int;
        let (x1, z1) = quad_end(culled, visited, highlighted, y, x, z);
        let head = quad_at(culled, visited, highlighted, y, offset, x, z);
        let taken = visited.union(rect_cells(x, x1, z, z1));
        let tail = merge_quads(culled, rest, taken, highlighted, y, offset);
        quad_at_is_sound(culled, visited, highlighted, y, offset, x, z);
        assert(quads == seq![head] + tail);
        assert(quads[0] == head);
        if rect_cells(x, x1, z, z1).contains(want) {
            assert(quad_covers(quads[0], offset, want.0 as int, want.1 as int));
        } else {
            merge_quads_cover_queue(culled, rest, taken, highlighted, y, offset, k - 1);
            let i = choose|i: int|
                0 <= i < tail.len() && quad_covers(
                    #[trigger] tail[i],
                    offset,
                    want.0 as int,
                    want.1 as int,
                );
            assert(quads[i + 1] == tail[i]);
        }
    }
}


/// The queue that culling fills lies in the layer and lists every cell that
/// culling kept.
pub proof fn culled_queue_lists_culled(grid: Grid, y: int, n: int)
    requires
        0 <= n <= LAYER_AREA,
    ensures
        queue_in_layer(culled_queue_upto(grid, y, n)),
        forall|c: CoordinateXZ| #[trigger]
            culled_upto(grid, y, n).dom().contains(c) ==> culled_queue_upto(grid, y, n).contains(c),
    decreases n,
{
    if n > 0 {
        culled_queue_lists_culled(grid, y, n - 1);
        let before = culled_queue_upto(grid, y, n - 1);
        let now = culled_queue_upto(grid, y, n);
        let last = layer_cell(n - 1);
        assert(last.0 < CHUNK_SIZE && last.1 < CHUNK_SIZE);
        assert forall|c: CoordinateXZ| #[trigger]
            culled_upto(grid, y, n).dom().contains(c) implies now.contains(c) by {
            if c.1 * CHUNK_SIZE + c.0 < n - 1 {
                assert(culled_upto(grid, y, n - 1).dom().contains(c));
                let k = choose|k: int| 0 <= k < before.len() && before[k] == c;
                assert(now[k] == c);
            } else {
                assert(c == last);
                assert(now[now.len() - 1] == c);
            }
        }
    }
}

/// Whether some cell of the quad shows a face of `faces` in the grid.
pub open spec fn quad_cell_shows(
    grid: Grid,
    quad: Quad,
    offset: GridPoint,
    y: int,
    faces: FaceFlags,
) -> bool {
    exists|x: int, z: int|
        quad_covers(quad, offset, x, z) && #[trigger] has_face(visible_faces(grid, x, y, z), faces)
}

/// Merging neither hides nor invents a cell or a face. The quads of a layer
/// cover exactly the cells that are occupied and show a face, no two quads
/// share a cell, every cell of a quad is of the quad's kind, and a quad
/// carries a face exactly when one of its cells shows it.
pub proof fn layer_quads_tile_visible_cells(
    grid: Grid,
    y: int,
    offset: GridPoint,
    highlighted: Option<(LocalPoint, Normal)>,
)
    requires
        0 <= y < CHUNK_SIZE,
        offset_in_range(offset),
    ensures
        quads_sound(
            culled_layer(grid, y),
            Set::empty(),
            highlighted,
            y,
            offset,
            layer_quads(grid, y, offset, highlighted),
        ),
        forall|x: int, z: int| #[trigger]
            covered(layer_quads(grid, y, offset, highlighted), offset, x, z) <==> (0 <= x
                < CHUNK_SIZE && 0 <= z < CHUNK_SIZE && culled_entry(grid, x, y, z) is Some),
        forall|i: int, x: int, z: int|
            0 <= i < layer_quads(grid, y, offset, highlighted).len() && #[trigger] quad_covers(
                layer_quads(grid, y, offset, highlighted)[i],
                offset,
                x,
                z,
            ) ==> culled_entry(grid, x, y, z) is Some && layer_quads(
                grid,
                y,
                offset,
                highlighted,
            )[i].block_type == Some(culled_entry(grid, x, y, z).unwrap().0),
        forall|i: int, faces: FaceFlags|
            0 <= i < layer_quads(grid, y, offset, highlighted).len() ==> #[trigger] has_face(
                layer_quads(grid, y, offset, highlighted)[i].visible_faces,
                faces,
            ) == quad_cell_shows(
                grid,
                layer_quads(grid, y, offset, highlighted)[i],
                offset,
                y,
                faces,
            ),
{
    let culled = culled_layer(grid, y);
    let queue = culled_queue(grid, y);
    let none = Set::<CoordinateXZ>::empty();
    let quads = layer_quads(grid, y, offset, highlighted);
    culled_queue_lists_culled(grid, y, LAYER_AREA as int);
    merge_quads_are_sound(culled, queue, none, highlighted, y, offset);
    assert forall|i: int, x: int, z: int|
        0 <= i < quads.len() && #[trigger] quad_covers(quads[i], offset, x, z) implies (0 <= x
        < CHUNK_SIZE && 0 <= z < CHUNK_SIZE && culled_entry(grid, x, y, z) is Some
        && quads[i].block_type == Some(culled_entry(grid, x, y, z).unwrap().0) && culled[(
        x as usize,
        z as usize,
    )].1 == visible_faces(grid, x, y, z)) by {
        assert(quad_sound(culled, none, highlighted, y, offset, quads[i]));
        assert(cell_fits(culled, none, quads[i].block_type.unwrap(), x, z));
    }
    assert forall|x: int, z: int| #[trigger]
        covered(quads, offset, x, z) <==> (0 <= x < CHUNK_SIZE && 0 <= z < CHUNK_SIZE
            && culled_entry(grid, x, y, z) is Some) by {
        if covered(quads, offset, x, z) {
            let i = choose|i: int|
                0 <= i < quads.len() && quad_covers(#[trigger] quads[i], offset, x, z);
            assert(quad_covers(quads[i], offset, x, z));
        }
        if 0 <= x < CHUNK_SIZE && 0 <= z < CHUNK_SIZE && culled_entry(grid, x, y, z) is Some {
            let c = (x as usize, z as usize);
            assert(culled.dom().contains(c));
            let k = choose|k: int| 0 <= k < queue.len() && queue[k] == c;
            merge_quads_cover_queue(culled, queue, none, highlighted, y, offset, k);
        }
    }
    assert forall|i: int, faces: FaceFlags| 0 <= i < quads.len() implies #[trigger] has_face(
        quads[i].visible_faces,
        faces,
    ) == quad_cell_shows(grid, quads[i], offset, y, faces) by {
        let quad = quads[i];
        let x0 = quad.position.x - offset.x;
        let z0 = quad.position.z - offset.z;
        assert(quad_sound(culled, none, highlighted, y, offset, quad));
        assert(has_face(quad.visible_faces, faces) == rect_has_face(
            culled,
            x0,
            x0 + quad.dx,
            z0,
            z0 + quad.dz,
            faces,
        ));
        if rect_has_face(culled, x0, x0 + quad.dx, z0, z0 + quad.dz, faces) {
            let (x, z) = choose|x: int, z: int|
                x0 <= x < x0 + quad.dx && z0 <= z < z0 + quad.dz && #[trigger] cell_has_face(
                    culled,
                    x,
                    z,
                    faces,
                );
            assert(quad_covers(quads[i], offset, x, z));
            assert(has_face(visible_faces(grid, x, y, z), faces));
        }
        if quad_cell_shows(grid, quad, offset, y, faces) {
            let (x, z) = choose|x: int, z: int|
                quad_covers(quad, offset, x, z) && #[trigger] has_face(
                    visible_faces(grid, x, y, z),
                    faces,
                );
            assert(quad_covers(quads[i], offset, x, z));
            assert(cell_has_face(culled, x, z, faces));
        }
    }
}

/// A highlighted cell that shows a face is a quad of its own: one quad
/// stands at its position, is a single cell, carries the highlight's normal
/// and exactly the cell's own kind and faces; and no other quad covers it.
pub proof fn highlighted_cell_stays_alone(
    grid: Grid,
    y: int,
    offset: GridPoint,
    cell: LocalPoint,
    normal: Normal,
)
    requires
        0 <= y < CHUNK_SIZE,
        offset_in_range(offset),
        cell.x < CHUNK_SIZE,
        cell.z < CHUNK_SIZE,
        cell.y == y,
        culled_entry(grid, cell.x as int, y, cell.z as int) is Some,
    ensures
        exists|i: int|
            0 <= i < layer_quads(grid, y, offset, Some((cell, normal))).len() && (#[trigger] layer_quads(
                grid,
                y,
                offset,
                Some((cell, normal)),
            )[i]) == (Quad {
                position: cell_position(offset, cell.x as int, y, cell.z as int),
                dx: 1,
                dz: 1,
                highlighted_normal: normal,
                visible_faces: visible_faces(grid, cell.x as int, y, cell.z as int),
                block_type: Some(culled_entry(grid, cell.x as int, y, cell.z as int).unwrap().0),
            }),
        forall|i: int|
            0 <= i < layer_quads(grid, y, offset, Some((cell, normal))).len() && quad_covers(
                #[trigger] layer_quads(grid, y, offset, Some((cell, normal)))[i],
                offset,
                cell.x as int,
                cell.z as int,
            ) ==> layer_quads(grid, y, offset, Some((cell, normal)))[i].dx == 1 && layer_quads(
                grid,
                y,
                offset,
                Some((cell, normal)),
            )[i].dz == 1,
{
    let highlighted = Some((cell, normal));
    let culled = culled_layer(grid, y);
    let none = Set::<CoordinateXZ>::empty();
    let quads = layer_quads(grid, y, offset, highlighted);
    let x = cell.x as int;
    let z = cell.z as int;
    layer_quads_tile_visible_cells(grid, y, offset, highlighted);
    assert(covered(quads, offset, x, z));
    let i = choose|i: int| 0 <= i < quads.len() && quad_covers(#[trigger] quads[i], offset, x, z);
    let quad = quads[i];
    assert(quad_sound(culled, none, highlighted, y, offset, quad));
    assert(is_highlighted(highlighted, x, y, z));
    assert(quad.dx == 1 && quad.dz == 1 && quad.highlighted_normal == normal);
    assert(quad.position == cell_position(offset, x, y, z));
    assert(quad_covers(quads[i], offset, x, z));
    assert(quad.visible_faces == visible_faces(grid, x, y, z)) by {
        let own = visible_faces(grid, x, y, z);
        assert forall|faces: FaceFlags| #[trigger]
            has_face(quad.visible_faces, faces) == has_face(own, faces) by {
            assert(has_face(quads[i].visible_faces, faces) == quad_cell_shows(
                grid,
                quads[i],
                offset,
                y,
                faces,
            ));
            if quad_cell_shows(grid, quad, offset, y, faces) {
                let (a, b) = choose|a: int, b: int|
                    quad_covers(quad, offset, a, b) && #[trigger] has_face(
                        visible_faces(grid, a, y, b),
                        faces,
                    );
                assert(a == x && b == z);
            }
            if has_face(own, faces) {
                assert(quad_covers(quad, offset, x, z));
            }
        }
        same_faces(quad.visible_faces, own);
    }
    assert forall|j: int|
        0 <= j < quads.len() && quad_covers(#[trigger] quads[j], offset, x, z) implies quads[j].dx
        == 1 && quads[j].dz == 1 by {
        assert(quad_sound(culled, none, highlighted, y, offset, quads[j]));
    }
}

/// An animated cell is never merged: every quad of an animated kind is a
/// single cell.
pub proof fn animated_cells_stay_alone(
    grid: Grid,
    y: int,
    offset: GridPoint,
    highlighted: Option<(LocalPoint, Normal)>,
)
    requires
        0 <= y < CHUNK_SIZE,
        offset_in_range(offset),
    ensures
        forall|i: int|
            0 <= i < layer_quads(grid, y, offset, highlighted).len() && (#[trigger] layer_quads(
                grid,
                y,
                offset,
                highlighted,
            )[i]).block_type.unwrap().animated() ==> layer_quads(grid, y, offset, highlighted)[i].dx
                == 1 && layer_quads(grid, y, offset, highlighted)[i].dz == 1,
{
    let quads = layer_quads(grid, y, offset, highlighted);
    layer_quads_tile_visible_cells(grid, y, offset, highlighted);
    assert forall|i: int|
        0 <= i < quads.len() && (#[trigger] quads[i]).block_type.unwrap().animated() implies quads[i].dx
        == 1 && quads[i].dz == 1 by {
        assert(quad_sound(
            culled_layer(grid, y),
            Set::<CoordinateXZ>::empty(),
            highlighted,
            y,
            offset,
            quads[i],
        ));
    }
}


/// Whether the occupied cell `(x, y, z)` is hidden on every side: each of
/// its six neighbours lies in the chunk, is occupied and shares its
/// transparency.
pub open spec fn enclosed(grid: Grid, x: int, y: int, z: int) -> bool {
    let t = grid_cell(grid, x, y, z).unwrap().block_type.transparent();
    &&& grid_cell(grid, x, y, z) is Some
    &&& !exposed_to(grid, t, x - 1, y, z)
    &&& !exposed_to(grid, t, x + 1, y, z)
    &&& !exposed_to(grid, t, x, y - 1, z)
    &&& !exposed_to(grid, t, x, y + 1, z)
    &&& !exposed_to(grid, t, x, y, z - 1)
    &&& !exposed_to(grid, t, x, y, z + 1)
}

/// A cell that is hidden on every side shows no face, and no quad covers
/// it. Cells at the border of a chunk are never hidden, since the cells of
/// neighbouring chunks are not consulted.
pub proof fn enclosed_cell_is_in_no_quad(
    grid: Grid,
    x: int,
    y: int,
    z: int,
    offset: GridPoint,
    highlighted: Option<(LocalPoint, Normal)>,
)
    requires
        0 <= y < CHUNK_SIZE,
        offset_in_range(offset),
        enclosed(grid, x, y, z),
    ensures
        visible_faces(grid, x, y, z) == FACE_NONE,
        !covered(layer_quads(grid, y, offset, highlighted), offset, x, z),
{
    let t = grid_cell(grid, x, y, z).unwrap().block_type.transparent();
    face_mask_members(
        exposed_to(grid, t, x - 1, y, z),
        exposed_to(grid, t, x + 1, y, z),
        exposed_to(grid, t, x, y - 1, z),
        exposed_to(grid, t, x, y + 1, z),
        exposed_to(grid, t, x, y, z - 1),
        exposed_to(grid, t, x, y, z + 1),
    );
    layer_quads_tile_visible_cells(grid, y, offset, highlighted);
}

/// In a chunk without an empty cell whose blocks all share one
/// transparency, the quads cover the cells at the chunk's border and no
/// others.
pub proof fn full_chunk_shows_only_its_border(
    grid: Grid,
    transparent: bool,
    x: int,
    y: int,
    z: int,
    offset: GridPoint,
    highlighted: Option<(LocalPoint, Normal)>,
)
    requires
        grid.len() == CHUNK_VOLUME,
        forall|i: int|
            0 <= i < grid.len() ==> (#[trigger] grid[i]) is Some
                && grid[i].unwrap().block_type.transparent() == transparent,
        in_chunk(x, y, z),
        offset_in_range(offset),
    ensures
        covered(layer_quads(grid, y, offset, highlighted), offset, x, z) <==> (x == 0 || x
            == CHUNK_SIZE - 1 || y == 0 || y == CHUNK_SIZE - 1 || z == 0 || z == CHUNK_SIZE - 1),
{
    let own = grid[cell_index(x, y, z)];
    assert(own is Some && own.unwrap().block_type.transparent() == transparent);
    assert forall|i: int, j: int, k: int| in_chunk(i, j, k) implies !#[trigger] exposed_to(
        grid,
        transparent,
        i,
        j,
        k,
    ) by {
        let neighbour = grid[cell_index(i, j, k)];
        assert(neighbour is Some && neighbour.unwrap().block_type.transparent() == transparent);
    }
    face_mask_members(
        exposed_to(grid, transparent, x - 1, y, z),
        exposed_to(grid, transparent, x + 1, y, z),
        exposed_to(grid, transparent, x, y - 1, z),
        exposed_to(grid, transparent, x, y + 1, z),
        exposed_to(grid, transparent, x, y, z - 1),
        exposed_to(grid, transparent, x, y, z + 1),
    );
    layer_quads_tile_visible_cells(grid, y, offset, highlighted);
    if x > 0 {
        assert(!exposed_to(grid, transparent, x - 1, y, z));
    }
    if x < CHUNK_SIZE - 1 {
        assert(!exposed_to(grid, transparent, x + 1, y, z));
    }
    if y > 0 {
        assert(!exposed_to(grid, transparent, x, y - 1, z));
    }
    if y < CHUNK_SIZE - 1 {
        assert(!exposed_to(grid, transparent, x, y + 1, z));
    }
    if z > 0 {
        assert(!exposed_to(grid, transparent, x, y, z - 1));
    }
    if z < CHUNK_SIZE - 1 {
        assert(!exposed_to(grid, transparent, x, y, z + 1));
    }
}

/// A layer in which culling keeps nothing has no quads.
pub proof fn bare_layer_has_no_quads(
    grid: Grid,
    y: int,
    offset: GridPoint,
    highlighted: Option<(LocalPoint, Normal)>,
)
    requires
        0 <= y < CHUNK_SIZE,
        offset_in_range(offset),
        forall|x: int, z: int|
            0 <= x < CHUNK_SIZE && 0 <= z < CHUNK_SIZE ==> (#[trigger] culled_entry(grid, x, y, z))
                is None,
    ensures
        layer_quads(grid, y, offset, highlighted).len() == 0,
{
    let quads = layer_quads(grid, y, offset, highlighted);
    layer_quads_tile_visible_cells(grid, y, offset, highlighted);
    if quads.len() > 0 {
        let quad = quads[0];
        assert(quad_sound(
            culled_layer(grid, y),
            Set::<CoordinateXZ>::empty(),
            highlighted,
            y,
            offset,
            quad,
        ));
        let x = quad.position.x - offset.x;
        let z = quad.position.z - offset.z;
        assert(quad_covers(quads[0], offset, x, z));
        assert(culled_entry(grid, x, y, z) is Some);
    }
}

/// A single block in an otherwise empty chunk is meshed into exactly one
/// quad: a single cell at the block's position that shows all six faces.
/// Every other layer has no quads.
pub proof fn isolated_cell_is_one_quad(
    grid: Grid,
    x: int,
    y: int,
    z: int,
    layer: int,
    offset: GridPoint,
    highlighted: Option<(LocalPoint, Normal)>,
)
    requires
        grid.len() == CHUNK_VOLUME,
        in_chunk(x, y, z),
        forall|i: int| 0 <= i < grid.len() ==> ((#[trigger] grid[i]) is Some <==> i == cell_index(x, y, z)),
        0 <= layer < CHUNK_SIZE,
        offset_in_range(offset),
    ensures
        visible_faces(grid, x, y, z) == FACE_ALL,
        layer != y ==> layer_quads(grid, layer, offset, highlighted).len() == 0,
        layer == y ==> layer_quads(grid, y, offset, highlighted).len() == 1,
        layer == y ==> ({
            let quad = layer_quads(grid, y, offset, highlighted)[0];
            &&& quad.position == cell_position(offset, x, y, z)
            &&& quad.dx == 1
            &&& quad.dz == 1
            &&& quad.visible_faces == FACE_ALL
            &&& quad.block_type == Some(grid[cell_index(x, y, z)].unwrap().block_type)
        }),
{
    let own = grid[cell_index(x, y, z)];
    assert(own is Some);
    let t = own.unwrap().block_type.transparent();
    assert forall|i: int, j: int, k: int| !(i == x && j == y && k == z) implies #[trigger] grid_cell(
        grid,
        i,
        j,
        k,
    ) is None by {
        if in_chunk(i, j, k) {
            assert(cell_index(i, j, k) != cell_index(x, y, z));
            assert(!(grid[cell_index(i, j, k)] is Some));
        }
    }
    assert(grid_cell(grid, x - 1, y, z) is None);
    assert(grid_cell(grid, x + 1, y, z) is None);
    assert(grid_cell(grid, x, y - 1, z) is None);
    assert(grid_cell(grid, x, y + 1, z) is None);
    assert(grid_cell(grid, x, y, z - 1) is None);
    assert(grid_cell(grid, x, y, z + 1) is None);
    face_mask_members(
        exposed_to(grid, t, x - 1, y, z),
        exposed_to(grid, t, x + 1, y, z),
        exposed_to(grid, t, x, y - 1, z),
        exposed_to(grid, t, x, y + 1, z),
        exposed_to(grid, t, x, y, z - 1),
        exposed_to(grid, t, x, y, z + 1),
    );
    assert(visible_faces(grid, x, y, z) == FACE_ALL);
    if layer != y {
        assert forall|i: int, k: int| 0 <= i < CHUNK_SIZE && 0 <= k < CHUNK_SIZE implies (#[trigger] culled_entry(
            grid,
            i,
            layer,
            k,
        )) is None by {
            assert(grid_cell(grid, i, layer, k) is None);
        }
        bare_layer_has_no_quads(grid, layer, offset, highlighted);
    } else {
        let quads = layer_quads(grid, y, offset, highlighted);
        let culled = culled_layer(grid, y);
        let none = Set::<CoordinateXZ>::empty();
        layer_quads_tile_visible_cells(grid, y, offset, highlighted);
        assert(culled_entry(grid, x, y, z) is Some);
        assert(covered(quads, offset, x, z));
        assert forall|i: int| 0 <= i < quads.len() implies (#[trigger] quads[i]).position
            == cell_position(offset, x, y, z) && quads[i].dx == 1 && quads[i].dz == 1
            && quad_covers(quads[i], offset, x, z) by {
            let quad = quads[i];
            assert(quad_sound(culled, none, highlighted, y, offset, quad));
            let x0 = quad.position.x - offset.x;
            let z0 = quad.position.z - offset.z;
            assert(quad_covers(quads[i], offset, x0, z0));
            assert(culled_entry(grid, x0, y, z0) is Some);
            assert(grid_cell(grid, x0, y, z0) is Some);
            assert(quad_covers(quads[i], offset, x0 + quad.dx - 1, z0 + quad.dz - 1));
            assert(culled_entry(grid, x0 + quad.dx - 1, y, z0 + quad.dz - 1) is Some);
            assert(grid_cell(grid, x0 + quad.dx - 1, y, z0 + quad.dz - 1) is Some);
        }
        if quads.len() > 1 {
            assert(quad_covers(quads[0], offset, x, z));
            assert(quad_covers(quads[1], offset, x, z));
        }
        let quad = quads[0];
        assert(quad.visible_faces == FACE_ALL) by {
            assert forall|faces: FaceFlags| #[trigger]
                has_face(quad.visible_faces, faces) == has_face(FACE_ALL, faces) by {
                assert(has_face(quads[0].visible_faces, faces) == quad_cell_shows(
                    grid,
                    quads[0],
                    offset,
                    y,
                    faces,
                ));
                if quad_cell_shows(grid, quad, offset, y, faces) {
                    let (a, b) = choose|a: int, b: int|
                        quad_covers(quad, offset, a, b) && #[trigger] has_face(
                            visible_faces(grid, a, y, b),
                            faces,
                        );
                    assert(a == x && b == z);
                }
                if has_face(FACE_ALL, faces) {
                    assert(quad_covers(quad, offset, x, z));
                    assert(has_face(visible_faces(grid, x, y, z), faces));
                }
            }
            same_faces(quad.visible_faces, FACE_ALL);
        }
        assert(quad_covers(quads[0], offset, x, z));
    }
}

} // verus!
