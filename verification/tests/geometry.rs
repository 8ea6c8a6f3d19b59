use voxel_world::geometry::{BlockVertex, Geometry};
use voxel_world::world::block::{Block, BlockType};
use voxel_world::world::chunk::Chunk;
use voxel_world::world::coords::{GridPoint, Normal};
use voxel_world::world::face_flags::{
    FACE_ALL, FACE_BACK, FACE_BOTTOM, FACE_FRONT, FACE_LEFT, FACE_NONE, FACE_RIGHT, FACE_TOP,
};
use voxel_world::world::quad::Quad;

fn quad(faces: u8) -> Quad {
    Quad {
        position: GridPoint::new(10, 20, 30),
        dx: 3,
        dz: 2,
        highlighted_normal: Normal::new(0, 0, 0),
        visible_faces: faces,
        block_type: Some(BlockType::Grass),
    }
}

fn positions(geometry: &Geometry) -> Vec<(i64, i64, i64)> {
    geometry.vertices.iter().map(|v| (v.position.x, v.position.y, v.position.z)).collect()
}

fn cross(a: (i64, i64, i64), b: (i64, i64, i64)) -> (i64, i64, i64) {
    (a.1 * b.2 - a.2 * b.1, a.2 * b.0 - a.0 * b.2, a.0 * b.1 - a.1 * b.0)
}

fn minus(a: (i64, i64, i64), b: (i64, i64, i64)) -> (i64, i64, i64) {
    (a.0 - b.0, a.1 - b.1, a.2 - b.2)
}

#[test]
fn new_quad_shows_every_face_and_has_no_kind() {
    let q = Quad::new(GridPoint::new(1, 2, 3), 4, 5);
    assert_eq!(q.position, GridPoint::new(1, 2, 3));
    assert_eq!((q.dx, q.dz), (4, 5));
    assert_eq!(q.visible_faces, FACE_ALL);
    assert_eq!(q.block_type, None);
    assert_eq!(q.highlighted_normal, Normal::new(0, 0, 0));
}

#[test]
fn quad_without_faces_has_no_geometry() {
    let geometry = quad(FACE_NONE).to_geometry(0);
    assert!(geometry.vertices.is_empty());
    assert!(geometry.indices.is_empty());
    assert_eq!(geometry.triangle_count(), 0);
}

#[test]
fn top_face_spans_the_quad_one_block_up() {
    let geometry = quad(FACE_TOP).to_geometry(100);
    assert_eq!(
        positions(&geometry),
        vec![(10, 21, 32), (13, 21, 32), (13, 21, 30), (10, 21, 30)]
    );
    assert_eq!(geometry.indices, vec![100, 101, 102, 100, 102, 103]);
    let coordinates: Vec<(i64, i64)> =
        geometry.vertices.iter().map(|v| v.texture_coordinates).collect();
    assert_eq!(coordinates, vec![(0, 2), (3, 2), (3, 0), (0, 0)]);
    for vertex in geometry.vertices.iter() {
        assert_eq!(vertex.normal, Normal::new(0, 1, 0));
        assert_eq!(vertex.texture_id, 4);
        assert_eq!(vertex.highlighted, 0);
    }
    assert_eq!(geometry.triangle_count(), 2);
}

#[test]
fn left_face_is_as_wide_as_the_quad_is_deep() {
    let geometry = quad(FACE_LEFT).to_geometry(0);
    assert_eq!(
        geometry.vertices,
        vec![
            BlockVertex {
                position: GridPoint::new(10, 20, 30),
                texture_coordinates: (0, 1),
                normal: Normal::new(-1, 0, 0),
                highlighted: 0,
                texture_id: 3,
            },
            BlockVertex {
                position: GridPoint::new(10, 20, 32),
                texture_coordinates: (2, 1),
                normal: Normal::new(-1, 0, 0),
                highlighted: 0,
                texture_id: 3,
            },
            BlockVertex {
                position: GridPoint::new(10, 21, 32),
                texture_coordinates: (2, 0),
                normal: Normal::new(-1, 0, 0),
                highlighted: 0,
                texture_id: 3,
            },
            BlockVertex {
                position: GridPoint::new(10, 21, 30),
                texture_coordinates: (0, 0),
                normal: Normal::new(-1, 0, 0),
                highlighted: 0,
                texture_id: 3,
            },
        ]
    );
}

#[test]
fn every_face_winds_counter_clockwise_around_its_normal() {
    let faces = [
        (FACE_LEFT, (-1, 0, 0), 3),
        (FACE_RIGHT, (1, 0, 0), 3),
        (FACE_BOTTOM, (0, -1, 0), 1),
        (FACE_TOP, (0, 1, 0), 4),
        (FACE_BACK, (0, 0, -1), 3),
        (FACE_FRONT, (0, 0, 1), 3),
    ];
    for (face, normal, texture) in faces {
        let geometry = quad(face).to_geometry(0);
        assert_eq!(geometry.vertices.len(), 4);
        assert_eq!(geometry.indices, vec![0, 1, 2, 0, 2, 3]);
        let p = positions(&geometry);
        for triangle in geometry.indices.chunks(3) {
            let (a, b, c) =
                (p[triangle[0] as usize], p[triangle[1] as usize], p[triangle[2] as usize]);
            let n = cross(minus(b, a), minus(c, a));
            let along = n.0 * normal.0 + n.1 * normal.1 + n.2 * normal.2;
            assert!(along > 0);
            assert_eq!(n.0 * n.0 + n.1 * n.1 + n.2 * n.2, along * along);
        }
        for vertex in geometry.vertices.iter() {
            assert_eq!(vertex.normal, Normal::new(normal.0 as i32, normal.1 as i32, normal.2 as i32));
            assert_eq!(vertex.texture_id, texture);
            assert!(10 <= vertex.position.x && vertex.position.x <= 13);
            assert!(20 <= vertex.position.y && vertex.position.y <= 21);
            assert!(30 <= vertex.position.z && vertex.position.z <= 32);
        }
    }
}

#[test]
fn faces_follow_each_other_in_a_fixed_order() {
    let geometry = quad(FACE_ALL).to_geometry(8);
    assert_eq!(geometry.vertices.len(), 24);
    assert_eq!(geometry.indices.len(), 36);
    let normals: Vec<Normal> = geometry.vertices.iter().step_by(4).map(|v| v.normal).collect();
    assert_eq!(
        normals,
        vec![
            Normal::new(-1, 0, 0),
            Normal::new(1, 0, 0),
            Normal::new(0, -1, 0),
            Normal::new(0, 1, 0),
            Normal::new(0, 0, -1),
            Normal::new(0, 0, 1),
        ]
    );
    for (face, six) in geometry.indices.chunks(6).enumerate() {
        let base = 8 + 4 * face as u32;
        assert_eq!(six, &[base, base + 1, base + 2, base, base + 2, base + 3]);
    }
    let some = quad(FACE_RIGHT | FACE_FRONT).to_geometry(0);
    assert_eq!(some.vertices.len(), 8);
    assert_eq!(some.indices, vec![0, 1, 2, 0, 2, 3, 4, 5, 6, 4, 6, 7]);
    assert_eq!(some.vertices[0].normal, Normal::new(1, 0, 0));
    assert_eq!(some.vertices[4].normal, Normal::new(0, 0, 1));
}

#[test]
fn only_the_face_aimed_at_is_flagged() {
    let mut q = quad(FACE_ALL);
    q.dx = 1;
    q.dz = 1;
    q.highlighted_normal = Normal::new(0, 0, -1);
    let geometry = q.to_geometry(0);
    for vertex in geometry.vertices.iter() {
        let expected = if vertex.normal == Normal::new(0, 0, -1) { 1 } else { 0 };
        assert_eq!(vertex.highlighted, expected);
    }
    assert_eq!(geometry.vertices.iter().filter(|v| v.highlighted == 1).count(), 4);
}

#[test]
fn quad_of_no_kind_uses_the_first_texture() {
    let mut q = quad(FACE_BOTTOM);
    q.block_type = None;
    let geometry = q.to_geometry(0);
    assert!(geometry.vertices.iter().all(|v| v.texture_id == 0));
    q.block_type = Some(BlockType::Grass);
    let geometry = q.to_geometry(0);
    assert!(geometry.vertices.iter().all(|v| v.texture_id == 1));
}

#[test]
fn appended_geometry_keeps_its_indices() {
    let mut first = quad(FACE_TOP).to_geometry(0);
    let mut second = quad(FACE_BOTTOM).to_geometry(4);
    first.append(&mut second);
    assert_eq!(first.vertices.len(), 8);
    assert_eq!(first.indices, vec![0, 1, 2, 0, 2, 3, 4, 5, 6, 4, 6, 7]);
    assert!(second.vertices.is_empty());
    assert!(second.indices.is_empty());
    assert_eq!(Geometry::new().vertices.len(), 0);
    assert_eq!(Geometry::default().indices.len(), 0);
}

#[test]
fn quads_are_tessellated_one_after_the_other() {
    let quads = vec![quad(FACE_TOP | FACE_LEFT), quad(FACE_NONE), quad(FACE_FRONT)];
    let geometry = Chunk::quads_to_geometry(quads);
    assert_eq!(geometry.vertices.len(), 12);
    assert_eq!(
        geometry.indices,
        vec![0, 1, 2, 0, 2, 3, 4, 5, 6, 4, 6, 7, 8, 9, 10, 8, 10, 11]
    );
    assert_eq!(geometry.vertices[0].normal, Normal::new(-1, 0, 0));
    assert_eq!(geometry.vertices[4].normal, Normal::new(0, 1, 0));
    assert_eq!(geometry.vertices[8].normal, Normal::new(0, 0, 1));
    assert!(Chunk::quads_to_geometry(Vec::new()).vertices.is_empty());
}

#[test]
fn chunk_geometry_joins_the_layers_from_the_lowest_up() {
    let mut chunk = Chunk::new();
    chunk.set(0, 31, 0, Some(Block { block_type: BlockType::Stone }));
    chunk.set(5, 0, 5, Some(Block { block_type: BlockType::Dirt }));
    chunk.set(6, 0, 5, Some(Block { block_type: BlockType::Dirt }));
    chunk.set(9, 17, 9, Some(Block { block_type: BlockType::Water }));
    let coords = GridPoint::new(2, -1, 0);
    chunk.update_geometry(coords, None);
    let offset = GridPoint::new(64, -32, 0);
    let mut quads = Vec::new();
    for y in 0..32 {
        quads.extend(chunk.mesh_layer(y, offset, None));
    }
    assert_eq!(quads.len(), 3);
    assert_eq!(quads[0].position, GridPoint::new(69, -32, 5));
    assert_eq!(quads[1].position, GridPoint::new(73, -15, 9));
    assert_eq!(quads[2].position, GridPoint::new(64, -1, 0));
    let expected = Chunk::quads_to_geometry(quads);
    let geometry = chunk.geometry.as_ref().unwrap();
    assert_eq!(geometry.vertices, expected.vertices);
    assert_eq!(geometry.indices, expected.indices);
    assert_eq!(geometry.vertices.len(), 72);
    assert_eq!(geometry.vertices[0].texture_id, 1);
    assert_eq!(geometry.vertices[24].texture_id, 6);
    assert_eq!(geometry.vertices[48].texture_id, 2);
    assert_eq!(geometry.vertices[0].position, GridPoint::new(69, -32, 5));
    assert!(!chunk.full);
}

#[test]
fn highlight_reaches_the_geometry_only_in_its_own_chunk() {
    let mut chunk = Chunk::new();
    chunk.set(1, 1, 1, Some(Block { block_type: BlockType::Stone }));
    let normal = Normal::new(1, 0, 0);
    chunk.update_geometry(GridPoint::new(1, 0, 0), Some((GridPoint::new(33, 1, 1), normal)));
    let flagged = |c: &Chunk| {
        c.geometry.as_ref().unwrap().vertices.iter().filter(|v| v.highlighted == 1).count()
    };
    assert_eq!(flagged(&chunk), 4);
    chunk.update_geometry(GridPoint::new(1, 0, 0), Some((GridPoint::new(1, 1, 1), normal)));
    assert_eq!(flagged(&chunk), 0);
    chunk.update_geometry(GridPoint::new(0, 0, 0), Some((GridPoint::new(1, 1, 1), normal)));
    assert_eq!(flagged(&chunk), 4);
    chunk.update_geometry(GridPoint::new(0, 0, 0), None);
    assert_eq!(flagged(&chunk), 0);
}

#[test]
fn meshing_recomputes_fullness() {
    let mut chunk = Chunk::new();
    for y in 0..32 {
        for z in 0..32 {
            for x in 0..32 {
                chunk.set(x, y, z, Some(Block { block_type: BlockType::Stone }));
            }
        }
    }
    chunk.update_geometry(GridPoint::new(0, 0, 0), None);
    assert!(chunk.full);
    // Six sides, each merged as far as greedy merging reaches.
    let geometry = chunk.geometry.as_ref().unwrap();
    assert_eq!(geometry.indices.len() % 6, 0);
    assert_eq!(geometry.indices.len() / 6 * 4, geometry.vertices.len());
    assert!(geometry.indices.iter().all(|i| (*i as usize) < geometry.vertices.len()));
}
