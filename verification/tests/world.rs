use voxel_world::world::aim::MouseButton;
use voxel_world::world::block::{Block, BlockType};
use voxel_world::world::chunk::Chunk;
use voxel_world::world::coords::{GridPoint, Normal};
use voxel_world::world::raycast::Ray;
use voxel_world::world::world::{cell_holding, chunk_holding, Remeshed, World};
use voxel_world::world::coords::LocalPoint;

fn stone() -> Option<Block> {
    Some(Block { block_type: BlockType::Stone })
}

fn point(x: i64, y: i64, z: i64) -> GridPoint {
    GridPoint::new(x, y, z)
}

fn ray(block: (i64, i64, i64), direction: (i32, i32, i32)) -> Ray {
    Ray {
        block: point(block.0, block.1, block.2),
        offset_x: 0,
        offset_y: 0,
        offset_z: 0,
        direction: Normal::new(direction.0, direction.1, direction.2),
    }
}

fn world_with(chunks: &[(i64, i64, i64)]) -> World {
    let mut world = World::new();
    for &(x, y, z) in chunks {
        assert!(world.insert_chunk(point(x, y, z), Chunk::new()));
    }
    world
}

fn flagged(world: &World, chunk: GridPoint) -> usize {
    match world.chunk(chunk).unwrap().geometry.as_ref() {
        None => 0,
        Some(geometry) => geometry.vertices.iter().filter(|v| v.highlighted == 1).count(),
    }
}

#[test]
fn global_coordinates_split_into_chunk_and_cell() {
    assert_eq!(chunk_holding(point(0, 31, 32)), point(0, 0, 1));
    assert_eq!(cell_holding(point(0, 31, 32)), LocalPoint::new(0, 31, 0));
    assert_eq!(chunk_holding(point(-1, -32, -33)), point(-1, -1, -2));
    assert_eq!(cell_holding(point(-1, -32, -33)), LocalPoint::new(31, 0, 31));
    assert_eq!(chunk_holding(point(i64::MIN, i64::MAX, 100)), point(i64::MIN / 32, i64::MAX / 32, 3));
    assert_eq!(cell_holding(point(i64::MIN, i64::MAX, 100)), LocalPoint::new(0, 31, 4));
    for v in [-100i64, -65, -64, -63, -1, 0, 1, 31, 32, 33, 1000] {
        let chunk = chunk_holding(point(v, 0, 0)).x;
        let cell = cell_holding(point(v, 0, 0)).x as i64;
        assert_eq!(chunk * 32 + cell, v);
        assert!((0..32).contains(&cell));
    }
}

#[test]
fn blocks_are_found_through_their_chunk() {
    let mut world = world_with(&[(0, 0, 0), (-1, 0, 0), (3, -2, 1)]);
    assert_eq!(world.get_block(point(0, 0, 0)), None);
    assert!(world.set_block(point(0, 0, 0), stone()));
    assert!(world.set_block(point(-1, 5, 5), Some(Block { block_type: BlockType::Water })));
    assert!(world.set_block(point(3 * 32 + 7, -64 + 9, 32 + 31), Some(Block { block_type: BlockType::Dirt })));
    assert_eq!(world.get_block(point(0, 0, 0)), stone());
    assert_eq!(world.get_block(point(-1, 5, 5)), Some(Block { block_type: BlockType::Water }));
    assert_eq!(
        world.get_block(point(103, -55, 63)),
        Some(Block { block_type: BlockType::Dirt })
    );
    assert_eq!(world.get_block(point(1, 0, 0)), None);
    assert_eq!(world.chunk(point(-1, 0, 0)).unwrap().get(31, 5, 5), Some(Block { block_type: BlockType::Water }));
    assert_eq!(world.chunk(point(3, -2, 1)).unwrap().get(7, 9, 31), Some(Block { block_type: BlockType::Dirt }));
    assert!(world.set_block(point(0, 0, 0), None));
    assert_eq!(world.get_block(point(0, 0, 0)), None);
}

#[test]
fn missing_chunk_reads_as_empty_and_ignores_edits() {
    let mut world = world_with(&[(0, 0, 0)]);
    assert_eq!(world.get_block(point(32, 0, 0)), None);
    assert_eq!(world.get_block(point(-1, -1, -1)), None);
    assert_eq!(world.get_block(point(i64::MAX, i64::MIN, 0)), None);
    assert!(!world.set_block(point(32, 0, 0), stone()));
    assert!(!world.set_block(point(i64::MAX, 0, 0), stone()));
    assert_eq!(world.get_block(point(32, 0, 0)), None);
    assert_eq!(world.positions().len(), 1);
    let only = world.chunk(point(0, 0, 0)).unwrap();
    assert!(only.blocks.iter().all(|c| c.is_none()));
    assert!(only.geometry.is_none());
    assert!(!world.has_chunk(point(1, 0, 0)));
    assert!(world.has_chunk(point(0, 0, 0)));
    assert!(world.chunk(point(0, 1, 0)).is_none());
    let empty = World::new();
    assert_eq!(empty.get_block(point(0, 0, 0)), None);
}

#[test]
fn edit_meshes_only_the_chunk_it_touches() {
    let mut world = world_with(&[(0, 0, 0), (1, 0, 0)]);
    assert!(world.set_block(point(31, 0, 0), stone()));
    let touched = world.chunk(point(0, 0, 0)).unwrap();
    assert_eq!(touched.geometry.as_ref().unwrap().vertices.len(), 24);
    assert_eq!(
        touched.geometry.as_ref().unwrap().vertices[0].position,
        point(31, 0, 0)
    );
    assert!(world.chunk(point(1, 0, 0)).unwrap().geometry.is_none());
    assert!(world.set_block(point(32, 0, 0), stone()));
    // The seam between two chunks is drawn from both sides.
    assert_eq!(
        world.chunk(point(1, 0, 0)).unwrap().geometry.as_ref().unwrap().vertices.len(),
        24
    );
    assert_eq!(
        world.chunk(point(0, 0, 0)).unwrap().geometry.as_ref().unwrap().vertices.len(),
        24
    );
}

#[test]
fn chunks_are_inserted_and_replaced_by_coordinate() {
    let mut world = World::new();
    let mut chunk = Chunk::new();
    chunk.set(1, 1, 1, stone());
    assert!(world.insert_chunk(point(5, 5, 5), chunk));
    assert!(world.insert_chunk(point(5, 5, 6), Chunk::new()));
    assert_eq!(world.get_block(point(161, 161, 161)), stone());
    assert_eq!(*world.positions(), vec![point(5, 5, 5), point(5, 5, 6)]);
    assert!(world.insert_chunk(point(5, 5, 5), Chunk::new()));
    assert_eq!(world.get_block(point(161, 161, 161)), None);
    assert_eq!(world.positions().len(), 2);
    // A chunk that is not whole, or that would leave the coordinate range, is refused.
    let mut broken = Chunk::new();
    broken.blocks.pop();
    assert!(!world.insert_chunk(point(0, 0, 0), broken));
    assert!(!world.insert_chunk(point(i64::MAX / 32, 0, 0), Chunk::new()));
    assert!(!world.insert_chunk(point(0, i64::MIN / 32 - 1, 0), Chunk::new()));
    assert!(world.insert_chunk(point(i64::MAX / 32 - 1, i64::MIN / 32, 0), Chunk::new()));
    assert_eq!(world.positions().len(), 3);
    assert!(!world.has_chunk(point(0, 0, 0)));
}

#[test]
fn ray_straight_down_hits_the_top_of_the_block() {
    let mut world = world_with(&[(0, 0, 0)]);
    assert!(world.set_block(point(0, 0, 0), stone()));
    let hit = world.raycast(&ray((0, 5, 0), (0, -1, 0)), 100);
    assert_eq!(hit, Some((point(0, 0, 0), Normal::new(0, 1, 0))));
    // The reach is counted in cells entered: five are needed.
    assert_eq!(world.raycast(&ray((0, 5, 0), (0, -1, 0)), 5), hit);
    assert_eq!(world.raycast(&ray((0, 5, 0), (0, -1, 0)), 4), None);
    // The length of the direction does not count.
    assert_eq!(world.raycast(&ray((0, 5, 0), (0, -70000, 0)), 100), hit);
    // From inside the block's middle the answer is the same.
    let mut middle = ray((0, 5, 0), (0, -1, 0));
    middle.offset_x = 32768;
    middle.offset_y = 100;
    middle.offset_z = 65535;
    assert_eq!(world.raycast(&middle, 100), hit);
}

#[test]
fn ray_without_a_block_in_reach_hits_nothing() {
    let empty = World::new();
    assert_eq!(empty.raycast(&ray((0, 5, 0), (0, -1, 0)), 100), None);
    let mut world = world_with(&[(0, 0, 0)]);
    assert_eq!(world.raycast(&ray((0, 5, 0), (0, -1, 0)), 100), None);
    assert!(world.set_block(point(0, 0, 0), stone()));
    assert_eq!(world.raycast(&ray((0, 5, 0), (0, 1, 0)), 100), None);
    assert_eq!(world.raycast(&ray((0, 5, 0), (1, 0, 0)), 100), None);
    assert_eq!(world.raycast(&ray((1, 5, 0), (0, -1, 0)), 100), None);
    assert_eq!(world.raycast(&ray((0, 5, 0), (0, 0, 0)), 100), None);
    assert_eq!(world.raycast(&ray((0, 5, 0), (0, -1, 0)), 0), None);
    // The block that holds the origin is not looked at.
    assert_eq!(world.raycast(&ray((0, 0, 0), (0, -1, 0)), 100), None);
    // At the edge of the grid the walk ends.
    assert_eq!(world.raycast(&ray((0, i64::MIN + 2, 0), (0, -1, 0)), 100), None);
}

#[test]
fn ray_reports_the_face_it_enters_through() {
    let mut world = world_with(&[(0, 0, 0), (-1, 0, 0)]);
    assert!(world.set_block(point(10, 10, 10), stone()));
    let at = point(10, 10, 10);
    assert_eq!(world.raycast(&ray((3, 10, 10), (1, 0, 0)), 50), Some((at, Normal::new(-1, 0, 0))));
    assert_eq!(world.raycast(&ray((20, 10, 10), (-5, 0, 0)), 50), Some((at, Normal::new(1, 0, 0))));
    assert_eq!(world.raycast(&ray((10, 2, 10), (0, 9, 0)), 50), Some((at, Normal::new(0, -1, 0))));
    assert_eq!(world.raycast(&ray((10, 10, 0), (0, 0, 1)), 50), Some((at, Normal::new(0, 0, -1))));
    assert_eq!(world.raycast(&ray((10, 10, 31), (0, 0, -1)), 50), Some((at, Normal::new(0, 0, 1))));
    // Across a chunk border, from negative coordinates.
    assert_eq!(world.raycast(&ray((-20, 10, 10), (1, 0, 0)), 50), Some((at, Normal::new(-1, 0, 0))));
    assert_eq!(world.raycast(&ray((-20, 10, 10), (1, 0, 0)), 29), None);
}

#[test]
fn diagonal_ray_walks_from_cell_to_neighbouring_cell() {
    let mut world = world_with(&[(0, 0, 0)]);
    // From the middle of (0, 0, 0) along (1, 1, 0): the walk crosses x first
    // where both borders come together, so it enters (1, 0, 0), then (1, 1, 0).
    let mut diagonal = ray((0, 0, 0), (1, 1, 0));
    diagonal.offset_x = 32768;
    diagonal.offset_y = 32768;
    diagonal.offset_z = 32768;
    assert!(world.set_block(point(1, 1, 0), stone()));
    assert_eq!(world.raycast(&diagonal, 10), Some((point(1, 1, 0), Normal::new(0, -1, 0))));
    assert!(world.set_block(point(1, 0, 0), stone()));
    assert_eq!(world.raycast(&diagonal, 10), Some((point(1, 0, 0), Normal::new(-1, 0, 0))));
    assert!(world.set_block(point(1, 0, 0), None));
    assert!(world.set_block(point(1, 1, 0), None));
    // A shallow ray: two cells along x for each cell along y.
    let mut shallow = ray((0, 0, 0), (2, 1, 0));
    shallow.offset_x = 0;
    shallow.offset_y = 32768;
    assert!(world.set_block(point(2, 1, 0), stone()));
    assert!(world.set_block(point(0, 1, 0), stone()));
    assert_eq!(world.raycast(&shallow, 10), Some((point(2, 1, 0), Normal::new(-1, 0, 0))));
    assert_eq!(world.raycast(&shallow, 2), None);
    // With a steeper start the ray turns up a cell earlier.
    shallow.offset_y = 65535;
    assert!(world.set_block(point(2, 1, 0), None));
    assert!(world.set_block(point(1, 1, 0), stone()));
    assert_eq!(world.raycast(&shallow, 10), Some((point(0, 1, 0), Normal::new(0, -1, 0))));
}

#[test]
fn highlight_takes_the_geometry_of_at_most_two_chunks_with_it() {
    let mut world = world_with(&[(0, 0, 0), (1, 0, 0), (2, 0, 0)]);
    assert!(world.set_block(point(5, 0, 0), stone()));
    assert!(world.set_block(point(40, 0, 0), stone()));
    assert!(world.set_block(point(70, 0, 0), stone()));
    let up = Normal::new(0, 1, 0);
    let none = Remeshed { left: None, entered: None };

    let first = world.set_highlight(Some((point(5, 0, 0), up)));
    assert_eq!(first, Remeshed { left: None, entered: Some(point(0, 0, 0)) });
    assert_eq!(world.highlight(), Some((point(5, 0, 0), up)));
    assert_eq!(flagged(&world, point(0, 0, 0)), 4);

    assert_eq!(world.set_highlight(Some((point(5, 0, 0), up))), none);

    let turned = world.set_highlight(Some((point(5, 0, 0), Normal::new(1, 0, 0))));
    assert_eq!(turned, Remeshed { left: Some(point(0, 0, 0)), entered: None });
    assert_eq!(flagged(&world, point(0, 0, 0)), 4);

    let moved = world.set_highlight(Some((point(40, 0, 0), up)));
    assert_eq!(moved, Remeshed { left: Some(point(0, 0, 0)), entered: Some(point(1, 0, 0)) });
    assert_eq!(flagged(&world, point(0, 0, 0)), 0);
    assert_eq!(flagged(&world, point(1, 0, 0)), 4);
    assert_eq!(flagged(&world, point(2, 0, 0)), 0);

    let gone = world.set_highlight(Some((point(1000, 0, 0), up)));
    assert_eq!(gone, Remeshed { left: Some(point(1, 0, 0)), entered: None });
    assert_eq!(flagged(&world, point(1, 0, 0)), 0);

    let back = world.set_highlight(Some((point(70, 0, 0), up)));
    assert_eq!(back, Remeshed { left: None, entered: Some(point(2, 0, 0)) });
    assert_eq!(flagged(&world, point(2, 0, 0)), 4);

    let off = world.set_highlight(None);
    assert_eq!(off, Remeshed { left: Some(point(2, 0, 0)), entered: None });
    assert_eq!(world.highlight(), None);
    assert_eq!(flagged(&world, point(2, 0, 0)), 0);
    assert_eq!(world.set_highlight(None), none);
    assert_eq!(world.get_block(point(5, 0, 0)), stone());
    assert_eq!(world.get_block(point(40, 0, 0)), stone());
}

#[test]
fn aim_follows_the_ray() {
    let mut world = world_with(&[(0, 0, 0)]);
    assert!(world.set_block(point(0, 0, 0), stone()));
    let remeshed = world.update_aim(&ray((0, 5, 0), (0, -1, 0)), 100);
    assert_eq!(remeshed, Remeshed { left: None, entered: Some(point(0, 0, 0)) });
    assert_eq!(world.highlight(), Some((point(0, 0, 0), Normal::new(0, 1, 0))));
    assert_eq!(flagged(&world, point(0, 0, 0)), 4);
    let same = world.update_aim(&ray((0, 9, 0), (0, -1, 0)), 100);
    assert_eq!(same, Remeshed { left: None, entered: None });
    let away = world.update_aim(&ray((0, 5, 0), (0, 1, 0)), 100);
    assert_eq!(away, Remeshed { left: Some(point(0, 0, 0)), entered: None });
    assert_eq!(world.highlight(), None);
    assert_eq!(flagged(&world, point(0, 0, 0)), 0);
}

#[test]
fn update_chunk_geometry_meshes_under_the_present_highlight() {
    let mut world = world_with(&[(0, 0, 0)]);
    assert!(!world.update_chunk_geometry(point(0, 1, 0)));
    assert!(world.chunk(point(0, 0, 0)).unwrap().geometry.is_none());
    assert!(world.update_chunk_geometry(point(0, 0, 0)));
    assert!(world.chunk(point(0, 0, 0)).unwrap().geometry.as_ref().unwrap().vertices.is_empty());
    // The highlight lies on a cell that is still empty; an edit then meshes
    // the chunk under it.
    world.set_highlight(Some((point(3, 3, 3), Normal::new(0, 0, 1))));
    assert_eq!(flagged(&world, point(0, 0, 0)), 0);
    assert!(world.set_block(point(3, 3, 3), stone()));
    assert_eq!(flagged(&world, point(0, 0, 0)), 4);
    assert!(world.update_chunk_geometry(point(0, 0, 0)));
    assert_eq!(flagged(&world, point(0, 0, 0)), 4);
}

#[test]
fn left_click_removes_and_right_click_places() {
    let mut world = world_with(&[(0, 0, 0), (0, 1, 0)]);
    assert!(world.set_block(point(4, 31, 4), stone()));
    let down = ray((4, 40, 4), (0, -1, 0));
    assert_eq!(world.input_mouse_button(MouseButton::Other, &down, 100), None);
    assert_eq!(world.get_block(point(4, 31, 4)), stone());

    // The new block stands against the face that was hit: here in the chunk above.
    assert_eq!(world.input_mouse_button(MouseButton::Right, &down, 100), Some(point(4, 32, 4)));
    assert_eq!(
        world.get_block(point(4, 32, 4)),
        Some(Block { block_type: BlockType::Cobblestone })
    );
    assert_eq!(world.get_block(point(4, 31, 4)), stone());
    assert_eq!(
        world.chunk(point(0, 1, 0)).unwrap().geometry.as_ref().unwrap().vertices.len(),
        24
    );

    assert_eq!(world.input_mouse_button(MouseButton::Left, &down, 100), Some(point(4, 32, 4)));
    assert_eq!(world.get_block(point(4, 32, 4)), None);
    assert_eq!(world.input_mouse_button(MouseButton::Left, &down, 100), Some(point(4, 31, 4)));
    assert_eq!(world.get_block(point(4, 31, 4)), None);
    assert_eq!(world.input_mouse_button(MouseButton::Left, &down, 100), None);
    assert_eq!(world.input_mouse_button(MouseButton::Right, &down, 100), None);

    // Against a face that looks into a chunk that does not exist, nothing is placed.
    assert!(world.set_block(point(0, 5, 5), stone()));
    let sideways = ray((-9, 5, 5), (1, 0, 0));
    assert_eq!(world.input_mouse_button(MouseButton::Right, &sideways, 100), None);
    assert_eq!(world.get_block(point(-1, 5, 5)), None);
    assert_eq!(world.get_block(point(0, 5, 5)), stone());
}

#[test]
fn ray_hits_the_nearest_of_the_blocks_in_its_way() {
    let mut world = world_with(&[(0, 0, 0)]);
    assert!(world.set_block(point(20, 4, 4), stone()));
    assert!(world.set_block(point(12, 4, 4), Some(Block { block_type: BlockType::Water })));
    assert!(world.set_block(point(16, 4, 4), stone()));
    let along = ray((2, 4, 4), (1, 0, 0));
    assert_eq!(world.raycast(&along, 60), Some((point(12, 4, 4), Normal::new(-1, 0, 0))));
    assert!(world.set_block(point(12, 4, 4), None));
    assert_eq!(world.raycast(&along, 60), Some((point(16, 4, 4), Normal::new(-1, 0, 0))));
    let back = ray((30, 4, 4), (-1, 0, 0));
    assert_eq!(world.raycast(&back, 60), Some((point(20, 4, 4), Normal::new(1, 0, 0))));
    // A block beside the ray's line is not in its way.
    assert!(world.set_block(point(8, 5, 4), stone()));
    assert_eq!(world.raycast(&along, 60), Some((point(16, 4, 4), Normal::new(-1, 0, 0))));
    // A slanted ray that climbs one cell in eight passes over the first block.
    let mut slanted = ray((2, 4, 4), (8, 1, 0));
    slanted.offset_y = 32768;
    slanted.offset_z = 32768;
    assert_eq!(world.raycast(&slanted, 60), Some((point(8, 5, 4), Normal::new(-1, 0, 0))));
    assert!(world.set_block(point(8, 5, 4), None));
    assert_eq!(world.raycast(&slanted, 60), None);
}
