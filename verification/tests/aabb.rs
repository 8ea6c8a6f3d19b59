use voxel_world::aabb::{Aabb, RenderAction};
use voxel_world::world::block::{Block, BlockType};
use voxel_world::world::chunk::Chunk;
use voxel_world::world::coords::GridPoint;

fn aabb(min: (i64, i64, i64), max: (i64, i64, i64)) -> Aabb {
    Aabb { min: GridPoint::new(min.0, min.1, min.2), max: GridPoint::new(max.0, max.1, max.2) }
}

#[test]
fn boxes_meet_when_they_share_a_point() {
    let a = aabb((0, 0, 0), (10, 10, 10));
    assert!(a.intersects(&aabb((5, 5, 5), (20, 20, 20))));
    assert!(a.intersects(&aabb((10, 10, 10), (20, 20, 20))));
    assert!(a.intersects(&aabb((-5, -5, -5), (0, 0, 0))));
    assert!(a.intersects(&aabb((2, 2, 2), (3, 3, 3))));
    assert!(a.intersects(&a));
    assert!(!a.intersects(&aabb((11, 0, 0), (20, 10, 10))));
    assert!(!a.intersects(&aabb((0, 11, 0), (10, 20, 10))));
    assert!(!a.intersects(&aabb((0, 0, -9), (10, 10, -1))));
    let b = aabb((5, -3, 9), (6, 0, 40));
    assert_eq!(a.intersects(&b), b.intersects(&a));
}

#[test]
fn chunk_is_visible_when_its_box_meets_the_view() {
    let chunk = Chunk::new();
    let view = aabb((-10, 0, -10), (40, 50, 40));
    assert!(chunk.is_visible(GridPoint::new(0, 0, 0), &view));
    assert!(chunk.is_visible(GridPoint::new(40, 50, 40), &view));
    assert!(chunk.is_visible(GridPoint::new(-42, -32, -42), &view));
    assert!(!chunk.is_visible(GridPoint::new(41, 0, 0), &view));
    assert!(!chunk.is_visible(GridPoint::new(-43, 0, 0), &view));
    assert!(!chunk.is_visible(GridPoint::new(0, -33, 0), &view));
    assert!(!chunk.is_visible(GridPoint::new(0, 0, 64), &view));
    // At the edge of the coordinate range the box is still the chunk's.
    assert!(chunk.is_visible(
        GridPoint::new(i64::MAX, 0, 0),
        &aabb((i64::MAX, 0, 0), (i64::MAX, 0, 0))
    ));
}

#[test]
fn flat_distance_ignores_height() {
    let camera = GridPoint::new(10, 500, -10);
    assert!(Chunk::in_draw_distance(GridPoint::new(10, -500, -10), camera, 0));
    assert!(Chunk::in_draw_distance(GridPoint::new(13, 0, -6), camera, 5));
    assert!(!Chunk::in_draw_distance(GridPoint::new(13, 0, -5), camera, 5));
    assert!(Chunk::in_draw_distance(GridPoint::new(310, 0, -10), camera, 300));
    assert!(!Chunk::in_draw_distance(GridPoint::new(311, 0, -10), camera, 300));
    assert!(!Chunk::in_draw_distance(GridPoint::new(i64::MAX, 0, 0), GridPoint::new(i64::MIN, 0, 0), u32::MAX));
    assert!(Chunk::in_draw_distance(
        GridPoint::new(u32::MAX as i64, 0, 0),
        GridPoint::new(0, 0, 0),
        u32::MAX
    ));
    assert!(!Chunk::in_draw_distance(
        GridPoint::new(u32::MAX as i64, 0, 1),
        GridPoint::new(0, 0, 0),
        u32::MAX
    ));
}

#[test]
fn render_skips_what_is_out_of_view_or_not_meshed() {
    let mut chunk = Chunk::new();
    chunk.set(0, 0, 0, Some(Block { block_type: BlockType::Stone }));
    let view = aabb((0, 0, 0), (100, 100, 100));
    let here = GridPoint::new(1, 1, 1);
    let away = GridPoint::new(-2, 0, 0);
    assert_eq!(chunk.render(&here, &view), RenderAction::NotLoaded);
    assert_eq!(chunk.render(&away, &view), RenderAction::Culled);
    chunk.update_geometry(here, None);
    assert_eq!(chunk.render(&here, &view), RenderAction::Draw { index_count: 36 });
    assert_eq!(chunk.render(&away, &view), RenderAction::Culled);
    // The chunk just below the view still touches it.
    assert_eq!(
        chunk.render(&GridPoint::new(-1, 0, 0), &view),
        RenderAction::Draw { index_count: 36 }
    );
    assert_eq!(RenderAction::Draw { index_count: 36 }.triangle_count(), 12);
    assert_eq!(RenderAction::Culled.triangle_count(), 0);
    assert_eq!(RenderAction::NotLoaded.triangle_count(), 0);
}
