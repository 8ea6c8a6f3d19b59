use voxel_world::world::block::{Block, BlockType};
use voxel_world::world::chunk::{Chunk, CHUNK_SIZE, CHUNK_VOLUME};
use voxel_world::world::coords::{GridPoint, LocalPoint};
use voxel_world::world::terrain::HeightMap;

fn block(kind: BlockType) -> Option<Block> {
    Some(Block { block_type: kind })
}

fn flat(value: i64) -> HeightMap {
    HeightMap::new(vec![value; CHUNK_SIZE * CHUNK_SIZE]).unwrap()
}

#[test]
fn new_chunk_is_empty() {
    let chunk = Chunk::new();
    assert_eq!(chunk.blocks.len(), CHUNK_VOLUME);
    assert!(chunk.blocks.iter().all(|cell| cell.is_none()));
    assert!(!chunk.full);
    assert!(chunk.geometry.is_none());
    let other = Chunk::default();
    assert_eq!(other.blocks, chunk.blocks);
    assert!(chunk.is_whole());
    let mut broken = Chunk::new();
    broken.blocks.push(None);
    assert!(!broken.is_whole());
}

#[test]
fn cells_are_laid_out_layer_by_layer_row_by_row() {
    let mut chunk = Chunk::new();
    chunk.set(3, 2, 1, block(BlockType::Grass));
    assert_eq!(chunk.blocks[(2 * 32 + 1) * 32 + 3], block(BlockType::Grass));
    assert_eq!(chunk.get(3, 2, 1), block(BlockType::Grass));
    assert_eq!(chunk.get(1, 2, 3), None);
    assert_eq!(chunk.blocks.iter().filter(|cell| cell.is_some()).count(), 1);
    chunk.set(3, 2, 1, None);
    assert!(chunk.blocks.iter().all(|cell| cell.is_none()));
}

#[test]
fn fullness_is_true_only_without_an_empty_cell() {
    let mut chunk = Chunk::new();
    chunk.update_fullness();
    assert!(!chunk.full);
    for y in 0..CHUNK_SIZE {
        for z in 0..CHUNK_SIZE {
            for x in 0..CHUNK_SIZE {
                chunk.set(x, y, z, block(BlockType::Stone));
            }
        }
    }
    // Stale until recomputed.
    assert!(!chunk.full);
    chunk.update_fullness();
    assert!(chunk.full);
    chunk.set(31, 31, 31, None);
    chunk.update_fullness();
    assert!(!chunk.full);
    chunk.set(31, 31, 31, block(BlockType::Water));
    chunk.update_fullness();
    assert!(chunk.full);
}

#[test]
fn block_coordinates_become_cells_of_the_chunk_that_holds_them() {
    let local = |c: (i64, i64, i64), b: (i64, i64, i64)| {
        Chunk::block_coords_to_local(GridPoint::new(c.0, c.1, c.2), GridPoint::new(b.0, b.1, b.2))
    };
    assert_eq!(local((0, 0, 0), (0, 0, 0)), Some(LocalPoint::new(0, 0, 0)));
    assert_eq!(local((0, 0, 0), (31, 31, 31)), Some(LocalPoint::new(31, 31, 31)));
    assert_eq!(local((0, 0, 0), (32, 0, 0)), None);
    assert_eq!(local((0, 0, 0), (0, -1, 0)), None);
    assert_eq!(local((1, 2, 3), (33, 64, 127)), Some(LocalPoint::new(1, 0, 31)));
    assert_eq!(local((-1, -1, -1), (-1, -32, -17)), Some(LocalPoint::new(31, 0, 15)));
    assert_eq!(local((-1, -1, -1), (-33, -32, -17)), None);
    // Far from the origin the product does not fit the coordinate type, but
    // the answer is still the mathematical one.
    assert_eq!(local((i64::MAX, 0, 0), (i64::MAX, 0, 0)), None);
    assert_eq!(local((i64::MIN, 0, 0), (i64::MIN, 0, 0)), None);
    assert_eq!(
        local((i64::MAX / 32, 0, 0), (i64::MAX, 0, 0)),
        Some(LocalPoint::new(31, 0, 0))
    );
    assert_eq!(
        local((i64::MIN / 32, 0, 0), (i64::MIN, 0, 0)),
        Some(LocalPoint::new(0, 0, 0))
    );
}

#[test]
fn height_map_needs_one_sample_for_each_column() {
    assert!(HeightMap::new(Vec::new()).is_none());
    assert!(HeightMap::new(vec![0; 1023]).is_none());
    assert!(HeightMap::new(vec![0; 1025]).is_none());
    let mut samples = vec![0i64; 1024];
    samples[5 * 32 + 7] = 99;
    let map = HeightMap::new(samples).unwrap();
    assert_eq!(map.get_value(7, 5), 99);
    assert_eq!(map.get_value(5, 7), 0);
}

#[test]
fn generated_column_is_layered_from_bedrock_to_grass() {
    // Ground at height 20 with four blocks of dirt, in the lowest chunk.
    let mut chunk = Chunk::new();
    chunk.generate(0, &flat(20), &flat(4));
    let column: Vec<Option<BlockType>> =
        (0..CHUNK_SIZE).map(|y| chunk.get(9, y, 9).map(|b| b.block_type)).collect();
    for (y, cell) in column.iter().enumerate() {
        let expected = if y == 0 {
            BlockType::Bedrock
        } else if y < 16 {
            BlockType::Stone
        } else if y < 20 {
            BlockType::Dirt
        } else if y == 20 {
            BlockType::Grass
        } else {
            BlockType::Water
        };
        assert_eq!(*cell, Some(expected), "at height {}", y);
    }
}

#[test]
fn dirt_depth_is_held_between_three_and_ten() {
    let mut shallow = Chunk::new();
    shallow.generate(5, &flat(5 * 32 + 20), &flat(-7));
    assert_eq!(shallow.get(0, 16, 0), block(BlockType::Stone));
    assert_eq!(shallow.get(0, 17, 0), block(BlockType::Dirt));
    assert_eq!(shallow.get(0, 19, 0), block(BlockType::Dirt));
    assert_eq!(shallow.get(0, 20, 0), block(BlockType::Grass));
    let mut deep = Chunk::new();
    deep.generate(5, &flat(5 * 32 + 20), &flat(1000));
    assert_eq!(deep.get(0, 9, 0), block(BlockType::Stone));
    assert_eq!(deep.get(0, 10, 0), block(BlockType::Dirt));
    assert_eq!(deep.get(0, 19, 0), block(BlockType::Dirt));
    assert_eq!(deep.get(0, 20, 0), block(BlockType::Grass));
    // Above sea level nothing floods the air, and there is no bedrock.
    assert_eq!(deep.get(0, 21, 0), None);
    assert_eq!(deep.get(0, 0, 0), block(BlockType::Stone));
}

#[test]
fn chunks_above_and_below_the_ground_are_air_or_rock() {
    let mut below = Chunk::new();
    below.generate(1, &flat(128), &flat(5));
    assert!(below.blocks.iter().all(|c| *c == block(BlockType::Stone)));
    let mut crossing = Chunk::new();
    crossing.generate(3, &flat(128), &flat(5));
    assert_eq!(crossing.get(4, 26, 4), block(BlockType::Stone));
    assert_eq!(crossing.get(4, 27, 4), block(BlockType::Dirt));
    assert_eq!(crossing.get(4, 31, 4), block(BlockType::Dirt));
    let mut cap = Chunk::new();
    cap.generate(4, &flat(128), &flat(5));
    assert_eq!(cap.get(4, 0, 4), block(BlockType::Grass));
    assert_eq!(cap.get(4, 1, 4), None);
    let mut sky = Chunk::new();
    sky.generate(6, &flat(128), &flat(5));
    assert!(sky.blocks.iter().all(|c| c.is_none()));
    let mut sea = Chunk::new();
    sea.generate(2, &flat(40), &flat(5));
    assert!(sea.blocks.iter().all(|c| *c == block(BlockType::Water)));
    let mut abyss = Chunk::new();
    abyss.generate(-3, &flat(-500), &flat(5));
    assert!(abyss.blocks.iter().all(|c| *c == block(BlockType::Water)));
}

#[test]
fn each_column_follows_its_own_samples() {
    let mut terrain = vec![10i64; 1024];
    let mut stone = vec![3i64; 1024];
    terrain[2 * 32 + 1] = 14;
    stone[2 * 32 + 1] = 6;
    let mut chunk = Chunk::new();
    chunk.generate(0, &HeightMap::new(terrain).unwrap(), &HeightMap::new(stone).unwrap());
    assert_eq!(chunk.get(1, 7, 2), block(BlockType::Stone));
    assert_eq!(chunk.get(1, 8, 2), block(BlockType::Dirt));
    assert_eq!(chunk.get(1, 14, 2), block(BlockType::Grass));
    assert_eq!(chunk.get(2, 6, 1), block(BlockType::Stone));
    assert_eq!(chunk.get(2, 7, 1), block(BlockType::Dirt));
    assert_eq!(chunk.get(2, 10, 1), block(BlockType::Grass));
    assert_eq!(chunk.get(2, 14, 1), block(BlockType::Water));
}

#[test]
fn generating_again_changes_nothing() {
    let terrain = HeightMap::new((0..1024).map(|i| 100 + (i % 37)).collect()).unwrap();
    let stone = HeightMap::new((0..1024).map(|i| (i % 13) - 2).collect()).unwrap();
    let mut chunk = Chunk::new();
    chunk.generate(3, &terrain, &stone);
    let once = chunk.blocks.clone();
    chunk.generate(3, &terrain, &stone);
    assert_eq!(chunk.blocks, once);
    let mut other = Chunk::new();
    other.generate(3, &terrain, &stone);
    assert_eq!(other.blocks, once);
}

#[test]
fn generation_keeps_what_stands_above_the_ground() {
    let mut chunk = Chunk::new();
    chunk.set(0, 30, 0, block(BlockType::Cobblestone));
    chunk.generate(5, &flat(5 * 32 + 3), &flat(3));
    assert_eq!(chunk.get(0, 30, 0), block(BlockType::Cobblestone));
    assert_eq!(chunk.get(0, 3, 0), block(BlockType::Grass));
    assert_eq!(chunk.get(0, 29, 0), None);
}

#[test]
fn block_kinds_know_their_properties() {
    assert!(BlockType::Water.is_transparent());
    assert!(BlockType::Water.is_animated());
    for kind in [
        BlockType::Cobblestone,
        BlockType::Dirt,
        BlockType::Stone,
        BlockType::Grass,
        BlockType::Bedrock,
    ] {
        assert!(!kind.is_transparent());
        assert!(!kind.is_animated());
    }
    assert_eq!(BlockType::Grass.texture_indices(), (3, 3, 1, 4, 3, 3));
    assert_eq!(BlockType::Stone.texture_indices(), (2, 2, 2, 2, 2, 2));
    for code in 0..=255u8 {
        match BlockType::from_code(code) {
            Some(kind) => assert_eq!(kind.code(), code),
            None => assert!(code == 0 || code > 6),
        }
    }
    assert_eq!(BlockType::from_code(6), Some(BlockType::Water));
}
