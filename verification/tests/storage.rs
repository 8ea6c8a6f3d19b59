use voxel_world::world::block::{Block, BlockType};
use voxel_world::world::chunk::{Chunk, CHUNK_SIZE, CHUNK_VOLUME};
use voxel_world::world::coords::GridPoint;
use voxel_world::world::storage::{chunk_key, DecodeError};
use voxel_world::world::terrain::HeightMap;

fn flat(value: i64) -> HeightMap {
    HeightMap::new(vec![value; CHUNK_SIZE * CHUNK_SIZE]).unwrap()
}

fn key(x: i64, y: i64, z: i64) -> String {
    String::from_utf8(chunk_key(GridPoint::new(x, y, z))).unwrap()
}

#[test]
fn key_is_the_coordinates_in_decimal() {
    assert_eq!(key(0, 0, 0), "0_0_0");
    assert_eq!(key(1, 2, 3), "1_2_3");
    assert_eq!(key(-1, 0, 12), "-1_0_12");
    assert_eq!(key(10, -200, 3005), "10_-200_3005");
    assert_eq!(
        key(i64::MAX, i64::MIN, 9),
        "9223372036854775807_-9223372036854775808_9"
    );
    for &(x, y, z) in &[(7i64, -7i64, 70i64), (99, 100, 101), (-1234567, 0, 1)] {
        assert_eq!(key(x, y, z), format!("{}_{}_{}", x, y, z));
    }
}

#[test]
fn record_holds_one_byte_for_each_cell() {
    let mut chunk = Chunk::new();
    chunk.set(1, 0, 0, Some(Block { block_type: BlockType::Cobblestone }));
    chunk.set(0, 1, 0, Some(Block { block_type: BlockType::Water }));
    chunk.set(0, 0, 1, Some(Block { block_type: BlockType::Grass }));
    let record = chunk.save(GridPoint::new(4, -5, 6));
    assert_eq!(record.key, b"4_-5_6".to_vec());
    assert_eq!(record.value.len(), CHUNK_VOLUME);
    assert_eq!(record.value[1], 1);
    assert_eq!(record.value[32 * 32], 6);
    assert_eq!(record.value[32], 4);
    assert_eq!(record.value.iter().filter(|b| **b != 0).count(), 3);
    assert_eq!(record.value, chunk.encode());
}

#[test]
fn saved_chunk_loads_back_cell_for_cell() {
    let mut chunk = Chunk::new();
    chunk.generate(
        3,
        &HeightMap::new((0..1024).map(|i| 96 + (i % 41)).collect()).unwrap(),
        &HeightMap::new((0..1024).map(|i| i % 12).collect()).unwrap(),
    );
    chunk.set(7, 7, 7, None);
    chunk.set(8, 30, 8, Some(Block { block_type: BlockType::Cobblestone }));
    let position = GridPoint::new(-2, 3, 11);
    let record = chunk.save(position);

    let mut fresh = Chunk::new();
    let generated = fresh.load(position, Some(record.value), &flat(0), &flat(0));
    assert_eq!(generated, Ok(false));
    assert_eq!(fresh.blocks, chunk.blocks);
    assert!(!fresh.full);
    assert!(fresh.geometry.is_none());
}

#[test]
fn every_kind_survives_the_round_trip() {
    let kinds = [
        None,
        Some(BlockType::Cobblestone),
        Some(BlockType::Dirt),
        Some(BlockType::Stone),
        Some(BlockType::Grass),
        Some(BlockType::Bedrock),
        Some(BlockType::Water),
    ];
    let mut chunk = Chunk::new();
    for (i, kind) in kinds.iter().enumerate() {
        chunk.set(i, 0, 0, kind.map(|k| Block { block_type: k }));
    }
    let bytes = chunk.encode();
    assert_eq!(&bytes[0..7], &[0, 1, 2, 3, 4, 5, 6]);
    let cells = Chunk::decode(&bytes).unwrap();
    assert_eq!(cells, chunk.blocks);
}

#[test]
fn missing_record_means_generation() {
    let position = GridPoint::new(0, 0, 0);
    let mut chunk = Chunk::new();
    let generated = chunk.load(position, None, &flat(20), &flat(4));
    assert_eq!(generated, Ok(true));
    let mut expected = Chunk::new();
    expected.generate(0, &flat(20), &flat(4));
    assert_eq!(chunk.blocks, expected.blocks);
    // Loading the same missing chunk again gives the same cells.
    let mut again = Chunk::new();
    assert_eq!(again.load(position, None, &flat(20), &flat(4)), Ok(true));
    assert_eq!(again.blocks, chunk.blocks);
    // The height of the chunk is the one of its position.
    let mut high = Chunk::new();
    assert_eq!(high.load(GridPoint::new(0, 9, 0), None, &flat(20), &flat(4)), Ok(true));
    assert!(high.blocks.iter().all(|c| c.is_none()));
}

#[test]
fn record_of_the_wrong_length_is_refused() {
    assert_eq!(
        Chunk::decode(&Vec::new()),
        Err(DecodeError::WrongLength { found: 0 })
    );
    assert_eq!(
        Chunk::decode(&vec![0u8; CHUNK_VOLUME - 1]),
        Err(DecodeError::WrongLength { found: CHUNK_VOLUME - 1 })
    );
    assert_eq!(
        Chunk::decode(&vec![0u8; CHUNK_VOLUME + 1]),
        Err(DecodeError::WrongLength { found: CHUNK_VOLUME + 1 })
    );
}

#[test]
fn record_with_an_unknown_block_is_refused_at_the_first() {
    let mut bytes = vec![3u8; CHUNK_VOLUME];
    bytes[500] = 7;
    bytes[900] = 255;
    assert_eq!(
        Chunk::decode(&bytes),
        Err(DecodeError::UnknownBlock { index: 500, code: 7 })
    );
    bytes[500] = 6;
    assert_eq!(
        Chunk::decode(&bytes),
        Err(DecodeError::UnknownBlock { index: 900, code: 255 })
    );
    bytes[900] = 0;
    assert!(Chunk::decode(&bytes).is_ok());
}

#[test]
fn failed_load_leaves_the_chunk_as_it_was() {
    let mut chunk = Chunk::new();
    chunk.set(1, 2, 3, Some(Block { block_type: BlockType::Dirt }));
    chunk.update_geometry(GridPoint::new(0, 0, 0), None);
    let before = chunk.blocks.clone();
    let mut bytes = vec![0u8; CHUNK_VOLUME];
    bytes[CHUNK_VOLUME - 1] = 9;
    let result = chunk.load(GridPoint::new(0, 0, 0), Some(bytes), &flat(20), &flat(4));
    assert_eq!(
        result,
        Err(DecodeError::UnknownBlock { index: CHUNK_VOLUME - 1, code: 9 })
    );
    assert_eq!(chunk.blocks, before);
    assert!(chunk.geometry.is_some());
    let short = chunk.load(GridPoint::new(0, 0, 0), Some(vec![1, 2, 3]), &flat(20), &flat(4));
    assert_eq!(short, Err(DecodeError::WrongLength { found: 3 }));
    assert_eq!(chunk.blocks, before);
}

#[test]
fn keys_of_different_chunks_differ() {
    let mut seen = std::collections::HashSet::new();
    for x in -12i64..=12 {
        for y in -12i64..=12 {
            for z in -12i64..=12 {
                assert!(seen.insert(chunk_key(GridPoint::new(x, y, z))));
            }
        }
    }
    assert_ne!(key(1, -1, 1), key(1, 1, -1));
    assert_ne!(key(11, 1, 1), key(1, 11, 1));
    assert_ne!(key(-1, 0, 0), key(1, 0, 0));
}
