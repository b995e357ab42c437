use fish_shoal::Chunks;
use fish_shoal::Config;
use fish_shoal::Vec2;
use fish_shoal::SCALE;

fn mock_id(index: usize) -> usize {
    index
}

#[test]
fn chunk_new() {
    let chunk_size: i64 = 32 * SCALE;
    let chunks_repository: Chunks = Chunks::new(chunk_size);

    assert_eq!(chunks_repository.chunk_size, chunk_size);
    assert!(chunks_repository.is_empty());
}

#[test]
fn chunk_clear() {
    let chunk_size: i64 = 10 * SCALE;
    let mut chunks_repository: Chunks = Chunks::new(chunk_size);
    let entity_position: Vec2 = Vec2::new(5 * SCALE, 5 * SCALE);
    let entity_identifier: usize = mock_id(1);

    chunks_repository.store(&entity_position, entity_identifier);
    assert!(!chunks_repository.is_empty());

    chunks_repository.clear();
    assert!(chunks_repository.is_empty());
}

#[test]
fn chunk_resize() {
    let initial_chunk_size: i64 = 32 * SCALE;
    let target_chunk_size: i64 = 64 * SCALE;
    let mut chunks_repository: Chunks = Chunks::new(initial_chunk_size);

    chunks_repository.resize(target_chunk_size);

    assert_eq!(chunks_repository.chunk_size, target_chunk_size);
}

#[test]
fn chunk_store() {
    let chunk_size: i64 = 10 * SCALE;
    let mut chunks_repository: Chunks = Chunks::new(chunk_size);
    let entity_position: Vec2 = Vec2::new(15 * SCALE, 15 * SCALE);
    let entity_identifier: usize = mock_id(42);

    let expected_chunk_identifier: u64 = 4;

    chunks_repository.store(&entity_position, entity_identifier);

    let stored_chunk: &Vec<usize> = chunks_repository
        .chunks
        .get(&expected_chunk_identifier)
        .expect("Chunk should exist after storage");

    assert!(stored_chunk.contains(&entity_identifier));
}

#[test]
fn chunk_remove() {
    let chunk_size: i64 = 10 * SCALE;
    let mut chunks_repository: Chunks = Chunks::new(chunk_size);
    let entity_position: Vec2 = Vec2::new(5 * SCALE, 5 * SCALE);
    let entity_identifier: usize = mock_id(100);

    chunks_repository.store(&entity_position, entity_identifier);
    chunks_repository.remove(&entity_position, entity_identifier);

    assert!(chunks_repository.is_empty());
}

#[test]
fn chunk_load_chunk() {
    let chunk_size: i64 = 10 * SCALE;
    let mut chunks_repository: Chunks = Chunks::new(chunk_size);

    chunks_repository.store(&Vec2::new(SCALE, SCALE), 7);
    chunks_repository.store(&Vec2::new(2 * SCALE, 3 * SCALE), 8);
    chunks_repository.store(&Vec2::new(15 * SCALE, SCALE), 9);

    let same_cell: Vec<usize> = chunks_repository.load_chunk(&Vec2::new(4 * SCALE, 4 * SCALE));
    assert_eq!(same_cell.len(), 2);
    assert!(same_cell.contains(&7));
    assert!(same_cell.contains(&8));
    assert!(!same_cell.contains(&9));

    let empty_cell: Vec<usize> = chunks_repository.load_chunk(&Vec2::new(50 * SCALE, 50 * SCALE));
    assert!(empty_cell.is_empty());
}

#[test]
fn chunk_load_neighbors() {
    let mut cfg: Config = Config::default();
    cfg.width = 100 * SCALE;
    cfg.height = 100 * SCALE;
    let chunk_size: i64 = 10 * SCALE;
    let mut chunks_repository: Chunks = Chunks::new(chunk_size);

    // Query point in cell (5, 5); ids in every cell one step away, one in the
    // center cell itself, one two steps away.
    chunks_repository.store(&Vec2::new(45 * SCALE, 45 * SCALE), 1); // (4, 4)
    chunks_repository.store(&Vec2::new(55 * SCALE, 45 * SCALE), 2); // (5, 4)
    chunks_repository.store(&Vec2::new(65 * SCALE, 45 * SCALE), 3); // (6, 4)
    chunks_repository.store(&Vec2::new(45 * SCALE, 55 * SCALE), 4); // (4, 5)
    chunks_repository.store(&Vec2::new(65 * SCALE, 55 * SCALE), 5); // (6, 5)
    chunks_repository.store(&Vec2::new(45 * SCALE, 65 * SCALE), 6); // (4, 6)
    chunks_repository.store(&Vec2::new(55 * SCALE, 65 * SCALE), 7); // (5, 6)
    chunks_repository.store(&Vec2::new(65 * SCALE, 65 * SCALE), 8); // (6, 6)
    chunks_repository.store(&Vec2::new(55 * SCALE, 55 * SCALE), 9); // center (5, 5)
    chunks_repository.store(&Vec2::new(85 * SCALE, 55 * SCALE), 10); // (8, 5), two away

    let neighbors: Vec<usize> =
        chunks_repository.load_neighbors(&cfg, &Vec2::new(55 * SCALE, 55 * SCALE));

    // Every cell within one unit (by cell size) contributes its bucket.
    for id in 1..=8 {
        assert!(neighbors.contains(&id), "id {id} from an adjacent cell is missing");
    }
    assert!(!neighbors.contains(&9), "the center cell is not part of the eight neighbors");
    assert!(!neighbors.contains(&10), "a cell two steps away must not contribute");
}

#[test]
fn chunk_load_neighbors_wraps_toroidally() {
    let mut cfg: Config = Config::default();
    cfg.width = 100 * SCALE;
    cfg.height = 100 * SCALE;
    let chunk_size: i64 = 10 * SCALE;
    let mut chunks_repository: Chunks = Chunks::new(chunk_size);

    // Query point in cell (0, 0); an id on the opposite edge, cell (9, 9),
    // counts as adjacent under the toroidal wrap.
    chunks_repository.store(&Vec2::new(95 * SCALE, 95 * SCALE), 3);

    let neighbors: Vec<usize> =
        chunks_repository.load_neighbors(&cfg, &Vec2::new(5 * SCALE, 5 * SCALE));
    assert!(neighbors.contains(&3));
}

#[test]
fn chunk_id_from_pos() {
    let chunk_size: i64 = 10 * SCALE;
    let chunks_repository: Chunks = Chunks::new(chunk_size);
    let entity_position: Vec2 = Vec2::new(12 * SCALE, 12 * SCALE);

    let expected_identifier: u64 = 4;
    let actual_identifier: u64 = chunks_repository.chunk_id_from_pos(&entity_position);

    assert_eq!(actual_identifier, expected_identifier);
}

#[test]
fn chunk_id_from_coords() {
    let coordinate_x: u64 = 1;
    let coordinate_y: u64 = 1;

    let expected_identifier: u64 = 4;
    let actual_identifier: u64 = Chunks::chunk_id_from_coords(coordinate_x, coordinate_y);

    assert_eq!(actual_identifier, expected_identifier);
}

#[test]
fn chunk_coords() {
    let chunk_size: i64 = 16 * SCALE;
    let chunks_repository: Chunks = Chunks::new(chunk_size);
    let entity_position: Vec2 = Vec2::new(33 * SCALE, 15 * SCALE);

    let expected_coordinates: (u64, u64) = (2, 0);
    let actual_coordinates: (u64, u64) = chunks_repository.chunk_coords(&entity_position);

    assert_eq!(actual_coordinates, expected_coordinates);
}

#[test]
fn chunk_id_deterministic() {
    let chunks_repository: Chunks = Chunks::new(7 * SCALE);
    let position: Vec2 = Vec2::new(33 * SCALE, 15 * SCALE);

    let first: u64 = chunks_repository.chunk_id_from_pos(&position);
    let second: u64 = chunks_repository.chunk_id_from_pos(&position);
    assert_eq!(first, second);
}
