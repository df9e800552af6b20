use hexworld::chunk::ChunkCoord;
use hexworld::hex::HexCoord;
use hexworld::streaming::ChunkStreamingManager;
use hexworld::terrain::TerrainGenerator;

fn generator() -> TerrainGenerator {
    TerrainGenerator::default()
}

#[test]
fn one_loader_radius_two_loads_exactly_25_chunks() {
    let gen = generator();
    let mut mgr = ChunkStreamingManager::new(42, 2);
    let t = mgr.step(&vec![ChunkCoord::new(0, 0)], &gen);
    assert_eq!(mgr.resident_count(), 25);
    assert_eq!(t.loaded.len(), 25);
    assert_eq!(t.unloaded.len(), 0);
    for x in -2..=2 {
        for y in -2..=2 {
            assert!(mgr.is_chunk_resident(ChunkCoord::new(x, y)));
        }
    }
    assert!(!mgr.is_chunk_resident(ChunkCoord::new(3, 0)));
    assert!(!mgr.is_chunk_resident(ChunkCoord::new(0, -3)));
}

#[test]
fn teleporting_loader_swaps_the_resident_window() {
    let gen = generator();
    let mut mgr = ChunkStreamingManager::new(42, 2);
    mgr.step(&vec![ChunkCoord::new(0, 0)], &gen);
    let t = mgr.step(&vec![ChunkCoord::new(10, 10)], &gen);
    assert_eq!(mgr.resident_count(), 25);
    assert_eq!(t.loaded.len(), 25);
    assert_eq!(t.unloaded.len(), 25);
    for x in -2..=2 {
        for y in -2..=2 {
            assert!(!mgr.is_chunk_resident(ChunkCoord::new(x, y)));
            assert!(mgr.is_chunk_resident(ChunkCoord::new(10 + x, 10 + y)));
        }
    }
}

#[test]
fn rerequesting_resident_chunks_is_a_no_op() {
    let gen = generator();
    let mut mgr = ChunkStreamingManager::new(42, 2);
    mgr.step(&vec![ChunkCoord::new(0, 0)], &gen);
    let seed_before = mgr.get_chunk(ChunkCoord::new(1, 1)).unwrap().seed;
    let tiles_before = mgr.get_chunk(ChunkCoord::new(1, 1)).unwrap().tile_count();
    let t = mgr.step(&vec![ChunkCoord::new(0, 0)], &gen);
    assert_eq!(t.loaded.len(), 0);
    assert_eq!(t.unloaded.len(), 0);
    assert_eq!(mgr.resident_count(), 25);
    let chunk = mgr.get_chunk(ChunkCoord::new(1, 1)).unwrap();
    assert_eq!(chunk.seed, seed_before);
    assert_eq!(chunk.tile_count(), tiles_before);
}

#[test]
fn moving_one_chunk_keeps_the_overlap() {
    let gen = generator();
    let mut mgr = ChunkStreamingManager::new(7, 2);
    mgr.step(&vec![ChunkCoord::new(0, 0)], &gen);
    let t = mgr.step(&vec![ChunkCoord::new(1, 0)], &gen);
    // Window moves from x in [-2,2] to x in [-1,3]: one column leaves,
    // one column enters.
    assert_eq!(t.loaded.len(), 5);
    assert_eq!(t.unloaded.len(), 5);
    assert_eq!(mgr.resident_count(), 25);
    for y in -2..=2 {
        assert!(!mgr.is_chunk_resident(ChunkCoord::new(-2, y)));
        assert!(mgr.is_chunk_resident(ChunkCoord::new(3, y)));
    }
}

#[test]
fn radius_zero_keeps_exactly_the_loader_chunk() {
    let gen = generator();
    let mut mgr = ChunkStreamingManager::new(3, 0);
    let t = mgr.step(&vec![ChunkCoord::new(4, -7)], &gen);
    assert_eq!(mgr.resident_count(), 1);
    assert_eq!(t.loaded, vec![ChunkCoord::new(4, -7)]);
    assert!(mgr.is_chunk_resident(ChunkCoord::new(4, -7)));
}

#[test]
fn multiple_loaders_union_their_windows() {
    let gen = generator();
    let mut mgr = ChunkStreamingManager::new(42, 1);
    mgr.step(&vec![ChunkCoord::new(0, 0), ChunkCoord::new(10, 10)], &gen);
    assert_eq!(mgr.resident_count(), 18);
    assert!(mgr.is_chunk_resident(ChunkCoord::new(-1, 1)));
    assert!(mgr.is_chunk_resident(ChunkCoord::new(11, 9)));
    assert!(!mgr.is_chunk_resident(ChunkCoord::new(5, 5)));
}

#[test]
fn overlapping_loaders_do_not_duplicate_chunks() {
    let gen = generator();
    let mut mgr = ChunkStreamingManager::new(42, 1);
    let t = mgr.step(&vec![ChunkCoord::new(0, 0), ChunkCoord::new(1, 1)], &gen);
    // Two 3x3 windows sharing a 2x2 overlap cover 14 chunks.
    assert_eq!(mgr.resident_count(), 14);
    assert_eq!(t.loaded.len(), 14);
}

#[test]
fn no_loaders_unloads_everything() {
    let gen = generator();
    let mut mgr = ChunkStreamingManager::new(42, 2);
    mgr.step(&vec![ChunkCoord::new(0, 0)], &gen);
    let t = mgr.step(&vec![], &gen);
    assert_eq!(mgr.resident_count(), 0);
    assert_eq!(t.loaded.len(), 0);
    assert_eq!(t.unloaded.len(), 25);
}

#[test]
fn loaded_chunks_carry_generated_tiles() {
    let gen = generator();
    let mut mgr = ChunkStreamingManager::new(42, 0);
    mgr.step(&vec![ChunkCoord::new(0, 0)], &gen);
    let chunk = mgr.get_chunk(ChunkCoord::new(0, 0)).unwrap();
    assert!(chunk.is_loaded);
    assert_eq!(chunk.tile_count(), 256);
    assert_eq!(chunk.seed, 42 ^ ChunkCoord::new(0, 0).position_hash());
    let tile = mgr.get_tile(HexCoord::new(5, 7)).unwrap();
    assert_eq!(tile.elevation, gen.generate_elevation(HexCoord::new(5, 7)));
    assert_eq!(tile.biome, gen.get_biome(tile.elevation));
    assert_eq!(mgr.get_tile(HexCoord::new(100, 100)), None);
    assert_eq!(mgr.get_tile(HexCoord::new(-1, 0)), None);
}

#[test]
fn get_tile_uses_floor_division_for_negative_coordinates() {
    let gen = generator();
    let mut mgr = ChunkStreamingManager::new(42, 1);
    mgr.step(&vec![ChunkCoord::new(-1, -1)], &gen);
    // Hex (-1, -1) belongs to chunk (-1, -1), which is resident.
    let tile = mgr.get_tile(HexCoord::new(-1, -1)).unwrap();
    assert_eq!(tile.elevation, gen.generate_elevation(HexCoord::new(-1, -1)));
    // Hex (-17, 0) belongs to chunk (-2, 0), which is resident too.
    assert!(mgr.get_tile(HexCoord::new(-17, 0)).is_some());
    // Hex (-33, 0) belongs to chunk (-3, 0), which is not.
    assert_eq!(mgr.get_tile(HexCoord::new(-33, 0)), None);
}

#[test]
fn neighbor_chunks_lists_resident_rectangular_neighbors() {
    let gen = generator();
    let mut mgr = ChunkStreamingManager::new(42, 1);
    mgr.step(&vec![ChunkCoord::new(0, 0)], &gen);
    // All 8 neighbors of the centre are resident.
    let centre = mgr.get_neighbor_chunks(ChunkCoord::new(0, 0));
    assert_eq!(centre.len(), 8);
    assert!(!centre.contains(&ChunkCoord::new(0, 0)));
    // A corner of the window has only 3 resident neighbors.
    let corner = mgr.get_neighbor_chunks(ChunkCoord::new(1, 1));
    assert_eq!(corner.len(), 3);
    assert!(corner.contains(&ChunkCoord::new(0, 0)));
    assert!(corner.contains(&ChunkCoord::new(0, 1)));
    assert!(corner.contains(&ChunkCoord::new(1, 0)));
    // Outside the window nothing is adjacent and resident.
    let outside = mgr.get_neighbor_chunks(ChunkCoord::new(5, 5));
    assert_eq!(outside.len(), 0);
}

#[test]
fn manager_reports_configuration() {
    let mgr = ChunkStreamingManager::new(9, 4);
    assert_eq!(mgr.world_seed, 9);
    assert_eq!(mgr.load_radius, 4);
    assert_eq!(mgr.resident_count(), 0);
    assert_eq!(mgr.resident_coords(), vec![]);
}

#[test]
fn resident_coords_match_residency() {
    let gen = generator();
    let mut mgr = ChunkStreamingManager::new(42, 1);
    mgr.step(&vec![ChunkCoord::new(2, 2)], &gen);
    let coords = mgr.resident_coords();
    assert_eq!(coords.len(), 9);
    for c in &coords {
        assert!(mgr.is_chunk_resident(*c));
        assert!((c.x - 2).abs() <= 1 && (c.y - 2).abs() <= 1);
    }
}
