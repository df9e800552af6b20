use hexworld::chunk::{Biome, Chunk, ChunkCoord, CHUNK_SIZE};
use hexworld::hex::HexCoord;
use hexworld::terrain::{TerrainGenerator, ELEVATION_SCALE};

fn ladder_generator() -> TerrainGenerator {
    // Thresholds 0.2 / 0.4 / 0.7 in fixed point.
    TerrainGenerator::new(42, 50, 4, 500_000, 200_000, 400_000, 700_000)
}

#[test]
fn default_configuration_values() {
    let g = TerrainGenerator::default();
    assert_eq!(g.seed, 42);
    assert_eq!(g.scale, 50);
    assert_eq!(g.octaves, 4);
    assert_eq!(g.persistence, 500_000);
    assert_eq!(g.ocean_threshold, 200_000);
    assert_eq!(g.plains_threshold, 400_000);
    assert_eq!(g.forest_threshold, 700_000);
    assert_eq!(g, ladder_generator());
}

#[test]
fn elevation_is_deterministic() {
    let g = ladder_generator();
    let coords = [
        HexCoord::new(0, 0),
        HexCoord::new(17, -3),
        HexCoord::new(-1000, 999),
        HexCoord::new(i32::MAX, i32::MIN),
    ];
    for c in coords {
        let first = g.generate_elevation(c);
        let second = g.generate_elevation(c);
        assert_eq!(first, second);
    }
}

#[test]
fn elevation_stays_in_unit_interval() {
    let g = ladder_generator();
    for q in -20..20 {
        for r in -20..20 {
            let e = g.generate_elevation(HexCoord::new(q * 97, r * 89));
            assert!(e <= ELEVATION_SCALE);
        }
    }
}

#[test]
fn biome_ladder_classification() {
    let g = ladder_generator();
    assert_eq!(g.get_biome(100_000), Biome::Ocean);
    assert_eq!(g.get_biome(300_000), Biome::Plains);
    assert_eq!(g.get_biome(500_000), Biome::Forest);
    assert_eq!(g.get_biome(900_000), Biome::Mountains);
}

#[test]
fn biome_ladder_boundaries_are_strict() {
    let g = ladder_generator();
    assert_eq!(g.get_biome(0), Biome::Ocean);
    assert_eq!(g.get_biome(199_999), Biome::Ocean);
    assert_eq!(g.get_biome(200_000), Biome::Plains);
    assert_eq!(g.get_biome(399_999), Biome::Plains);
    assert_eq!(g.get_biome(400_000), Biome::Forest);
    assert_eq!(g.get_biome(699_999), Biome::Forest);
    assert_eq!(g.get_biome(700_000), Biome::Mountains);
    assert_eq!(g.get_biome(ELEVATION_SCALE), Biome::Mountains);
}

#[test]
fn chunk_fill_populates_every_tile() {
    let g = ladder_generator();
    let mut chunk = Chunk::new(ChunkCoord::new(0, 0), 42);
    g.generate_chunk_terrain(&mut chunk);
    assert_eq!(chunk.tile_count(), (CHUNK_SIZE * CHUNK_SIZE) as usize);
    for q in 0..CHUNK_SIZE {
        for r in 0..CHUNK_SIZE {
            let tile = chunk.get_tile(HexCoord::new(q, r)).unwrap();
            assert_eq!(tile.elevation, g.generate_elevation(HexCoord::new(q, r)));
            assert_eq!(tile.biome, g.get_biome(tile.elevation));
        }
    }
    assert_eq!(chunk.get_tile(HexCoord::new(CHUNK_SIZE, 0)), None);
    assert_eq!(chunk.get_tile(HexCoord::new(-1, 0)), None);
}

#[test]
fn chunk_fill_uses_global_coordinates() {
    let g = ladder_generator();
    let mut chunk = Chunk::new(ChunkCoord::new(1, 2), 42);
    g.generate_chunk_terrain(&mut chunk);
    assert_eq!(chunk.tile_count(), 256);
    // The chunk at (1, 2) owns hex coordinates q in [16, 32), r in [32, 48).
    assert!(chunk.get_tile(HexCoord::new(16, 32)).is_some());
    assert!(chunk.get_tile(HexCoord::new(31, 47)).is_some());
    assert_eq!(chunk.get_tile(HexCoord::new(15, 32)), None);
    assert_eq!(chunk.get_tile(HexCoord::new(16, 48)), None);
    let tile = chunk.get_tile(HexCoord::new(20, 40)).unwrap();
    assert_eq!(tile.elevation, g.generate_elevation(HexCoord::new(20, 40)));
}

#[test]
fn chunk_fill_skips_tiles_whose_global_coordinate_overflows() {
    let g = ladder_generator();
    // 134217727 * 16 + 15 == i32::MAX: every global coordinate still fits.
    let mut edge = Chunk::new(ChunkCoord::new(134_217_727, 0), 42);
    g.generate_chunk_terrain(&mut edge);
    assert_eq!(edge.tile_count(), 256);
    assert!(edge.get_tile(HexCoord::new(i32::MAX, 15)).is_some());
    // 134217728 * 16 overflows i32 for every local offset: all skipped.
    let mut beyond = Chunk::new(ChunkCoord::new(134_217_728, 0), 42);
    g.generate_chunk_terrain(&mut beyond);
    assert_eq!(beyond.tile_count(), 0);
    // The negative edge behaves symmetrically.
    let mut low = Chunk::new(ChunkCoord::new(-134_217_728, 0), 42);
    g.generate_chunk_terrain(&mut low);
    assert_eq!(low.tile_count(), 256);
    let mut below = Chunk::new(ChunkCoord::new(-134_217_729, 0), 42);
    g.generate_chunk_terrain(&mut below);
    assert_eq!(below.tile_count(), 0);
}

#[test]
fn different_seeds_give_different_terrain_somewhere() {
    let a = TerrainGenerator::new(1, 50, 4, 500_000, 200_000, 400_000, 700_000);
    let b = TerrainGenerator::new(2, 50, 4, 500_000, 200_000, 400_000, 700_000);
    let mut differs = false;
    for q in 0..16 {
        for r in 0..16 {
            if a.generate_elevation(HexCoord::new(q, r)) != b.generate_elevation(HexCoord::new(q, r))
            {
                differs = true;
            }
        }
    }
    assert!(differs);
}
