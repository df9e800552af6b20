use hexworld::chunk::{Chunk, ChunkCoord, TileCoord, WorldSeed};
use hexworld::hex::HexCoord;

#[test]
fn chunk_coord_and_tile_coord_hold_their_components() {
    let c = ChunkCoord::new(-9, 42);
    assert_eq!(c.x, -9);
    assert_eq!(c.y, 42);
    let t = TileCoord::new(3, 15);
    assert_eq!(t.x, 3);
    assert_eq!(t.y, 15);
    let s = WorldSeed(77);
    assert_eq!(s.0, 77);
}

#[test]
fn position_hash_is_deterministic() {
    let c = ChunkCoord::new(3, 4);
    assert_eq!(c.position_hash(), c.position_hash());
    assert_eq!(
        ChunkCoord::new(-17, 230).position_hash(),
        ChunkCoord::new(-17, 230).position_hash()
    );
}

#[test]
fn position_hash_of_origin_is_zero() {
    // Both components map to zero before mixing, so the origin hashes to 0
    // and the origin chunk's seed equals the world seed itself.
    assert_eq!(ChunkCoord::new(0, 0).position_hash(), 0);
    assert_eq!(Chunk::new(ChunkCoord::new(0, 0), 12345).seed, 12345);
}

#[test]
fn chunk_seed_is_world_seed_xor_position_hash() {
    let coord = ChunkCoord::new(3, 4);
    let world_seed: u32 = 0xDEAD_BEEF;
    let chunk = Chunk::new(coord, world_seed);
    assert_eq!(chunk.seed, world_seed ^ coord.position_hash());
    // Stable across repeated construction.
    let again = Chunk::new(ChunkCoord::new(3, 4), world_seed);
    assert_eq!(again.seed, chunk.seed);
}

#[test]
fn new_chunk_is_unloaded_and_empty() {
    let chunk = Chunk::new(ChunkCoord::new(5, -5), 1);
    assert!(!chunk.is_loaded);
    assert_eq!(chunk.tile_count(), 0);
    assert_eq!(chunk.get_tile(HexCoord::new(80, -80)), None);
    assert_eq!(chunk.coord, ChunkCoord::new(5, -5));
}
