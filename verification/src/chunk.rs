//! Chunk identity and per-chunk tile storage. A chunk covers a
//! `CHUNK_SIZE x CHUNK_SIZE` block of hex tiles; its seed is derived
//! deterministically from the world seed and a hash of its coordinate.

use vstd::prelude::*;
use crate::hex::HexCoord;

verus! {

/// Number of hex tiles along each axis of a chunk.
pub const CHUNK_SIZE: i32 = 16;

/// Identifies a chunk in chunk space.
#[derive(Debug, Clone, Copy, PartialEq, Eq, Hash, Structural)]
pub struct ChunkCoord {
    pub x: i32,
    pub y: i32,
}

/// A tile position local to a chunk.
#[derive(Debug, Clone, Copy, PartialEq, Eq, Hash, Structural)]
pub struct TileCoord {
    pub x: i32,
    pub y: i32,
}

/// The global seed from which every per-chunk seed is derived.
#[derive(Debug, Clone, Copy, PartialEq, Eq, Structural)]
pub struct WorldSeed(pub u32);

/// Categorical terrain classification of a tile. `Desert` is reserved and
/// never produced by the elevation threshold ladder.
#[derive(Debug, Clone, Copy, PartialEq, Eq, Structural)]
pub enum Biome {
    Plains,
    Forest,
    Desert,
    Mountains,
    Ocean,
}

/// One hex tile: a fixed-point elevation fraction and its biome.
#[derive(Debug, Clone, Copy, PartialEq, Eq, Structural)]
pub struct Tile {
    pub elevation: u32,
    pub biome: Biome,
}

/// Product of two 32-bit values, wrapped to 32 bits.
pub open spec fn spec_wrap_mul32(a: u32, b: u32) -> u32 {
    ((a * b) % 0x1_0000_0000) as u32
}

/// Wrapping 32-bit product, computed exactly in 64 bits.
fn wrap_mul32(a: u32, b: u32) -> (r: u32)
    ensures
        r == spec_wrap_mul32(a, b),
{
    proof {
        assert((a as int) * (b as int) < 0x1_0000_0000_0000_0000) by (nonlinear_arith)
            requires
                (a as int) < 0x1_0000_0000,
                (b as int) < 0x1_0000_0000,
        ;
    }
    (((a as u64) * (b as u64)) % 0x1_0000_0000) as u32
}

/// Deterministic hash of a chunk coordinate pair. It depends only on the
/// two components, so it is stable across runs and processes.
pub open spec fn spec_position_hash(c: ChunkCoord) -> u32 {
    let ux = c.x as u32;
    let uy = c.y as u32;
    let a = spec_wrap_mul32(ux, 0x9E37_79B1);
    let b = spec_wrap_mul32(uy, 0x85EB_CA6B);
    a ^ b ^ ((b << 16) | (b >> 16))
}

impl ChunkCoord {
    /// Builds the chunk coordinate `(x, y)`.
    pub fn new(x: i32, y: i32) -> (c: ChunkCoord)
        ensures
            c.x == x,
            c.y == y,
    {
        ChunkCoord { x, y }
    }

    /// Deterministic hash of this coordinate, used to derive the per-chunk
    /// seed.
    pub fn position_hash(self) -> (h: u32)
        ensures
            h == spec_position_hash(self),
    {
        let ux = #[verifier::truncate] (self.x as u32);
        let uy = #[verifier::truncate] (self.y as u32);
        let a = wrap_mul32(ux, 0x9E37_79B1);
        let b = wrap_mul32(uy, 0x85EB_CA6B);
        a ^ b ^ ((b << 16u32) | (b >> 16u32))
    }
}

impl TileCoord {
    /// Builds the local tile coordinate `(x, y)`.
    pub fn new(x: i32, y: i32) -> (c: TileCoord)
        ensures
            c.x == x,
            c.y == y,
    {
        TileCoord { x, y }
    }
}

/// The mathematical map described by a list of keyed tile entries; a later
/// entry for the same key overrides an earlier one.
pub open spec fn tile_entries_map(s: Seq<(HexCoord, Tile)>) -> Map<HexCoord, Tile>
    decreases s.len(),
{
    if s.len() == 0 {
        Map::empty()
    } else {
        tile_entries_map(s.drop_last()).insert(s.last().0, s.last().1)
    }
}

/// A coordinate is in the domain of the entry map exactly when some entry
/// carries it.
pub proof fn lemma_tile_entries_dom(s: Seq<(HexCoord, Tile)>, h: HexCoord)
    ensures
        tile_entries_map(s).dom().contains(h) <==> exists|i: int|
            0 <= i < s.len() && (#[trigger] s[i]).0 == h,
    decreases s.len(),
{
    if s.len() > 0 {
        lemma_tile_entries_dom(s.drop_last(), h);
        if tile_entries_map(s).dom().contains(h) && s.last().0 != h {
            let i = choose|i: int| 0 <= i < s.drop_last().len() && (#[trigger] s.drop_last()[i]).0 == h;
            assert((s[i]).0 == h);
        }
        if exists|i: int| 0 <= i < s.len() && (#[trigger] s[i]).0 == h {
            let i = choose|i: int| 0 <= i < s.len() && (#[trigger] s[i]).0 == h;
            if i < s.len() - 1 {
                assert((s.drop_last()[i]).0 == h);
            }
        }
    }
}

/// With pairwise distinct keys, the entry map sends each listed key to the
/// tile stored beside it.
pub proof fn lemma_tile_entries_at(s: Seq<(HexCoord, Tile)>, i: int)
    requires
        forall|k: int, l: int|
            0 <= k < l < s.len() ==> (#[trigger] s[k]).0 != (#[trigger] s[l]).0,
        0 <= i < s.len(),
    ensures
        tile_entries_map(s).dom().contains(s[i].0),
        tile_entries_map(s)[s[i].0] == s[i].1,
    decreases s.len(),
{
    if i == s.len() - 1 {
    } else {
        lemma_tile_entries_at(s.drop_last(), i);
        assert(s.drop_last()[i] == s[i]);
        assert(s.last().0 != s[i].0);
    }
}

/// A chunk of the world: its identity, the populated tiles keyed by global
/// hex coordinate, a loaded flag, and its deterministic seed.
#[derive(Debug)]
pub struct Chunk {
    pub coord: ChunkCoord,
    pub tiles: Vec<(HexCoord, Tile)>,
    pub is_loaded: bool,
    pub seed: u32,
}

impl Chunk {
    /// Tile keys are pairwise distinct: each coordinate appears at most once.
    pub open spec fn wf(self) -> bool {
        forall|i: int, j: int|
            0 <= i < j < self.tiles@.len() ==> (#[trigger] self.tiles@[i]).0 != (
            #[trigger] self.tiles@[j]).0
    }

    /// The tile storage as a mathematical map.
    pub open spec fn tiles_map(self) -> Map<HexCoord, Tile> {
        tile_entries_map(self.tiles@)
    }

    /// Creates the chunk for `coord`: unloaded, no tiles, and with the seed
    /// `world_seed XOR position_hash(coord)`, so regenerating the same
    /// coordinate under the same world seed always yields the same terrain.
    pub fn new(coord: ChunkCoord, world_seed: u32) -> (c: Chunk)
        ensures
            c.coord == coord,
            c.seed == world_seed ^ spec_position_hash(coord),
            c.tiles@.len() == 0,
            !c.is_loaded,
            c.wf(),
    {
        Chunk {
            coord,
            tiles: Vec::new(),
            is_loaded: false,
            seed: world_seed ^ coord.position_hash(),
        }
    }

    /// How many tiles are populated.
    pub fn tile_count(&self) -> (n: usize)
        ensures
            n == self.tiles@.len(),
    {
        self.tiles.len()
    }

    /// Looks up the tile at global hex coordinate `h`, if it is populated.
    pub fn get_tile(&self, h: HexCoord) -> (t: Option<Tile>)
        requires
            self.wf(),
        ensures
            t is Some <==> self.tiles_map().dom().contains(h),
            t matches Some(tile) ==> self.tiles_map().dom().contains(h) && tile
                == self.tiles_map()[h],
    {
        proof {
            lemma_tile_entries_dom(self.tiles@, h);
        }
        let n = self.tiles.len();
        let mut i: usize = 0;
        while i < n
            invariant
                n == self.tiles@.len(),
                0 <= i <= n,
                forall|k: int| 0 <= k < i ==> (#[trigger] self.tiles@[k]).0 != h,
                self.wf(),
            decreases n - i,
        {
            let (hc, tile) = self.tiles[i];
            if hc == h {
                proof {
                    lemma_tile_entries_at(self.tiles@, i as int);
                }
                return Some(tile);
            }
            i = i + 1;
        }
        None
    }
}

} // verus!
