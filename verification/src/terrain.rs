//! Deterministic, seeded terrain generation. Elevation is synthesized from
//! several octaves of hash-based value noise, normalized into the fixed-point
//! interval `[0, ELEVATION_SCALE]`, and classified into a biome by an
//! ascending threshold ladder. Identical seed, configuration and coordinate
//! always yield bit-identical output.

use vstd::prelude::*;
use vstd::arithmetic::div_mod::{
    lemma_div_by_multiple,
    lemma_div_is_ordered,
    lemma_div_pos_is_pos,
};
use vstd::arithmetic::mul::{lemma_mul_inequality, lemma_mul_left_inequality, lemma_mul_nonnegative};
use crate::chunk::{
    lemma_tile_entries_at,
    lemma_tile_entries_dom,
    Biome,
    Chunk,
    ChunkCoord,
    Tile,
    CHUNK_SIZE,
};
use crate::hex::HexCoord;

verus! {

/// Fixed-point unit: an elevation of `ELEVATION_SCALE` stands for 1.0, and
/// a persistence of `ELEVATION_SCALE / 2` stands for 0.5.
pub const ELEVATION_SCALE: u32 = 1_000_000;

/// Largest accepted octave count; keeps every intermediate product within
/// 64 bits.
pub const MAX_OCTAVES: u32 = 12;

/// Largest accepted base noise frequency; keeps the per-octave frequency
/// within 32 bits after doubling.
pub const MAX_NOISE_SCALE: u32 = 1_048_576;

/// Configuration of the terrain generator, fixed per instance. All
/// fractional quantities are fixed-point with unit [`ELEVATION_SCALE`].
#[derive(Debug, Clone, Copy, PartialEq, Eq, Structural)]
pub struct TerrainGenerator {
    /// Seed of the noise field.
    pub seed: u32,
    /// Base noise frequency of the first octave.
    pub scale: u32,
    /// Number of noise layers summed.
    pub octaves: u32,
    /// Amplitude decay per octave.
    pub persistence: u32,
    /// Elevations below this are Ocean.
    pub ocean_threshold: u32,
    /// Elevations below this (and at least `ocean_threshold`) are Plains.
    pub plains_threshold: u32,
    /// Elevations below this (and at least `plains_threshold`) are Forest;
    /// everything above is Mountains.
    pub forest_threshold: u32,
}

/// Product of two 64-bit values, wrapped to 64 bits.
pub open spec fn spec_wrap_mul64(a: u64, b: u64) -> u64 {
    ((a * b) % 0x1_0000_0000_0000_0000) as u64
}

/// Wrapping 64-bit product, computed exactly in 128 bits.
fn wrap_mul64(a: u64, b: u64) -> (r: u64)
    ensures
        r == spec_wrap_mul64(a, b),
{
    proof {
        assert((a as int) * (b as int) < 0x1_0000_0000_0000_0000_0000_0000_0000_0000)
            by (nonlinear_arith)
            requires
                (a as int) < 0x1_0000_0000_0000_0000,
                (b as int) < 0x1_0000_0000_0000_0000,
        ;
    }
    (((a as u128) * (b as u128)) % 0x1_0000_0000_0000_0000) as u64
}

/// Mixes the seed and a lattice position into 64 pseudo-random bits.
/// A pure function of its arguments: no state, no call-order dependence.
pub open spec fn spec_noise_hash(seed: u32, xs: u64, ys: u64) -> u64 {
    let a = spec_wrap_mul64(xs, 0x9E37_79B9_7F4A_7C15);
    let b = spec_wrap_mul64(ys, 0xC2B2_AE3D_27D4_EB4F);
    let m = a ^ b ^ spec_wrap_mul64(seed as u64, 0xFF51_AFD7_ED55_8CCD);
    spec_wrap_mul64(m ^ (m >> 31), 0xD6E8_FEB8_6659_FD93) ^ (m >> 17)
}

/// Value noise at scaled position `(x, y)`: a fixed-point fraction in
/// `[-ELEVATION_SCALE, ELEVATION_SCALE]`, standing for a value in `[-1, 1]`.
pub open spec fn spec_noise(seed: u32, x: int, y: int) -> int {
    let xs = (x + 0x4000_0000_0000_0000) as u64;
    let ys = (y + 0x4000_0000_0000_0000) as u64;
    ((spec_noise_hash(seed, xs, ys) as int) % (2 * (ELEVATION_SCALE as int) + 1))
        - (ELEVATION_SCALE as int)
}

/// Amplitude of octave `i`: starts at one and decays by `persistence`
/// each octave (fixed point).
pub open spec fn spec_amplitude(g: TerrainGenerator, i: int) -> int
    decreases i,
{
    if i <= 0 {
        ELEVATION_SCALE as int
    } else {
        (spec_amplitude(g, i - 1) * (g.persistence as int)) / (ELEVATION_SCALE as int)
    }
}

/// Frequency of octave `i`: starts at `scale` and doubles each octave.
pub open spec fn spec_frequency(g: TerrainGenerator, i: int) -> int
    decreases i,
{
    if i <= 0 {
        g.scale as int
    } else {
        2 * spec_frequency(g, i - 1)
    }
}

/// Sum of the amplitudes of the first `n` octaves: the largest magnitude
/// the accumulated noise can reach.
pub open spec fn spec_amplitude_sum(g: TerrainGenerator, n: int) -> int
    decreases n,
{
    if n <= 0 {
        0
    } else {
        spec_amplitude_sum(g, n - 1) + spec_amplitude(g, n - 1)
    }
}

/// Contribution of octave `i` at axial position `(q, r)`:
/// `amplitude_i * noise(q * frequency_i, r * frequency_i)` in fixed point.
pub open spec fn spec_octave_term(g: TerrainGenerator, q: int, r: int, i: int) -> int {
    let amp = spec_amplitude(g, i);
    let f = spec_frequency(g, i);
    let n = spec_noise(g.seed, q * f, r * f);
    (amp * (n + ELEVATION_SCALE as int)) / (ELEVATION_SCALE as int) - amp
}

/// Accumulated contribution of the first `n` octaves at `(q, r)`.
pub open spec fn spec_accum(g: TerrainGenerator, q: int, r: int, n: int) -> int
    decreases n,
{
    if n <= 0 {
        0
    } else {
        spec_accum(g, q, r, n - 1) + spec_octave_term(g, q, r, n - 1)
    }
}

/// Elevation at a global hex coordinate: the accumulated noise normalized
/// from `[-max, max]` into the fixed-point interval `[0, ELEVATION_SCALE]`.
#[verifier::opaque]
pub open spec fn spec_elevation(g: TerrainGenerator, h: HexCoord) -> int {
    let acc = spec_accum(g, h.q as int, h.r as int, g.octaves as int);
    let max = spec_amplitude_sum(g, g.octaves as int);
    ((acc + max) * (ELEVATION_SCALE as int)) / (2 * max)
}

/// Threshold-ladder biome classification of an elevation.
pub open spec fn spec_biome(g: TerrainGenerator, elevation: int) -> Biome {
    if elevation < g.ocean_threshold {
        Biome::Ocean
    } else if elevation < g.plains_threshold {
        Biome::Plains
    } else if elevation < g.forest_threshold {
        Biome::Forest
    } else {
        Biome::Mountains
    }
}

/// The tile the generator produces at a global hex coordinate.
pub open spec fn spec_tile(g: TerrainGenerator, h: HexCoord) -> Tile {
    Tile {
        elevation: spec_elevation(g, h) as u32,
        biome: spec_biome(g, spec_elevation(g, h)),
    }
}

/// Whether a global hex coordinate lies inside the
/// `CHUNK_SIZE x CHUNK_SIZE` block of chunk `cc`.
pub open spec fn tile_in_chunk(cc: ChunkCoord, h: HexCoord) -> bool {
    &&& (cc.x as int) * (CHUNK_SIZE as int) <= h.q < (cc.x as int) * (CHUNK_SIZE as int)
        + (CHUNK_SIZE as int)
    &&& (cc.y as int) * (CHUNK_SIZE as int) <= h.r < (cc.y as int) * (CHUNK_SIZE as int)
        + (CHUNK_SIZE as int)
}

/// The full tile mapping of a chunk: every in-chunk coordinate representable
/// as a `HexCoord` (a global coordinate whose computation would overflow is
/// skipped, so it has no entry), each mapped to the generated tile.
pub open spec fn spec_chunk_tiles(g: TerrainGenerator, cc: ChunkCoord) -> Map<HexCoord, Tile> {
    Map::new(|h: HexCoord| tile_in_chunk(cc, h), |h: HexCoord| spec_tile(g, h))
}

/// An in-chunk coordinate whose local offsets precede `(lx, ly)` in the
/// row-major fill order.
spec fn local_done(cc: ChunkCoord, lx: int, ly: int, h: HexCoord) -> bool {
    &&& tile_in_chunk(cc, h)
    &&& (h.q - (cc.x as int) * (CHUNK_SIZE as int) < lx || (h.q - (cc.x as int) * (
    CHUNK_SIZE as int) == lx && h.r - (cc.y as int) * (CHUNK_SIZE as int) < ly))
}

/// Noise values stay within one fixed-point unit of zero.
pub proof fn lemma_noise_bounds(seed: u32, x: int, y: int)
    ensures
        -(ELEVATION_SCALE as int) <= spec_noise(seed, x, y) <= ELEVATION_SCALE as int,
{
    let h = spec_noise_hash(seed, (x + 0x4000_0000_0000_0000) as u64, (y
        + 0x4000_0000_0000_0000) as u64) as int;
    let d = 2 * (ELEVATION_SCALE as int) + 1;
    assert(0 <= h % d < d);
}

/// Amplitudes are non-negative and never exceed one fixed-point unit.
pub proof fn lemma_amplitude_bounds(g: TerrainGenerator, i: int)
    requires
        g.wf(),
        0 <= i,
    ensures
        0 <= spec_amplitude(g, i) <= ELEVATION_SCALE as int,
    decreases i,
{
    if i > 0 {
        lemma_amplitude_bounds(g, i - 1);
        let a = spec_amplitude(g, i - 1);
        let p = g.persistence as int;
        let s = ELEVATION_SCALE as int;
        lemma_mul_nonnegative(a, p);
        lemma_div_pos_is_pos(a * p, s);
        lemma_mul_left_inequality(s, 0, a);
        if a > 0 {
            lemma_mul_left_inequality(a, p, s);
        }
        lemma_div_is_ordered(a * p, a * s, s);
        lemma_div_by_multiple(a, s);
    }
}

/// The amplitude sum over at least one octave is positive, and `n` octaves
/// sum to at most `n` fixed-point units.
pub proof fn lemma_amplitude_sum_bounds(g: TerrainGenerator, n: int)
    requires
        g.wf(),
        0 <= n,
    ensures
        spec_amplitude_sum(g, n) <= n * (ELEVATION_SCALE as int),
        n > 0 ==> spec_amplitude_sum(g, n) >= ELEVATION_SCALE as int,
        spec_amplitude_sum(g, n) >= 0,
    decreases n,
{
    if n > 0 {
        lemma_amplitude_sum_bounds(g, n - 1);
        lemma_amplitude_bounds(g, n - 1);
        if n == 1 {
            assert(spec_amplitude(g, 0) == ELEVATION_SCALE as int);
        }
    }
}

/// Each octave term is bounded by its amplitude in magnitude.
pub proof fn lemma_octave_term_bounds(g: TerrainGenerator, q: int, r: int, i: int)
    requires
        g.wf(),
        0 <= i,
    ensures
        -spec_amplitude(g, i) <= spec_octave_term(g, q, r, i) <= spec_amplitude(g, i),
{
    let amp = spec_amplitude(g, i);
    let f = spec_frequency(g, i);
    let n = spec_noise(g.seed, q * f, r * f);
    let s = ELEVATION_SCALE as int;
    lemma_amplitude_bounds(g, i);
    lemma_noise_bounds(g.seed, q * f, r * f);
    lemma_mul_nonnegative(amp, n + s);
    lemma_div_pos_is_pos(amp * (n + s), s);
    lemma_mul_left_inequality(s, 0, amp);
    assert(amp * (n + s) <= (2 * amp) * s) by (nonlinear_arith)
        requires
            0 <= amp,
            n + s <= 2 * s,
    ;
    lemma_div_is_ordered(amp * (n + s), (2 * amp) * s, s);
    lemma_div_by_multiple(2 * amp, s);
}

/// The accumulated noise never exceeds the amplitude sum in magnitude.
pub proof fn lemma_accum_bounds(g: TerrainGenerator, q: int, r: int, n: int)
    requires
        g.wf(),
        0 <= n,
    ensures
        -spec_amplitude_sum(g, n) <= spec_accum(g, q, r, n) <= spec_amplitude_sum(g, n),
    decreases n,
{
    if n > 0 {
        lemma_accum_bounds(g, q, r, n - 1);
        lemma_octave_term_bounds(g, q, r, n - 1);
    }
}

/// Elevation always lies in the fixed-point interval `[0, ELEVATION_SCALE]`.
pub proof fn lemma_elevation_bounds(g: TerrainGenerator, h: HexCoord)
    requires
        g.wf(),
    ensures
        0 <= spec_elevation(g, h) <= ELEVATION_SCALE as int,
{
    reveal(spec_elevation);
    let acc = spec_accum(g, h.q as int, h.r as int, g.octaves as int);
    let max = spec_amplitude_sum(g, g.octaves as int);
    let s = ELEVATION_SCALE as int;
    lemma_accum_bounds(g, h.q as int, h.r as int, g.octaves as int);
    lemma_amplitude_sum_bounds(g, g.octaves as int);
    lemma_mul_nonnegative(acc + max, s);
    lemma_div_pos_is_pos((acc + max) * s, 2 * max);
    lemma_mul_inequality(acc + max, 2 * max, s);
    assert((2 * max) * s == s * (2 * max)) by (nonlinear_arith);
    lemma_div_is_ordered((acc + max) * s, s * (2 * max), 2 * max);
    lemma_div_by_multiple(s, 2 * max);
    assert((s * (2 * max)) / (2 * max) == s);
}

/// Two-power helper for bounding the doubling frequency sequence.
pub open spec fn spec_two_pow(i: int) -> int
    decreases i,
{
    if i <= 0 {
        1
    } else {
        2 * spec_two_pow(i - 1)
    }
}

/// Frequencies stay within 32 bits for every octave the configuration
/// admits.
pub proof fn lemma_frequency_bounds(g: TerrainGenerator, i: int)
    requires
        g.wf(),
        0 <= i <= MAX_OCTAVES as int,
    ensures
        1 <= spec_frequency(g, i),
        spec_frequency(g, i) * spec_two_pow(MAX_OCTAVES as int - i) <= 0x1_0000_0000,
        spec_frequency(g, i) <= 0x1_0000_0000,
        i < MAX_OCTAVES as int ==> spec_frequency(g, i) <= 0x8000_0000,
    decreases i,
{
    let m = MAX_OCTAVES as int;
    if i == 0 {
        assert(spec_two_pow(m) == 4096) by {
            reveal_with_fuel(spec_two_pow, 13);
        }
        lemma_mul_inequality(g.scale as int, MAX_NOISE_SCALE as int, spec_two_pow(m));
    } else {
        lemma_frequency_bounds(g, i - 1);
        assert(spec_frequency(g, i) * spec_two_pow(m - i) == spec_frequency(g, i - 1)
            * spec_two_pow(m - (i - 1))) by (nonlinear_arith)
            requires
                spec_frequency(g, i) == 2 * spec_frequency(g, i - 1),
                spec_two_pow(m - (i - 1)) == 2 * spec_two_pow(m - i),
        ;
    }
    assert(1 <= spec_two_pow(m - i)) by {
        lemma_two_pow_positive(m - i);
    }
    lemma_mul_left_inequality(spec_frequency(g, i), 1, spec_two_pow(m - i));
    if i < m {
        assert(2 <= spec_two_pow(m - i)) by {
            lemma_two_pow_positive(m - i - 1);
        }
        lemma_mul_left_inequality(spec_frequency(g, i), 2, spec_two_pow(m - i));
    }
}

/// Two-powers are positive.
pub proof fn lemma_two_pow_positive(i: int)
    ensures
        spec_two_pow(i) >= 1,
    decreases i,
{
    if i > 0 {
        lemma_two_pow_positive(i - 1);
    }
}

impl TerrainGenerator {
    /// A valid configuration: at least one octave, bounded octave count and
    /// base frequency, persistence at most one, and a strictly ascending
    /// threshold ladder.
    pub open spec fn wf(self) -> bool {
        &&& 1 <= self.octaves <= MAX_OCTAVES
        &&& 1 <= self.scale <= MAX_NOISE_SCALE
        &&& self.persistence <= ELEVATION_SCALE
        &&& self.ocean_threshold < self.plains_threshold
        &&& self.plains_threshold < self.forest_threshold
        &&& self.forest_threshold <= ELEVATION_SCALE
    }

    /// Builds a generator from its configuration.
    pub fn new(
        seed: u32,
        scale: u32,
        octaves: u32,
        persistence: u32,
        ocean_threshold: u32,
        plains_threshold: u32,
        forest_threshold: u32,
    ) -> (g: TerrainGenerator)
        requires
            1 <= octaves <= MAX_OCTAVES,
            1 <= scale <= MAX_NOISE_SCALE,
            persistence <= ELEVATION_SCALE,
            ocean_threshold < plains_threshold,
            plains_threshold < forest_threshold,
            forest_threshold <= ELEVATION_SCALE,
        ensures
            g == (TerrainGenerator {
                seed,
                scale,
                octaves,
                persistence,
                ocean_threshold,
                plains_threshold,
                forest_threshold,
            }),
            g.wf(),
    {
        TerrainGenerator {
            seed,
            scale,
            octaves,
            persistence,
            ocean_threshold,
            plains_threshold,
            forest_threshold,
        }
    }

    /// Hash-based value noise, returned as a fixed-point fraction in
    /// `[-ELEVATION_SCALE, ELEVATION_SCALE]`.
    fn noise_value(seed: u32, x: i64, y: i64) -> (v: i64)
        requires
            -0x4000_0000_0000_0000 <= x < 0x4000_0000_0000_0000,
            -0x4000_0000_0000_0000 <= y < 0x4000_0000_0000_0000,
        ensures
            v == spec_noise(seed, x as int, y as int),
            -(ELEVATION_SCALE as int) <= v <= ELEVATION_SCALE as int,
    {
        proof {
            lemma_noise_bounds(seed, x as int, y as int);
        }
        let xs: u64 = (x + 0x4000_0000_0000_0000) as u64;
        let ys: u64 = (y + 0x4000_0000_0000_0000) as u64;
        let a = wrap_mul64(xs, 0x9E37_79B9_7F4A_7C15);
        let b = wrap_mul64(ys, 0xC2B2_AE3D_27D4_EB4F);
        let m = a ^ b ^ wrap_mul64(seed as u64, 0xFF51_AFD7_ED55_8CCD);
        let h = wrap_mul64(m ^ (m >> 31), 0xD6E8_FEB8_6659_FD93) ^ (m >> 17);
        let bound: u64 = 2 * (ELEVATION_SCALE as u64) + 1;
        let md: u64 = h % bound;
        (md as i64) - (ELEVATION_SCALE as i64)
    }

    /// Multi-octave elevation at global hex coordinate `h`. A pure function
    /// of the configuration and the coordinate: repeated calls with the same
    /// inputs yield identical results, and the result always lies in
    /// `[0, ELEVATION_SCALE]`.
    pub fn generate_elevation(&self, h: HexCoord) -> (e: u32)
        requires
            self.wf(),
        ensures
            e == spec_elevation(*self, h),
            e <= ELEVATION_SCALE,
    {
        let g = *self;
        let mut acc: i64 = 0;
        let mut amp: u64 = ELEVATION_SCALE as u64;
        let mut freq: u64 = self.scale as u64;
        let mut max_value: u64 = 0;
        let mut i: u32 = 0;
        while i < self.octaves
            invariant
                g == *self,
                g.wf(),
                0 <= i <= g.octaves,
                amp == spec_amplitude(g, i as int),
                freq == spec_frequency(g, i as int),
                max_value == spec_amplitude_sum(g, i as int),
                acc == spec_accum(g, h.q as int, h.r as int, i as int),
                amp <= ELEVATION_SCALE,
                max_value <= (i as int) * (ELEVATION_SCALE as int),
                -(max_value as int) <= acc <= max_value as int,
            decreases g.octaves - i,
        {
            proof {
                lemma_frequency_bounds(g, i as int);
                lemma_amplitude_bounds(g, i as int);
                lemma_octave_term_bounds(g, h.q as int, h.r as int, i as int);
                assert(-0x4000_0000_0000_0000 <= (h.q as int) * (freq as int)
                    < 0x4000_0000_0000_0000) by (nonlinear_arith)
                    requires
                        -0x8000_0000 <= (h.q as int) < 0x8000_0000,
                        1 <= (freq as int) <= 0x8000_0000,
                ;
                assert(-0x4000_0000_0000_0000 <= (h.r as int) * (freq as int)
                    < 0x4000_0000_0000_0000) by (nonlinear_arith)
                    requires
                        -0x8000_0000 <= (h.r as int) < 0x8000_0000,
                        1 <= (freq as int) <= 0x8000_0000,
                ;
                assert(amp * (ELEVATION_SCALE as int + ELEVATION_SCALE as int) <= (
                ELEVATION_SCALE as int) * (2 * ELEVATION_SCALE as int)) by (nonlinear_arith)
                    requires
                        0 <= amp <= ELEVATION_SCALE as int,
                ;
                assert(amp * (g.persistence as int) <= (ELEVATION_SCALE as int) * (
                ELEVATION_SCALE as int)) by (nonlinear_arith)
                    requires
                        0 <= amp <= ELEVATION_SCALE as int,
                        0 <= (g.persistence as int) <= ELEVATION_SCALE as int,
                ;
                lemma_mul_nonnegative(amp as int, g.persistence as int);
            }
            let x: i64 = (h.q as i64) * (freq as i64);
            let y: i64 = (h.r as i64) * (freq as i64);
            let nval: i64 = Self::noise_value(g.seed, x, y);
            let shifted: u64 = (nval + ELEVATION_SCALE as i64) as u64;
            proof {
                lemma_mul_nonnegative(amp as int, shifted as int);
                assert(amp * shifted <= (ELEVATION_SCALE as int) * (2 * ELEVATION_SCALE as int))
                    by (nonlinear_arith)
                    requires
                        0 <= amp <= ELEVATION_SCALE as int,
                        0 <= shifted <= 2 * ELEVATION_SCALE as int,
                ;
            }
            let term_q: u64 = (amp * shifted) / (ELEVATION_SCALE as u64);
            let term: i64 = (term_q as i64) - (amp as i64);
            proof {
                lemma_div_pos_is_pos(amp as int * shifted as int, ELEVATION_SCALE as int);
                assert(term == spec_octave_term(g, h.q as int, h.r as int, i as int));
            }
            acc = acc + term;
            max_value = max_value + amp;
            amp = (amp * (self.persistence as u64)) / (ELEVATION_SCALE as u64);
            freq = freq * 2;
            i = i + 1;
            proof {
                lemma_div_pos_is_pos(
                    spec_amplitude(g, i as int - 1) * (g.persistence as int),
                    ELEVATION_SCALE as int,
                );
                lemma_amplitude_bounds(g, i as int);
            }
        }
        proof {
            reveal(spec_elevation);
            lemma_amplitude_sum_bounds(g, g.octaves as int);
            lemma_elevation_bounds(g, h);
        }
        let num: u64 = ((acc + max_value as i64) as u64) * (ELEVATION_SCALE as u64);
        let den: u64 = 2 * max_value;
        (num / den) as u32
    }

    /// Fills a freshly created chunk: for every local offset in
    /// `[0, CHUNK_SIZE)^2` whose global hex coordinate fits in 32 bits, the
    /// generated tile is stored under that global coordinate. An offset whose
    /// global coordinate would overflow is skipped silently; everything else
    /// of the chunk is left untouched.
    #[verifier::rlimit(100)]
    pub fn generate_chunk_terrain(&self, chunk: &mut Chunk)
        requires
            self.wf(),
            old(chunk).tiles@.len() == 0,
        ensures
            final(chunk).coord == old(chunk).coord,
            final(chunk).seed == old(chunk).seed,
            final(chunk).is_loaded == old(chunk).is_loaded,
            final(chunk).wf(),
            final(chunk).tiles_map() == spec_chunk_tiles(*self, old(chunk).coord),
    {
        let cc = chunk.coord;
        proof {
            assert(CHUNK_SIZE == 16);
        }
        let base_q: i64 = (cc.x as i64) * (CHUNK_SIZE as i64);
        let base_r: i64 = (cc.y as i64) * (CHUNK_SIZE as i64);
        let mut lx: i32 = 0;
        while lx < CHUNK_SIZE
            invariant
                self.wf(),
                0 <= lx <= CHUNK_SIZE,
                chunk.coord == cc,
                chunk.coord == old(chunk).coord,
                chunk.seed == old(chunk).seed,
                chunk.is_loaded == old(chunk).is_loaded,
                base_q == (cc.x as int) * (CHUNK_SIZE as int),
                base_r == (cc.y as int) * (CHUNK_SIZE as int),
                chunk.wf(),
                forall|k: int|
                    0 <= k < chunk.tiles@.len() ==> local_done(
                        cc,
                        lx as int,
                        0,
                        (#[trigger] chunk.tiles@[k]).0,
                    ) && chunk.tiles@[k].1 == spec_tile(*self, chunk.tiles@[k].0),
                forall|h: HexCoord|
                    #[trigger] local_done(cc, lx as int, 0, h) ==> exists|k: int|
                        0 <= k < chunk.tiles@.len() && (#[trigger] chunk.tiles@[k]).0 == h,
            decreases CHUNK_SIZE - lx,
        {
            let mut ly: i32 = 0;
            while ly < CHUNK_SIZE
                invariant
                    self.wf(),
                    0 <= lx < CHUNK_SIZE,
                    0 <= ly <= CHUNK_SIZE,
                    chunk.coord == cc,
                    chunk.coord == old(chunk).coord,
                    chunk.seed == old(chunk).seed,
                    chunk.is_loaded == old(chunk).is_loaded,
                    base_q == (cc.x as int) * (CHUNK_SIZE as int),
                    base_r == (cc.y as int) * (CHUNK_SIZE as int),
                    chunk.wf(),
                    forall|k: int|
                        0 <= k < chunk.tiles@.len() ==> local_done(
                            cc,
                            lx as int,
                            ly as int,
                            (#[trigger] chunk.tiles@[k]).0,
                        ) && chunk.tiles@[k].1 == spec_tile(*self, chunk.tiles@[k].0),
                    forall|h: HexCoord|
                        #[trigger] local_done(cc, lx as int, ly as int, h) ==> exists|k: int|
                            0 <= k < chunk.tiles@.len() && (#[trigger] chunk.tiles@[k]).0 == h,
                decreases CHUNK_SIZE - ly,
            {
                let gq: i64 = base_q + (lx as i64);
                let gr: i64 = base_r + (ly as i64);
                if -0x8000_0000 <= gq && gq <= 0x7FFF_FFFF && -0x8000_0000 <= gr && gr
                    <= 0x7FFF_FFFF {
                    let h = HexCoord { q: gq as i32, r: gr as i32 };
                    let e = self.generate_elevation(h);
                    let b = self.get_biome(e);
                    let ghost before = chunk.tiles@;
                    chunk.tiles.push((h, Tile { elevation: e, biome: b }));
                    proof {
                        assert(chunk.tiles@ == before.push((h, Tile { elevation: e, biome: b })));
                        assert(forall|k: int|
                            0 <= k < before.len() ==> #[trigger] chunk.tiles@[k] == before[k]);
                        assert(chunk.tiles@[before.len() as int].0 == h);
                        assert(tile_in_chunk(cc, h));
                        assert(Tile { elevation: e, biome: b } == spec_tile(*self, h));
                        assert forall|hh: HexCoord|
                            #[trigger] local_done(cc, lx as int, ly as int + 1, hh) implies exists|
                        k: int|
                            0 <= k < chunk.tiles@.len() && (#[trigger] chunk.tiles@[k]).0
                                == hh by {
                            if hh == h {
                                assert(chunk.tiles@[before.len() as int].0 == hh);
                            } else {
                                assert(local_done(cc, lx as int, ly as int, hh));
                                let k = choose|k: int|
                                    0 <= k < before.len() && (#[trigger] before[k]).0 == hh;
                                assert(chunk.tiles@[k].0 == hh);
                            }
                        };
                    }
                } else {
                    proof {
                        assert forall|hh: HexCoord|
                            #[trigger] local_done(cc, lx as int, ly as int + 1, hh) implies exists|
                        k: int|
                            0 <= k < chunk.tiles@.len() && (#[trigger] chunk.tiles@[k]).0
                                == hh by {
                            assert(-0x8000_0000 <= hh.q <= 0x7FFF_FFFF);
                            assert(-0x8000_0000 <= hh.r <= 0x7FFF_FFFF);
                            assert(local_done(cc, lx as int, ly as int, hh));
                        };
                    }
                }
                ly = ly + 1;
            }
            proof {
                assert forall|hh: HexCoord|
                    #[trigger] local_done(cc, lx as int + 1, 0, hh) implies exists|k: int|
                    0 <= k < chunk.tiles@.len() && (#[trigger] chunk.tiles@[k]).0 == hh by {
                    assert(local_done(cc, lx as int, CHUNK_SIZE as int, hh));
                };
            }
            lx = lx + 1;
        }
        proof {
            let t = chunk.tiles@;
            let m = spec_chunk_tiles(*self, cc);
            assert forall|h: HexCoord| #[trigger]
                chunk.tiles_map().dom().contains(h) implies m.dom().contains(h) by {
                lemma_tile_entries_dom(t, h);
            };
            assert forall|h: HexCoord| #[trigger]
                m.dom().contains(h) implies chunk.tiles_map().dom().contains(h) by {
                assert(local_done(cc, CHUNK_SIZE as int, 0, h));
                lemma_tile_entries_dom(t, h);
            };
            assert forall|h: HexCoord| #[trigger]
                chunk.tiles_map().dom().contains(h) implies chunk.tiles_map()[h] == m[h] by {
                lemma_tile_entries_dom(t, h);
                let k = choose|k: int| 0 <= k < t.len() && (#[trigger] t[k]).0 == h;
                lemma_tile_entries_at(t, k);
            };
            assert(chunk.tiles_map() =~= m);
        }
    }

    /// Classifies an elevation by the ascending threshold ladder: below
    /// `ocean_threshold` is Ocean, then Plains, then Forest, and everything
    /// at or above `forest_threshold` is Mountains.
    pub fn get_biome(&self, elevation: u32) -> (b: Biome)
        ensures
            b == spec_biome(*self, elevation as int),
    {
        if elevation < self.ocean_threshold {
            Biome::Ocean
        } else if elevation < self.plains_threshold {
            Biome::Plains
        } else if elevation < self.forest_threshold {
            Biome::Forest
        } else {
            Biome::Mountains
        }
    }
}

impl Default for TerrainGenerator {
    /// The stock configuration: seed 42, base frequency 50, four octaves,
    /// persistence one half, and thresholds 0.2 / 0.4 / 0.7.
    fn default() -> (g: TerrainGenerator)
        ensures
            g == (TerrainGenerator {
                seed: 42,
                scale: 50,
                octaves: 4,
                persistence: 500_000,
                ocean_threshold: 200_000,
                plains_threshold: 400_000,
                forest_threshold: 700_000,
            }),
            g.wf(),
    {
        TerrainGenerator {
            seed: 42,
            scale: 50,
            octaves: 4,
            persistence: 500_000,
            ocean_threshold: 200_000,
            plains_threshold: 400_000,
            forest_threshold: 700_000,
        }
    }
}

} // verus!
