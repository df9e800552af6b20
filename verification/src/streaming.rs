//! The chunk streaming manager. Each step it computes, from the loader
//! positions and the configured radius, the set of chunk coordinates that
//! must be resident (the union of the loaders' square Chebyshev windows in
//! chunk space), loads every missing chunk through the terrain generator,
//! and evicts every resident chunk that no loader still covers. Loading
//! happens before unloading within a step.

use vstd::prelude::*;
use crate::chunk::{spec_position_hash, Chunk, ChunkCoord, Tile, CHUNK_SIZE};
use crate::hex::HexCoord;
use crate::terrain::{spec_chunk_tiles, TerrainGenerator};

verus! {

broadcast use vstd::seq_lib::lemma_seq_contains_after_push;

/// Whether chunk coordinate `c` lies in the square window of half-width
/// `radius` centred on loader position `p` (both axes independently).
pub open spec fn in_window(p: ChunkCoord, radius: int, c: ChunkCoord) -> bool {
    &&& p.x - radius <= c.x <= p.x + radius
    &&& p.y - radius <= c.y <= p.y + radius
}

/// Whether chunk coordinate `c` is required by at least one loader.
pub open spec fn spec_required(loaders: Seq<ChunkCoord>, radius: int, c: ChunkCoord) -> bool {
    exists|i: int| 0 <= i < loaders.len() && in_window(#[trigger] loaders[i], radius, c)
}

/// The chunk-space coordinate of the chunk that owns a global hex
/// coordinate.
pub open spec fn spec_owner_chunk(h: HexCoord) -> ChunkCoord {
    ChunkCoord {
        x: ((h.q as int) / (CHUNK_SIZE as int)) as i32,
        y: ((h.r as int) / (CHUNK_SIZE as int)) as i32,
    }
}

/// Whether `cc` is one of the eight rectangular neighbors of `c` in chunk
/// space.
pub open spec fn rect_adjacent(c: ChunkCoord, cc: ChunkCoord) -> bool {
    &&& c.x - 1 <= cc.x <= c.x + 1
    &&& c.y - 1 <= cc.y <= c.y + 1
    &&& cc != c
}

/// The transition records returned by one streaming step: which chunk
/// coordinates became resident and which were evicted.
#[derive(Debug)]
pub struct StepTransitions {
    pub loaded: Vec<ChunkCoord>,
    pub unloaded: Vec<ChunkCoord>,
}

/// Keeps the resident chunk set in lock-step with the loader positions.
/// The resident registry is the single source of truth for which chunks
/// exist at any moment.
#[derive(Debug)]
pub struct ChunkStreamingManager {
    pub world_seed: u32,
    pub load_radius: i32,
    pub resident: Vec<Chunk>,
}

impl ChunkStreamingManager {
    /// Well-formedness: the radius is non-negative, every resident chunk
    /// carries its derived seed, is marked loaded and has distinct tile
    /// keys, and no chunk coordinate appears twice.
    pub open spec fn wf(self) -> bool {
        &&& self.load_radius >= 0
        &&& forall|i: int, j: int|
            0 <= i < j < self.resident@.len() ==> (#[trigger] self.resident@[i]).coord != (
            #[trigger] self.resident@[j]).coord
        &&& forall|i: int|
            0 <= i < self.resident@.len() ==> (#[trigger] self.resident@[i]).wf()
                && self.resident@[i].seed == self.world_seed ^ spec_position_hash(
                self.resident@[i].coord,
            ) && self.resident@[i].is_loaded
    }

    /// Whether the chunk at coordinate `c` is currently resident.
    pub open spec fn is_resident(self, c: ChunkCoord) -> bool {
        exists|i: int|
            0 <= i < self.resident@.len() && (#[trigger] self.resident@[i]).coord == c
    }

    /// The resident chunk at coordinate `c` (meaningful when `c` is
    /// resident; with `wf` it is unique).
    pub open spec fn chunk_at(self, c: ChunkCoord) -> Chunk {
        self.resident@[choose|i: int|
            0 <= i < self.resident@.len() && (#[trigger] self.resident@[i]).coord == c]
    }

    /// Creates an empty manager with the given world seed and load radius.
    pub fn new(world_seed: u32, load_radius: i32) -> (m: ChunkStreamingManager)
        requires
            load_radius >= 0,
        ensures
            m.world_seed == world_seed,
            m.load_radius == load_radius,
            m.resident@.len() == 0,
            m.wf(),
            forall|c: ChunkCoord| !m.is_resident(c),
    {
        ChunkStreamingManager { world_seed, load_radius, resident: Vec::new() }
    }

    /// Runs one streaming step. The required set is the union of the
    /// loaders' square windows; every required coordinate that is not yet
    /// resident is loaded (created, populated by `gen`, marked loaded) and
    /// every resident chunk no loader still covers is evicted, in that
    /// order. Afterwards exactly the required coordinates are resident;
    /// chunks that were already resident and are still required are kept
    /// untouched, with generation not re-run. The returned records list
    /// each loaded and each unloaded coordinate exactly once.
    pub fn step(&mut self, loaders: &Vec<ChunkCoord>, gen: &TerrainGenerator) -> (t:
        StepTransitions)
        requires
            old(self).wf(),
            gen.wf(),
            forall|i: int|
                0 <= i < loaders@.len() ==> i32::MIN <= (#[trigger] loaders@[i]).x - old(
                    self,
                ).load_radius && loaders@[i].x + old(self).load_radius <= i32::MAX && i32::MIN
                    <= loaders@[i].y - old(self).load_radius && loaders@[i].y + old(
                    self,
                ).load_radius <= i32::MAX,
        ensures
            final(self).wf(),
            final(self).world_seed == old(self).world_seed,
            final(self).load_radius == old(self).load_radius,
            forall|c: ChunkCoord|
                #[trigger] final(self).is_resident(c) <==> spec_required(
                    loaders@,
                    old(self).load_radius as int,
                    c,
                ),
            forall|ch: Chunk|
                #[trigger] old(self).resident@.contains(ch) && spec_required(
                    loaders@,
                    old(self).load_radius as int,
                    ch.coord,
                ) ==> final(self).resident@.contains(ch),
            forall|i: int|
                0 <= i < final(self).resident@.len() ==> (old(self).resident@.contains(
                    #[trigger] final(self).resident@[i],
                ) || (final(self).resident@[i].tiles_map() == spec_chunk_tiles(
                    *gen,
                    final(self).resident@[i].coord,
                ) && !old(self).is_resident(final(self).resident@[i].coord))),
            forall|c: ChunkCoord|
                #[trigger] t.loaded@.contains(c) <==> (spec_required(
                    loaders@,
                    old(self).load_radius as int,
                    c,
                ) && !old(self).is_resident(c)),
            forall|c: ChunkCoord|
                #[trigger] t.unloaded@.contains(c) <==> (old(self).is_resident(c)
                    && !spec_required(loaders@, old(self).load_radius as int, c)),
            forall|k1: int, k2: int|
                0 <= k1 < k2 < t.loaded@.len() ==> t.loaded@[k1] != t.loaded@[k2],
            forall|k1: int, k2: int|
                0 <= k1 < k2 < t.unloaded@.len() ==> t.unloaded@[k1] != t.unloaded@[k2],
    {
        let ghost rad = old(self).load_radius as int;
        let radius = self.load_radius;

        // The required set: the union of all loader windows. Repetitions
        // are harmless; the load phase checks residency first.
        let mut required: Vec<ChunkCoord> = Vec::new();
        let mut li: usize = 0;
        while li < loaders.len()
            invariant
                0 <= li <= loaders@.len(),
                radius == old(self).load_radius,
                rad == radius as int,
                radius >= 0,
                forall|i: int|
                    0 <= i < loaders@.len() ==> i32::MIN <= (#[trigger] loaders@[i]).x - radius
                        && loaders@[i].x + radius <= i32::MAX && i32::MIN <= loaders@[i].y - radius
                        && loaders@[i].y + radius <= i32::MAX,
                forall|c: ChunkCoord|
                    #[trigger] required@.contains(c) <==> exists|j: int|
                        0 <= j < li && in_window(#[trigger] loaders@[j], rad, c),
            decreases loaders@.len() - li,
        {
            let p = loaders[li];
            let ghost before = required@;
            append_window(&mut required, p, radius);
            li = li + 1;
            proof {
                assert forall|c: ChunkCoord|
                    #[trigger] required@.contains(c) <==> exists|j: int|
                        0 <= j < li && in_window(#[trigger] loaders@[j], rad, c) by {
                    if required@.contains(c) {
                        if before.contains(c) {
                            let j = choose|j: int|
                                0 <= j < li - 1 && in_window(#[trigger] loaders@[j], rad, c);
                            assert(in_window(loaders@[j], rad, c));
                        } else {
                            assert(in_window(loaders@[li - 1], rad, c));
                        }
                    }
                    if exists|j: int| 0 <= j < li && in_window(#[trigger] loaders@[j], rad, c) {
                        let j = choose|j: int|
                            0 <= j < li && in_window(#[trigger] loaders@[j], rad, c);
                        if j < li - 1 {
                            assert(in_window(loaders@[j], rad, c));
                            assert(before.contains(c));
                        }
                    }
                };
            }
        }
        proof {
            assert forall|c: ChunkCoord|
                #[trigger] required@.contains(c) <==> spec_required(loaders@, rad, c) by {};
        }

        // Load phase: create, populate and register every required chunk
        // that is not yet resident.
        let mut loaded: Vec<ChunkCoord> = Vec::new();
        let mut ri: usize = 0;
        while ri < required.len()
            invariant
                0 <= ri <= required@.len(),
                gen.wf(),
                self.world_seed == old(self).world_seed,
                self.load_radius == old(self).load_radius,
                old(self).wf(),
                self.wf(),
                old(self).resident@.is_prefix_of(self.resident@),
                forall|c: ChunkCoord|
                    #[trigger] self.is_resident(c) <==> (old(self).is_resident(c)
                        || required@.take(ri as int).contains(c)),
                forall|i: int|
                    old(self).resident@.len() <= i < self.resident@.len() ==> ((
                    #[trigger] self.resident@[i]).tiles_map() == spec_chunk_tiles(
                        *gen,
                        self.resident@[i].coord,
                    ) && !old(self).is_resident(self.resident@[i].coord) && required@.contains(
                        self.resident@[i].coord,
                    )),
                loaded@.len() + old(self).resident@.len() == self.resident@.len(),
                forall|k: int|
                    0 <= k < loaded@.len() ==> #[trigger] loaded@[k] == self.resident@[old(
                        self,
                    ).resident@.len() + k].coord,
            decreases required@.len() - ri,
        {
            let c = required[ri];
            let ghost prev = *self;
            if !self.is_chunk_resident(c) {
                let mut ch = Chunk::new(c, self.world_seed);
                gen.generate_chunk_terrain(&mut ch);
                ch.is_loaded = true;
                self.resident.push(ch);
                loaded.push(c);
                proof {
                    lemma_is_resident_push(prev, *self, ch);
                    assert(required@[ri as int] == c);
                    assert(required@.contains(c));
                }
            }
            ri = ri + 1;
            proof {
                assert(required@.take(ri as int) =~= required@.take(ri - 1).push(
                    required@[ri - 1],
                ));
                assert forall|cc: ChunkCoord|
                    #[trigger] self.is_resident(cc) <==> (old(self).is_resident(cc)
                        || required@.take(ri as int).contains(cc)) by {
                    assert(required@.take(ri as int).contains(cc) <==> (required@.take(
                        ri - 1,
                    ).contains(cc) || required@[ri - 1] == cc));
                };
            }
        }
        proof {
            assert(required@.take(required@.len() as int) =~= required@);
        }

        // Unload phase: keep exactly the chunks whose coordinate is still
        // required; evict the rest.
        let ghost mid = *self;
        let ghost old_len = old(self).resident@.len() as int;
        let mut kept: Vec<Chunk> = Vec::new();
        let mut unloaded: Vec<ChunkCoord> = Vec::new();
        while self.resident.len() > 0
            invariant
                self.world_seed == old(self).world_seed,
                self.load_radius == old(self).load_radius,
                old_len == old(self).resident@.len(),
                mid.wf(),
                mid.world_seed == old(self).world_seed,
                old(self).resident@.is_prefix_of(mid.resident@),
                forall|i: int|
                    old_len <= i < mid.resident@.len() ==> ((
                    #[trigger] mid.resident@[i]).tiles_map() == spec_chunk_tiles(
                        *gen,
                        mid.resident@[i].coord,
                    ) && !old(self).is_resident(mid.resident@[i].coord) && required@.contains(
                        mid.resident@[i].coord,
                    )),
                self.resident@.len() <= mid.resident@.len(),
                self.resident@ == mid.resident@.take(self.resident@.len() as int),
                forall|k: int|
                    0 <= k < kept@.len() ==> ((#[trigger] kept@[k]).wf() && kept@[k].seed == old(
                        self,
                    ).world_seed ^ spec_position_hash(kept@[k].coord) && kept@[k].is_loaded
                        && required@.contains(kept@[k].coord)),
                forall|k: int|
                    0 <= k < kept@.len() ==> exists|i: int|
                        self.resident@.len() <= i < mid.resident@.len() && (#[trigger] kept@[k])
                            == mid.resident@[i],
                forall|k1: int, k2: int|
                    0 <= k1 < k2 < kept@.len() ==> (#[trigger] kept@[k1]).coord != (
                    #[trigger] kept@[k2]).coord,
                forall|i: int|
                    self.resident@.len() <= i < mid.resident@.len() && required@.contains((
                    #[trigger] mid.resident@[i]).coord) ==> kept@.contains(mid.resident@[i]),
                forall|k: int|
                    0 <= k < kept@.len() ==> (old(self).resident@.contains(#[trigger] kept@[k])
                        || (kept@[k].tiles_map() == spec_chunk_tiles(*gen, kept@[k].coord) && !old(
                        self,
                    ).is_resident(kept@[k].coord))),
                forall|k: int|
                    0 <= k < unloaded@.len() ==> exists|i: int|
                        self.resident@.len() <= i < mid.resident@.len() && (
                        #[trigger] unloaded@[k]) == mid.resident@[i].coord && !required@.contains(
                            unloaded@[k],
                        ),
                forall|i: int|
                    self.resident@.len() <= i < mid.resident@.len() && !required@.contains((
                    #[trigger] mid.resident@[i]).coord) ==> unloaded@.contains(
                        mid.resident@[i].coord,
                    ),
                forall|k1: int, k2: int|
                    0 <= k1 < k2 < unloaded@.len() ==> unloaded@[k1] != unloaded@[k2],
            decreases self.resident@.len(),
        {
            let ghost prev_res = self.resident@;
            let popped = self.resident.pop();
            let ch = popped.unwrap();
            let ghost pi = self.resident@.len() as int;
            proof {
                assert(ch == prev_res[pi]);
                assert(prev_res == mid.resident@.take(pi + 1));
                assert(self.resident@ =~= mid.resident@.take(pi));
                assert(ch == mid.resident@[pi]);
                if pi < old_len {
                    assert(old(self).resident@[pi] == mid.resident@.take(old_len)[pi]);
                    assert(old(self).resident@.contains(mid.resident@[pi]));
                }
            }
            if contains_coord(&required, ch.coord) {
                let ghost kept_before = kept@;
                kept.push(ch);
                proof {
                    assert(kept@ == kept_before.push(ch));
                    assert(kept@[kept_before.len() as int] == ch);
                    assert forall|k: int|
                        0 <= k < kept@.len() implies exists|i: int|
                        self.resident@.len() <= i < mid.resident@.len() && (#[trigger] kept@[k])
                            == mid.resident@[i] by {
                        if k < kept_before.len() {
                            let i = choose|i: int|
                                pi + 1 <= i < mid.resident@.len() && (#[trigger] kept_before[k])
                                    == mid.resident@[i];
                            assert(kept@[k] == mid.resident@[i]);
                        } else {
                            assert(kept@[k] == mid.resident@[pi]);
                        }
                    };
                    assert forall|k1: int, k2: int|
                        0 <= k1 < k2 < kept@.len() implies (#[trigger] kept@[k1]).coord != (
                    #[trigger] kept@[k2]).coord by {
                        if k2 == kept_before.len() {
                            let i = choose|i: int|
                                pi + 1 <= i < mid.resident@.len() && (#[trigger] kept_before[k1])
                                    == mid.resident@[i];
                            assert(mid.resident@[pi].coord != mid.resident@[i].coord);
                        }
                    };
                    assert forall|i: int|
                        self.resident@.len() <= i < mid.resident@.len() && required@.contains((
                        #[trigger] mid.resident@[i]).coord) implies kept@.contains(
                        mid.resident@[i],
                    ) by {
                        if i == pi {
                            assert(kept@[kept_before.len() as int] == mid.resident@[i]);
                        } else {
                            assert(kept_before.contains(mid.resident@[i]));
                            let k = choose|k: int|
                                0 <= k < kept_before.len() && kept_before[k] == mid.resident@[i];
                            assert(kept@[k] == mid.resident@[i]);
                        }
                    };
                }
            } else {
                let ghost unl_before = unloaded@;
                unloaded.push(ch.coord);
                proof {
                    assert(unloaded@ == unl_before.push(ch.coord));
                    assert(unloaded@[unl_before.len() as int] == ch.coord);
                    assert forall|k: int|
                        0 <= k < unloaded@.len() implies exists|i: int|
                        self.resident@.len() <= i < mid.resident@.len() && (
                        #[trigger] unloaded@[k]) == mid.resident@[i].coord && !required@.contains(
                            unloaded@[k],
                        ) by {
                        if k < unl_before.len() {
                            let i = choose|i: int|
                                pi + 1 <= i < mid.resident@.len() && (#[trigger] unl_before[k])
                                    == mid.resident@[i].coord && !required@.contains(
                                    unl_before[k],
                                );
                            assert(unloaded@[k] == mid.resident@[i].coord);
                        } else {
                            assert(unloaded@[k] == mid.resident@[pi].coord);
                        }
                    };
                    assert forall|k1: int, k2: int|
                        0 <= k1 < k2 < unloaded@.len() implies unloaded@[k1] != unloaded@[k2] by {
                        if k2 == unl_before.len() {
                            let i = choose|i: int|
                                pi + 1 <= i < mid.resident@.len() && (#[trigger] unl_before[k1])
                                    == mid.resident@[i].coord && !required@.contains(
                                    unl_before[k1],
                                );
                            assert(mid.resident@[pi].coord != mid.resident@[i].coord);
                        }
                    };
                    assert forall|i: int|
                        self.resident@.len() <= i < mid.resident@.len() && !required@.contains((
                        #[trigger] mid.resident@[i]).coord) implies unloaded@.contains(
                        mid.resident@[i].coord,
                    ) by {
                        if i == pi {
                            assert(unloaded@[unl_before.len() as int] == mid.resident@[i].coord);
                        } else {
                            assert(unl_before.contains(mid.resident@[i].coord));
                            let k = choose|k: int|
                                0 <= k < unl_before.len() && unl_before[k]
                                    == mid.resident@[i].coord;
                            assert(unloaded@[k] == mid.resident@[i].coord);
                        }
                    };
                }
            }
        }
        proof {
            assert(self.resident@.len() == 0);
        }
        self.resident = kept;

        proof {
            // Residency now coincides with the required set.
            assert forall|c: ChunkCoord|
                #[trigger] self.is_resident(c) <==> spec_required(loaders@, rad, c) by {
                if self.is_resident(c) {
                    let k = choose|k: int|
                        0 <= k < self.resident@.len() && (#[trigger] self.resident@[k]).coord
                            == c;
                    assert(required@.contains(c));
                }
                if spec_required(loaders@, rad, c) {
                    assert(required@.contains(c));
                    assert(mid.is_resident(c));
                    let i = choose|i: int|
                        0 <= i < mid.resident@.len() && (#[trigger] mid.resident@[i]).coord == c;
                    assert(kept@.contains(mid.resident@[i]));
                    let k = choose|k: int|
                        0 <= k < kept@.len() && kept@[k] == mid.resident@[i];
                    assert(self.resident@[k].coord == c);
                }
            };
            // Still-required chunks were kept untouched.
            assert forall|ch: Chunk|
                #[trigger] old(self).resident@.contains(ch) && spec_required(
                    loaders@,
                    rad,
                    ch.coord,
                ) implies self.resident@.contains(ch) by {
                let i = choose|i: int|
                    0 <= i < old(self).resident@.len() && old(self).resident@[i] == ch;
                assert(old(self).resident@[i] == mid.resident@.take(old_len)[i]);
                assert(mid.resident@[i] == ch);
                assert(required@.contains(ch.coord));
                assert(kept@.contains(mid.resident@[i]));
            };
            // The loaded records are exactly the fresh coordinates.
            assert forall|c: ChunkCoord|
                #[trigger] loaded@.contains(c) <==> (spec_required(loaders@, rad, c) && !old(
                    self,
                ).is_resident(c)) by {
                if loaded@.contains(c) {
                    let k = choose|k: int| 0 <= k < loaded@.len() && loaded@[k] == c;
                    assert(loaded@[k] == mid.resident@[old_len + k].coord);
                    assert(required@.contains(c));
                }
                if spec_required(loaders@, rad, c) && !old(self).is_resident(c) {
                    assert(required@.contains(c));
                    assert(mid.is_resident(c));
                    let i = choose|i: int|
                        0 <= i < mid.resident@.len() && (#[trigger] mid.resident@[i]).coord == c;
                    if i < old_len {
                        assert(old(self).resident@[i] == mid.resident@.take(old_len)[i]);
                        assert(old(self).resident@[i].coord == c);
                    } else {
                        assert(loaded@[i - old_len] == c);
                    }
                }
            };
            assert forall|k1: int, k2: int|
                0 <= k1 < k2 < loaded@.len() implies loaded@[k1] != loaded@[k2] by {
                assert(loaded@[k1] == mid.resident@[old_len + k1].coord);
                assert(loaded@[k2] == mid.resident@[old_len + k2].coord);
            };
            // The unloaded records are exactly the dropped coordinates.
            assert forall|c: ChunkCoord|
                #[trigger] unloaded@.contains(c) <==> (old(self).is_resident(c) && !spec_required(
                    loaders@,
                    rad,
                    c,
                )) by {
                if unloaded@.contains(c) {
                    let k = choose|k: int| 0 <= k < unloaded@.len() && unloaded@[k] == c;
                    let i = choose|i: int|
                        0 <= i < mid.resident@.len() && (#[trigger] unloaded@[k])
                            == mid.resident@[i].coord && !required@.contains(unloaded@[k]);
                    assert(i < old_len);
                    assert(old(self).resident@[i] == mid.resident@.take(old_len)[i]);
                    assert(old(self).resident@[i].coord == c);
                }
                if old(self).is_resident(c) && !spec_required(loaders@, rad, c) {
                    let i = choose|i: int|
                        0 <= i < old(self).resident@.len() && (#[trigger] old(
                            self,
                        ).resident@[i]).coord == c;
                    assert(old(self).resident@[i] == mid.resident@.take(old_len)[i]);
                    assert(mid.resident@[i].coord == c);
                    assert(!required@.contains(mid.resident@[i].coord));
                    assert(unloaded@.contains(mid.resident@[i].coord));
                }
            };
        }
        StepTransitions { loaded, unloaded }
    }

    /// Index of the resident chunk at coordinate `c`, if any.
    fn find_resident(&self, c: ChunkCoord) -> (r: Option<usize>)
        ensures
            match r {
                Some(i) => i < self.resident@.len() && self.resident@[i as int].coord == c,
                None => !self.is_resident(c),
            },
    {
        let n = self.resident.len();
        let mut i: usize = 0;
        while i < n
            invariant
                n == self.resident@.len(),
                0 <= i <= n,
                forall|k: int| 0 <= k < i ==> (#[trigger] self.resident@[k]).coord != c,
            decreases n - i,
        {
            if self.resident[i].coord == c {
                return Some(i);
            }
            i = i + 1;
        }
        None
    }

    /// Whether the chunk at coordinate `c` is resident.
    pub fn is_chunk_resident(&self, c: ChunkCoord) -> (r: bool)
        ensures
            r == self.is_resident(c),
    {
        match self.find_resident(c) {
            Some(i) => {
                proof {
                    assert(self.resident@[i as int].coord == c);
                }
                true
            },
            None => false,
        }
    }

    /// How many chunks are resident.
    pub fn resident_count(&self) -> (n: usize)
        ensures
            n == self.resident@.len(),
    {
        self.resident.len()
    }

    /// The coordinates of all resident chunks, in registry order.
    pub fn resident_coords(&self) -> (v: Vec<ChunkCoord>)
        ensures
            v@.len() == self.resident@.len(),
            forall|i: int|
                0 <= i < v@.len() ==> #[trigger] v@[i] == self.resident@[i].coord,
    {
        let n = self.resident.len();
        let mut v: Vec<ChunkCoord> = Vec::new();
        let mut i: usize = 0;
        while i < n
            invariant
                n == self.resident@.len(),
                0 <= i <= n,
                v@.len() == i,
                forall|k: int| 0 <= k < i ==> #[trigger] v@[k] == self.resident@[k].coord,
            decreases n - i,
        {
            v.push(self.resident[i].coord);
            i = i + 1;
        }
        v
    }

    /// A reference to the resident chunk at coordinate `c`, if any.
    pub fn get_chunk(&self, c: ChunkCoord) -> (r: Option<&Chunk>)
        requires
            self.wf(),
        ensures
            match r {
                Some(ch) => self.is_resident(c) && *ch == self.chunk_at(c) && ch.coord == c,
                None => !self.is_resident(c),
            },
    {
        match self.find_resident(c) {
            Some(i) => {
                proof {
                    assert(self.resident@[i as int].coord == c);
                    lemma_resident_index_unique(*self, c, i as int);
                }
                Some(&self.resident[i])
            },
            None => None,
        }
    }

    /// The coordinates of the resident chunks among the eight rectangular
    /// neighbors of `c`, each listed once.
    pub fn get_neighbor_chunks(&self, c: ChunkCoord) -> (v: Vec<ChunkCoord>)
        requires
            i32::MIN < c.x < i32::MAX,
            i32::MIN < c.y < i32::MAX,
        ensures
            forall|cc: ChunkCoord|
                #[trigger] v@.contains(cc) <==> (rect_adjacent(c, cc) && self.is_resident(cc)),
            forall|k1: int, k2: int| 0 <= k1 < k2 < v@.len() ==> v@[k1] != v@[k2],
    {
        let mut v: Vec<ChunkCoord> = Vec::new();
        let mut dx: i32 = 0;
        while dx < 3
            invariant
                i32::MIN < c.x < i32::MAX,
                i32::MIN < c.y < i32::MAX,
                0 <= dx <= 3,
                forall|k: int|
                    0 <= k < v@.len() ==> rect_adjacent(c, #[trigger] v@[k]) && (v@[k].x - (c.x
                        - 1) < dx),
                forall|cc: ChunkCoord|
                    #[trigger] v@.contains(cc) <==> (rect_adjacent(c, cc) && self.is_resident(cc)
                        && cc.x - (c.x - 1) < dx),
                forall|k1: int, k2: int| 0 <= k1 < k2 < v@.len() ==> v@[k1] != v@[k2],
            decreases 3 - dx,
        {
            let mut dy: i32 = 0;
            while dy < 3
                invariant
                    i32::MIN < c.x < i32::MAX,
                    i32::MIN < c.y < i32::MAX,
                    0 <= dx < 3,
                    0 <= dy <= 3,
                    forall|k: int|
                        0 <= k < v@.len() ==> rect_adjacent(c, #[trigger] v@[k]) && (v@[k].x - (c.x
                            - 1) < dx || (v@[k].x - (c.x - 1) == dx && v@[k].y - (c.y - 1) < dy)),
                    forall|cc: ChunkCoord|
                        #[trigger] v@.contains(cc) <==> (rect_adjacent(c, cc) && self.is_resident(
                            cc,
                        ) && (cc.x - (c.x - 1) < dx || (cc.x - (c.x - 1) == dx && cc.y - (c.y - 1)
                            < dy))),
                    forall|k1: int, k2: int| 0 <= k1 < k2 < v@.len() ==> v@[k1] != v@[k2],
                decreases 3 - dy,
            {
                if !(dx == 1 && dy == 1) {
                    let cand = ChunkCoord { x: c.x - 1 + dx, y: c.y - 1 + dy };
                    if self.is_chunk_resident(cand) {
                        let ghost before = v@;
                        v.push(cand);
                        proof {
                            assert(v@[before.len() as int] == cand);
                            assert forall|cc: ChunkCoord|
                                #[trigger] v@.contains(cc) <==> (rect_adjacent(c, cc)
                                    && self.is_resident(cc) && (cc.x - (c.x - 1) < dx || (cc.x - (
                                c.x - 1) == dx && cc.y - (c.y - 1) < dy + 1))) by {
                                assert(v@.contains(cc) <==> (before.contains(cc) || cc == cand));
                                if rect_adjacent(c, cc) && self.is_resident(cc) && cc.x - (c.x - 1)
                                    == dx && cc.y - (c.y - 1) == dy {
                                    assert(cc == cand);
                                }
                            };
                        }
                    }
                }
                dy = dy + 1;
            }
            dx = dx + 1;
        }
        v
    }

    /// The populated tile at global hex coordinate `h`, if its owning chunk
    /// is resident and carries it.
    pub fn get_tile(&self, h: HexCoord) -> (t: Option<Tile>)
        requires
            self.wf(),
        ensures
            t is Some <==> (self.is_resident(spec_owner_chunk(h)) && self.chunk_at(
                spec_owner_chunk(h),
            ).tiles_map().dom().contains(h)),
            t matches Some(tile) ==> tile == self.chunk_at(spec_owner_chunk(h)).tiles_map()[h],
    {
        let owner = owner_chunk(h);
        match self.get_chunk(owner) {
            Some(ch) => ch.get_tile(h),
            None => None,
        }
    }
}

/// Linear search for a coordinate in a list.
fn contains_coord(v: &Vec<ChunkCoord>, c: ChunkCoord) -> (r: bool)
    ensures
        r == v@.contains(c),
{
    let n = v.len();
    let mut i: usize = 0;
    while i < n
        invariant
            n == v@.len(),
            0 <= i <= n,
            forall|k: int| 0 <= k < i ==> v@[k] != c,
        decreases n - i,
    {
        if v[i] == c {
            proof {
                assert(v@[i as int] == c);
            }
            return true;
        }
        i = i + 1;
    }
    false
}

/// Appends every coordinate of the square window of half-width `radius`
/// around `p` to `required` (repetitions with what is already listed are
/// allowed).
fn append_window(required: &mut Vec<ChunkCoord>, p: ChunkCoord, radius: i32)
    requires
        radius >= 0,
        i32::MIN <= p.x - radius,
        p.x + radius <= i32::MAX,
        i32::MIN <= p.y - radius,
        p.y + radius <= i32::MAX,
    ensures
        forall|c: ChunkCoord|
            #[trigger] final(required)@.contains(c) <==> (old(required)@.contains(c) || in_window(
                p,
                radius as int,
                c,
            )),
{
    let width: u64 = 2 * (radius as u64) + 1;
    let x0: i64 = p.x as i64 - radius as i64;
    let y0: i64 = p.y as i64 - radius as i64;
    let mut kx: u64 = 0;
    while kx < width
        invariant
            radius >= 0,
            width == 2 * (radius as int) + 1,
            x0 == p.x - radius,
            y0 == p.y - radius,
            i32::MIN <= p.x - radius,
            p.x + radius <= i32::MAX,
            i32::MIN <= p.y - radius,
            p.y + radius <= i32::MAX,
            0 <= kx <= width,
            forall|c: ChunkCoord|
                #[trigger] required@.contains(c) <==> (old(required)@.contains(c) || (in_window(
                    p,
                    radius as int,
                    c,
                ) && c.x - x0 < kx)),
        decreases width - kx,
    {
        let mut ky: u64 = 0;
        while ky < width
            invariant
                radius >= 0,
                width == 2 * (radius as int) + 1,
                x0 == p.x - radius,
                y0 == p.y - radius,
                i32::MIN <= p.x - radius,
                p.x + radius <= i32::MAX,
                i32::MIN <= p.y - radius,
                p.y + radius <= i32::MAX,
                0 <= kx < width,
                0 <= ky <= width,
                forall|c: ChunkCoord|
                    #[trigger] required@.contains(c) <==> (old(required)@.contains(c) || (
                    in_window(p, radius as int, c) && (c.x - x0 < kx || (c.x - x0 == kx && c.y - y0
                        < ky)))),
            decreases width - ky,
        {
            let cx: i64 = x0 + kx as i64;
            let cy: i64 = y0 + ky as i64;
            let cnew = ChunkCoord { x: cx as i32, y: cy as i32 };
            let ghost before = required@;
            required.push(cnew);
            proof {
                assert forall|c: ChunkCoord|
                    #[trigger] required@.contains(c) <==> (old(required)@.contains(c) || (
                    in_window(p, radius as int, c) && (c.x - x0 < kx || (c.x - x0 == kx && c.y - y0
                        < ky + 1)))) by {
                    assert(required@.contains(c) <==> (before.contains(c) || c == cnew));
                    assert(cnew.x == x0 + kx && cnew.y == y0 + ky);
                    if in_window(p, radius as int, c) && c.x - x0 == kx && c.y - y0 == ky {
                        assert(c == cnew);
                    }
                };
            }
            ky = ky + 1;
        }
        proof {
            assert forall|c: ChunkCoord|
                #[trigger] required@.contains(c) <==> (old(required)@.contains(c) || (in_window(
                    p,
                    radius as int,
                    c,
                ) && c.x - x0 < kx + 1)) by {
                if in_window(p, radius as int, c) {
                    assert(c.y - y0 < width);
                }
            };
        }
        kx = kx + 1;
    }
    proof {
        assert forall|c: ChunkCoord|
            #[trigger] required@.contains(c) <==> (old(required)@.contains(c) || in_window(
                p,
                radius as int,
                c,
            )) by {
            if in_window(p, radius as int, c) {
                assert(c.x - x0 < width);
            }
        };
    }
}

/// Pushing a chunk extends residency by exactly that chunk's coordinate.
proof fn lemma_is_resident_push(
    prev: ChunkStreamingManager,
    next: ChunkStreamingManager,
    ch: Chunk,
)
    requires
        next.resident@ == prev.resident@.push(ch),
    ensures
        forall|c: ChunkCoord|
            #[trigger] next.is_resident(c) <==> (prev.is_resident(c) || ch.coord == c),
{
    assert forall|c: ChunkCoord|
        #[trigger] next.is_resident(c) <==> (prev.is_resident(c) || ch.coord == c) by {
        let n = prev.resident@.len() as int;
        if next.is_resident(c) {
            let i = choose|i: int|
                0 <= i < next.resident@.len() && (#[trigger] next.resident@[i]).coord == c;
            if i < n {
                assert(prev.resident@[i].coord == c);
            }
        }
        if prev.is_resident(c) {
            let i = choose|i: int|
                0 <= i < prev.resident@.len() && (#[trigger] prev.resident@[i]).coord == c;
            assert(next.resident@[i].coord == c);
        }
        if ch.coord == c {
            assert(next.resident@[n].coord == c);
        }
    };
}

/// With a well-formed manager, any index holding coordinate `c` is the one
/// `chunk_at` denotes.
proof fn lemma_resident_index_unique(m: ChunkStreamingManager, c: ChunkCoord, i: int)
    requires
        m.wf(),
        0 <= i < m.resident@.len(),
        m.resident@[i].coord == c,
    ensures
        m.chunk_at(c) == m.resident@[i],
{
    let j = choose|j: int| 0 <= j < m.resident@.len() && (#[trigger] m.resident@[j]).coord == c;
    if i < j {
        assert(m.resident@[i].coord != m.resident@[j].coord);
    } else if j < i {
        assert(m.resident@[j].coord != m.resident@[i].coord);
    }
}

/// The chunk-space coordinate owning a global hex coordinate, by floor
/// division of each axis by the chunk size.
fn owner_chunk(h: HexCoord) -> (c: ChunkCoord)
    ensures
        c == spec_owner_chunk(h),
{
    proof {
        assert(CHUNK_SIZE == 16);
        vstd::arithmetic::div_mod::lemma_hoist_over_denominator(h.q as int, 0x800_0000, 16);
        vstd::arithmetic::div_mod::lemma_hoist_over_denominator(h.r as int, 0x800_0000, 16);
    }
    let qx: u64 = ((h.q as i64) + 0x8000_0000) as u64;
    let qy: u64 = ((h.r as i64) + 0x8000_0000) as u64;
    let cx: i64 = (qx / 16) as i64 - 0x800_0000;
    let cy: i64 = (qy / 16) as i64 - 0x800_0000;
    ChunkCoord { x: cx as i32, y: cy as i32 }
}

} // verus!
