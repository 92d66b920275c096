//! The step cache protocol: at most one worker populates a tile's
//! cached dataset while the others wait, and once it is ready every
//! worker reuses it. The claim registry is the process-wide
//! mutual-exclusion primitive; the crash-recovery marker scheme on disk
//! is driven by the decisions computed here.

use vstd::prelude::*;

verus! {

/// How long a worker sleeps before re-running the protocol while
/// another worker holds the claim, in milliseconds.
pub const CACHE_WAIT_MS: u64 = 500;

/// A tile in the shared cache, keyed by its numeric id: the easting and
/// northing of its ground cell.
#[derive(Clone, Copy, PartialEq, Eq, Structural, Debug)]
pub struct TileKey {
    pub easting: i64,
    pub northing: i64,
}

/// Observable state of one tile's cache entry.
#[derive(Clone, Copy, PartialEq, Eq, Structural, Debug)]
pub enum CacheEntry {
    /// No data on disk.
    Absent,
    /// Another worker holds the claim and is populating the entry.
    InProgress,
    /// The completion marker exists: the data is reusable as-is.
    Ready,
    /// Data exists without its completion marker: a crashed attempt.
    Corrupt,
}

/// What one observation of a tile's entry tells a worker to do.
#[derive(Clone, Copy, PartialEq, Eq, Structural, Debug)]
pub enum CacheDecision {
    /// Reuse the cached data immediately.
    UseReady,
    /// Sleep, then re-run the whole protocol from the first step.
    Wait { delay_ms: u64 },
    /// The retry ceiling is exhausted: surface an error.
    GiveUp,
    /// Claim the tile; first delete the partial data of a crashed
    /// attempt when there is any.
    Claim { clean_first: bool },
}

/// One step of the cache protocol: ready data is reused, a held claim is
/// waited out (up to a retry ceiling), and otherwise the tile is
/// claimed, cleaning up a crashed attempt first.
pub fn cache_step(observed: CacheEntry, retries_left: u32) -> (d: CacheDecision)
    ensures
        observed == CacheEntry::Ready ==> d == CacheDecision::UseReady,
        observed == CacheEntry::InProgress && retries_left > 0 ==> d == (CacheDecision::Wait {
            delay_ms: CACHE_WAIT_MS,
        }),
        observed == CacheEntry::InProgress && retries_left == 0 ==> d == CacheDecision::GiveUp,
        observed == CacheEntry::Absent ==> d == (CacheDecision::Claim { clean_first: false }),
        observed == CacheEntry::Corrupt ==> d == (CacheDecision::Claim { clean_first: true }),
{
    match observed {
        CacheEntry::Ready => CacheDecision::UseReady,
        CacheEntry::InProgress => if retries_left > 0 {
            CacheDecision::Wait { delay_ms: CACHE_WAIT_MS }
        } else {
            CacheDecision::GiveUp
        },
        CacheEntry::Absent => CacheDecision::Claim { clean_first: false },
        CacheEntry::Corrupt => CacheDecision::Claim { clean_first: true },
    }
}

/// The entry state after an attempt to populate the cache finishes: a
/// successful download and decompression leaves the entry ready, a
/// failure leaves partial data for the next claimant to clean up. The
/// claim is released in both cases.
pub fn entry_after_attempt(success: bool) -> (e: CacheEntry)
    ensures
        success ==> e == CacheEntry::Ready,
        !success ==> e == CacheEntry::Corrupt,
{
    if success {
        CacheEntry::Ready
    } else {
        CacheEntry::Corrupt
    }
}

/// The set of tiles whose claims are currently held, one holder each.
pub struct ClaimRegistry {
    claimed: Vec<TileKey>,
}

impl ClaimRegistry {
    /// The claimed tiles, as a set.
    pub closed spec fn claimed_set(&self) -> Set<TileKey> {
        self.claimed@.to_set()
    }

    /// An empty registry: no tile is claimed.
    pub fn new() -> (r: ClaimRegistry)
        ensures
            r.claimed_set() == Set::<TileKey>::empty(),
    {
        let r = ClaimRegistry { claimed: Vec::new() };
        proof {
            assert(r.claimed_set() =~= Set::<TileKey>::empty());
        }
        r
    }

    /// Whether `k` is currently claimed.
    pub fn holds(&self, k: TileKey) -> (r: bool)
        ensures
            r == self.claimed_set().contains(k),
    {
        let n = self.claimed.len();
        let mut i: usize = 0;
        while i < n
            invariant
                i <= n == self.claimed@.len(),
                forall|j: int| 0 <= j < i ==> self.claimed@[j] != k,
            decreases n - i,
        {
            if self.claimed[i] == k {
                assert(self.claimed@.contains(k));
                return true;
            }
            i = i + 1;
        }
        assert(!self.claimed@.contains(k));
        false
    }

    /// Atomically claims `k`: succeeds exactly when no other worker
    /// holds it, and `k` is claimed afterwards either way.
    pub fn try_claim(&mut self, k: TileKey) -> (won: bool)
        ensures
            won <==> !old(self).claimed_set().contains(k),
            final(self).claimed_set() == old(self).claimed_set().insert(k),
    {
        if self.holds(k) {
            proof {
                assert(self.claimed_set() =~= self.claimed_set().insert(k));
            }
            return false;
        }
        let ghost before = self.claimed@;
        self.claimed.push(k);
        proof {
            assert forall|a: TileKey| #[trigger]
                self.claimed@.contains(a) == (before.contains(a) || a == k) by {
                if self.claimed@.contains(a) {
                    let j = choose|j: int|
                        0 <= j < self.claimed@.len() && self.claimed@[j] == a;
                    if j < before.len() {
                        assert(before[j] == a);
                    }
                } else {
                    if before.contains(a) {
                        let j = choose|j: int| 0 <= j < before.len() && before[j] == a;
                        assert(self.claimed@[j] == a);
                    }
                    if a == k {
                        assert(self.claimed@[before.len() as int] == a);
                    }
                }
            }
            assert(self.claimed_set() =~= before.to_set().insert(k));
        }
        true
    }

    /// Releases the claim on `k`, claimed or not.
    pub fn release(&mut self, k: TileKey)
        ensures
            final(self).claimed_set() == old(self).claimed_set().remove(k),
    {
        let ghost before = self.claimed@;
        let n = self.claimed.len();
        let mut kept: Vec<TileKey> = Vec::new();
        let mut i: usize = 0;
        while i < n
            invariant
                i <= n == before.len(),
                self.claimed@ == before,
                forall|j: int| 0 <= j < kept@.len() ==> #[trigger] kept@[j] != k,
                forall|j: int| 0 <= j < kept@.len() ==> before.contains(#[trigger] kept@[j]),
                forall|a: TileKey|
                    a != k && before.subrange(0, i as int).contains(a) ==> #[trigger] kept@.contains(
                        a,
                    ),
            decreases n - i,
        {
            let e = self.claimed[i];
            let ghost kept0 = kept@;
            if !(e == k) {
                kept.push(e);
                assert(before.contains(e)) by {
                    assert(before[i as int] == e);
                }
            }
            proof {
                assert forall|a: TileKey|
                    a != k && before.subrange(0, i + 1).contains(a) implies #[trigger] kept@.contains(
                    a,
                ) by {
                    let sub = before.subrange(0, i + 1);
                    let j = choose|j: int| 0 <= j < sub.len() && sub[j] == a;
                    if j < i {
                        assert(before.subrange(0, i as int)[j] == a);
                        assert(kept0.contains(a));
                        let jj = choose|jj: int| 0 <= jj < kept0.len() && kept0[jj] == a;
                        assert(kept@[jj] == a);
                    } else {
                        assert(before[i as int] == a);
                        assert(e == a);
                        assert(kept@[kept@.len() - 1] == a);
                    }
                }
            }
            i = i + 1;
        }
        self.claimed = kept;
        proof {
            assert(before.subrange(0, n as int) =~= before);
            assert(self.claimed_set() =~= before.to_set().remove(k));
        }
    }
}

/// The claimed set after `i` successive claim attempts on the same tile.
pub open spec fn claim_set_after(s0: Set<TileKey>, k: TileKey, i: int) -> Set<TileKey>
    decreases i,
{
    if i <= 0 {
        s0
    } else {
        claim_set_after(s0, k, i - 1).insert(k)
    }
}

/// Whether the `i`-th of the successive claim attempts on a tile wins.
pub open spec fn claim_attempt_wins(s0: Set<TileKey>, k: TileKey, i: int) -> bool {
    !claim_set_after(s0, k, i).contains(k)
}

/// Cache mutual exclusion: starting from a tile nobody holds, of any
/// number of successive claim attempts on it exactly one — the first —
/// wins and proceeds to download; every later attempt observes the held
/// claim and loses.
pub proof fn lemma_claim_mutual_exclusion(s0: Set<TileKey>, k: TileKey, n: int)
    requires
        !s0.contains(k),
        n >= 1,
    ensures
        claim_attempt_wins(s0, k, 0),
        forall|i: int| 1 <= i < n ==> !claim_attempt_wins(s0, k, i),
{
    assert forall|i: int| 1 <= i < n implies !claim_attempt_wins(s0, k, i) by {
        assert(claim_set_after(s0, k, i) == claim_set_after(s0, k, i - 1).insert(k));
    }
}

} // verus!
