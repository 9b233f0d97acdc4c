use vstd::prelude::*;

use crate::clock::{instant_now, millis_since};

verus! {

/// How long a signature is remembered, in milliseconds: twice the 60 s
/// authentication window.
pub const DEFAULT_TTL_MS: u64 = 120_000;

/// Time passed from `first_seen` to `now`, zero when the clock went back.
pub open spec fn elapsed(first_seen: u64, now: u64) -> nat {
    if now >= first_seen {
        (now - first_seen) as nat
    } else {
        0
    }
}

/// An entry seen at `first_seen` is still held at `now`: it expires only once
/// more than the time to live has passed.
pub open spec fn is_live(first_seen: u64, now: u64, ttl: u64) -> bool {
    elapsed(first_seen, now) <= ttl
}

/// What remains of `seen` once the entries expired at `now` are dropped.
pub open spec fn live_part(seen: Map<Seq<char>, u64>, now: u64, ttl: u64) -> Map<
    Seq<char>,
    u64,
> {
    seen.filter_keys(|k: Seq<char>| is_live(seen[k], now, ttl))
}

/// One remembered signature and the moment it was first used.
pub struct CacheEntry {
    pub signature: String,
    pub first_seen: u64,
}

/// Signatures used recently, each with the time it was first seen, to
/// reject a request that reuses one. Times are milliseconds of the monotonic
/// clock since the cache was made. The entries are kept in a vector: vstd
/// specifies hash maps only for keys with a hashing model, which `String`
/// lacks, so lookups are linear.
pub struct SignatureCache {
    entries: Vec<CacheEntry>,
    ttl: u64,
    origin: std::time::Instant,
    seen: Ghost<Map<Seq<char>, u64>>,
}

impl View for SignatureCache {
    type V = Map<Seq<char>, u64>;

    closed spec fn view(&self) -> Map<Seq<char>, u64> {
        self.seen@
    }
}

impl SignatureCache {
    /// The time to live, in milliseconds.
    pub closed spec fn ttl_spec(&self) -> u64 {
        self.ttl
    }

    /// The entries list each remembered signature once, with the time the
    /// map gives it.
    pub closed spec fn wf(&self) -> bool {
        &&& self.seen@.dom().finite()
        &&& self.seen@.len() == self.entries@.len()
        &&& forall|i: int|
            0 <= i < self.entries@.len() ==> #[trigger] self.seen@.contains_key(
                self.entries@[i].signature@,
            ) && self.seen@[self.entries@[i].signature@] == self.entries@[i].first_seen
        &&& forall|k: Seq<char>|
            #[trigger] self.seen@.contains_key(k) ==> exists|i: int|
                0 <= i < self.entries@.len() && #[trigger] self.entries@[i].signature@ == k
        &&& forall|i: int, j: int|
            0 <= i < j < self.entries@.len() ==> self.entries@[i].signature@
                != self.entries@[j].signature@
    }

    /// An empty cache that keeps signatures for two minutes.
    pub fn new() -> (r: SignatureCache)
        ensures
            r.wf(),
            r@ == Map::<Seq<char>, u64>::empty(),
            r.ttl_spec() == DEFAULT_TTL_MS,
    {
        SignatureCache::with_ttl(DEFAULT_TTL_MS)
    }

    /// An empty cache that keeps signatures for `ttl_ms` milliseconds.
    pub fn with_ttl(ttl_ms: u64) -> (r: SignatureCache)
        ensures
            r.wf(),
            r@ == Map::<Seq<char>, u64>::empty(),
            r.ttl_spec() == ttl_ms,
    {
        SignatureCache {
            entries: Vec::new(),
            ttl: ttl_ms,
            origin: instant_now(),
            seen: Ghost(Map::empty()),
        }
    }

    /// The present time on the cache's clock: milliseconds of the monotonic
    /// clock since the cache was made.
    pub fn now_millis(&self) -> (r: u64) {
        millis_since(&self.origin)
    }

    /// Number of signatures held.
    pub fn size(&self) -> (r: usize)
        requires
            self.wf(),
        ensures
            r == self@.len(),
    {
        self.entries.len()
    }

    fn find(&self, signature: &str) -> (r: Option<usize>)
        requires
            self.wf(),
        ensures
            r matches Some(i) ==> i < self.entries@.len() && self.entries@[i as int].signature@
                == signature@,
            r is None ==> !self@.contains_key(signature@),
    {
        let target = signature.to_string();
        let mut i: usize = 0;
        while i < self.entries.len()
            invariant
                self.wf(),
                target@ == signature@,
                i <= self.entries@.len(),
                forall|j: int| 0 <= j < i ==> self.entries@[j].signature@ != signature@,
            decreases self.entries@.len() - i,
        {
            if self.entries[i].signature == target {
                return Some(i);
            }
            i += 1;
        }
        None
    }

    /// Drops every entry older than the time to live at `now`.
    pub fn cleanup(&mut self, now: u64)
        requires
            old(self).wf(),
        ensures
            final(self).wf(),
            final(self)@ == live_part(old(self)@, now, old(self).ttl_spec()),
            final(self).ttl_spec() == old(self).ttl_spec(),
    {
        let ghost before = self.seen@;
        let mut kept: Vec<CacheEntry> = Vec::new();
        let ghost mut kept_map: Map<Seq<char>, u64> = Map::empty();
        let mut old_entries: Vec<CacheEntry> = Vec::new();
        let ghost snapshot = self.entries@;
        core::mem::swap(&mut old_entries, &mut self.entries);
        assert(old_entries@ == snapshot);
        let n = old_entries.len();
        assert forall|a: int|
            0 <= a < n implies #[trigger] before.contains_key(
                old_entries@[a].signature@,
            ) && before[old_entries@[a].signature@] == old_entries@[a].first_seen by {
            assert(old_entries@[a] == snapshot[a]);
            assert(old(self).seen@.contains_key(old(self).entries@[a].signature@));
        }
        assert forall|k: Seq<char>|
            #[trigger] before.contains_key(k) implies exists|a: int|
                0 <= a < n && #[trigger] old_entries@[a].signature@ == k by {
            let a = choose|a: int|
                0 <= a < snapshot.len() && #[trigger] old(self).entries@[a].signature@ == k;
            assert(old_entries@[a].signature@ == k);
        }
        assert forall|a: int, b: int|
            0 <= a < b < n implies old_entries@[a].signature@ != old_entries@[b].signature@ by {
            assert(old_entries@[a] == old(self).entries@[a]);
            assert(old_entries@[b] == old(self).entries@[b]);
        }
        let mut i: usize = 0;
        while i < n
            invariant
                n == old_entries@.len(),
                i <= n,
                before.dom().finite(),
                forall|a: int|
                    0 <= a < n ==> #[trigger] before.contains_key(old_entries@[a].signature@)
                        && before[old_entries@[a].signature@] == old_entries@[a].first_seen,
                forall|k: Seq<char>|
                    #[trigger] before.contains_key(k) ==> exists|a: int|
                        0 <= a < n && #[trigger] old_entries@[a].signature@ == k,
                forall|a: int, b: int|
                    0 <= a < b < n ==> old_entries@[a].signature@ != old_entries@[b].signature@,
                kept_map.dom().finite(),
                kept_map.len() == kept@.len(),
                forall|a: int|
                    0 <= a < kept@.len() ==> #[trigger] kept_map.contains_key(
                        kept@[a].signature@,
                    ) && kept_map[kept@[a].signature@] == kept@[a].first_seen,
                forall|k: Seq<char>|
                    #[trigger] kept_map.contains_key(k) ==> exists|a: int|
                        0 <= a < kept@.len() && #[trigger] kept@[a].signature@ == k,
                forall|a: int, b: int|
                    0 <= a < b < kept@.len() ==> kept@[a].signature@ != kept@[b].signature@,
                forall|k: Seq<char>|
                    #[trigger] kept_map.contains_key(k) <==> (exists|a: int|
                        0 <= a < i && #[trigger] old_entries@[a].signature@ == k && is_live(
                            old_entries@[a].first_seen,
                            now,
                            self.ttl,
                        )),
                forall|k: Seq<char>| #[trigger] kept_map.contains_key(k) ==> kept_map[k] == before[k],
            decreases n - i,
        {
            let e = &old_entries[i];
            let first_seen = e.first_seen;
            let live = if now >= first_seen {
                now - first_seen <= self.ttl
            } else {
                true
            };
            if live {
                let ghost key = e.signature@;
                assert(before.contains_key(old_entries@[i as int].signature@));
                assert(before[key] == first_seen);
                assert(!kept_map.contains_key(key)) by {
                    if kept_map.contains_key(key) {
                        let a = choose|a: int|
                            0 <= a < i && #[trigger] old_entries@[a].signature@ == key && is_live(
                                old_entries@[a].first_seen,
                                now,
                                self.ttl,
                            );
                        assert(old_entries@[a].signature@ != old_entries@[i as int].signature@);
                    }
                }
                let ghost kept_before = kept@;
                kept.push(CacheEntry { signature: e.signature.clone(), first_seen });
                proof {
                    kept_map = kept_map.insert(key, first_seen);
                    assert forall|k: Seq<char>|
                        #[trigger] kept_map.contains_key(k) implies exists|a: int|
                            0 <= a < kept@.len() && #[trigger] kept@[a].signature@ == k by {
                        if k == key {
                            assert(kept@[kept@.len() - 1].signature@ == k);
                        } else {
                            let a = choose|a: int|
                                0 <= a < kept_before.len() && #[trigger] kept_before[a].signature@ == k;
                            assert(kept@[a] == kept_before[a]);
                        }
                    }
                    assert forall|k: Seq<char>|
                        #[trigger] kept_map.contains_key(k) <==> (exists|a: int|
                            0 <= a < i + 1 && #[trigger] old_entries@[a].signature@ == k
                                && is_live(old_entries@[a].first_seen, now, self.ttl)) by {
                        if k == key {
                            assert(old_entries@[i as int].signature@ == k);
                        }
                    }
                }
            } else {
                proof {
                    assert forall|k: Seq<char>|
                        #[trigger] kept_map.contains_key(k) <==> (exists|a: int|
                            0 <= a < i + 1 && #[trigger] old_entries@[a].signature@ == k
                                && is_live(old_entries@[a].first_seen, now, self.ttl)) by {
                        if exists|a: int|
                            0 <= a < i + 1 && #[trigger] old_entries@[a].signature@ == k
                                && is_live(old_entries@[a].first_seen, now, self.ttl) {
                            let a = choose|a: int|
                                0 <= a < i + 1 && #[trigger] old_entries@[a].signature@ == k
                                    && is_live(old_entries@[a].first_seen, now, self.ttl);
                            if a == i {
                                assert(before[k] == old_entries@[i as int].first_seen);
                            }
                        }
                    }
                }
            }
            i += 1;
        }
        self.entries = kept;
        proof {
            let target = live_part(before, now, self.ttl);
            assert forall|k: Seq<char>| #[trigger] kept_map.contains_key(k) <==> target.contains_key(k) by {
                if before.contains_key(k) {
                    let a = choose|a: int| 0 <= a < n && #[trigger] old_entries@[a].signature@ == k;
                    assert(old_entries@[a].signature@ == k);
                }
            }
            assert(kept_map =~= target);
            self.seen = Ghost(kept_map);
        }
    }

    /// Whether `signature` was seen within the time to live before `now`;
    /// expired entries are dropped first.
    pub fn is_replay_at(&mut self, signature: &str, now: u64) -> (r: bool)
        requires
            old(self).wf(),
        ensures
            final(self).wf(),
            final(self)@ == live_part(old(self)@, now, old(self).ttl_spec()),
            final(self).ttl_spec() == old(self).ttl_spec(),
            r == (old(self)@.contains_key(signature@) && is_live(
                old(self)@[signature@],
                now,
                old(self).ttl_spec(),
            )),
    {
        self.cleanup(now);
        let found = self.find(signature);
        proof {
            let live = live_part(old(self)@, now, old(self).ttl_spec());
            if let Some(i) = found {
                assert(self.seen@.contains_key(self.entries@[i as int].signature@));
            }
            assert(live.contains_key(signature@) == (old(self)@.contains_key(signature@)
                && is_live(old(self)@[signature@], now, old(self).ttl_spec())));
        }
        found.is_some()
    }

    /// Remembers `signature` as first seen at `now`.
    pub fn add_at(&mut self, signature: &str, now: u64)
        requires
            old(self).wf(),
        ensures
            final(self).wf(),
            final(self)@ == old(self)@.insert(signature@, now),
            final(self).ttl_spec() == old(self).ttl_spec(),
    {
        let ghost before = self.seen@;
        match self.find(signature) {
            Some(i) => {
                self.entries.set(i, CacheEntry { signature: signature.to_string(), first_seen: now });
                proof {
                    self.seen = Ghost(before.insert(signature@, now));
                    assert(before.insert(signature@, now).dom() =~= before.dom());
                    assert forall|k: Seq<char>|
                        #[trigger] self.seen@.contains_key(k) implies exists|a: int|
                            0 <= a < self.entries@.len() && #[trigger] self.entries@[a].signature@ == k by {
                        let a = choose|a: int|
                            0 <= a < self.entries@.len() && #[trigger] old(self).entries@[a].signature@ == k;
                        assert(self.entries@[a].signature@ == k);
                    }
                    assert forall|a: int|
                        0 <= a < self.entries@.len() implies #[trigger] self.entries@[a].signature@
                            == old(self).entries@[a].signature@ by {}
                    assert forall|a: int, b: int|
                        0 <= a < b < self.entries@.len() implies self.entries@[a].signature@
                            != self.entries@[b].signature@ by {
                        assert(self.entries@[a].signature@ == old(self).entries@[a].signature@);
                        assert(self.entries@[b].signature@ == old(self).entries@[b].signature@);
                    }
                    assert(self.seen@.len() == self.entries@.len());
                    assert forall|a: int|
                        0 <= a < self.entries@.len() implies #[trigger] self.seen@.contains_key(
                            self.entries@[a].signature@,
                        ) && self.seen@[self.entries@[a].signature@] == self.entries@[a].first_seen by {
                        if a != i {
                            assert(old(self).seen@.contains_key(old(self).entries@[a].signature@));
                        }
                    }
                    assert(self.wf());
                }
            },
            None => {
                self.entries.push(CacheEntry { signature: signature.to_string(), first_seen: now });
                proof {
                    self.seen = Ghost(before.insert(signature@, now));
                    assert forall|k: Seq<char>|
                        #[trigger] self.seen@.contains_key(k) implies exists|a: int|
                            0 <= a < self.entries@.len() && #[trigger] self.entries@[a].signature@ == k by {
                        if k == signature@ {
                            assert(self.entries@[self.entries@.len() - 1].signature@ == k);
                        } else {
                            let a = choose|a: int|
                                0 <= a < old(self).entries@.len() && #[trigger] old(self).entries@[a].signature@ == k;
                            assert(self.entries@[a].signature@ == k);
                        }
                    }
                    assert forall|a: int|
                        0 <= a < old(self).entries@.len() implies old(self).entries@[a].signature@
                            != signature@ by {
                        assert(old(self).seen@.contains_key(old(self).entries@[a].signature@));
                    }
                    assert forall|a: int, b: int|
                        0 <= a < b < self.entries@.len() implies self.entries@[a].signature@
                            != self.entries@[b].signature@ by {
                        assert(self.entries@[a] == old(self).entries@[a]);
                        if b < old(self).entries@.len() {
                            assert(self.entries@[b] == old(self).entries@[b]);
                        }
                    }
                    assert forall|a: int|
                        0 <= a < self.entries@.len() implies #[trigger] self.seen@.contains_key(
                            self.entries@[a].signature@,
                        ) && self.seen@[self.entries@[a].signature@] == self.entries@[a].first_seen by {
                        if a < old(self).entries@.len() {
                            assert(self.entries@[a] == old(self).entries@[a]);
                            assert(old(self).seen@.contains_key(old(self).entries@[a].signature@));
                        }
                    }
                    assert(self.seen@.len() == self.entries@.len());
                    assert(self.wf());
                }
            },
        }
    }

    /// Whether `signature` was seen within the time to live, judged at the
    /// present time; expired entries are dropped first.
    pub fn is_replay(&mut self, signature: &str) -> (r: bool)
        requires
            old(self).wf(),
        ensures
            final(self).wf(),
            final(self).ttl_spec() == old(self).ttl_spec(),
            exists|now: u64|
                #![trigger live_part(old(self)@, now, old(self).ttl_spec())]
                final(self)@ == live_part(old(self)@, now, old(self).ttl_spec()) && r == (old(
                    self,
                )@.contains_key(signature@) && is_live(
                    old(self)@[signature@],
                    now,
                    old(self).ttl_spec(),
                )),
    {
        let now = self.now_millis();
        self.is_replay_at(signature, now)
    }

    /// Remembers `signature` as first seen at the present time.
    pub fn add(&mut self, signature: &str)
        requires
            old(self).wf(),
        ensures
            final(self).wf(),
            final(self).ttl_spec() == old(self).ttl_spec(),
            exists|now: u64| final(self)@ == #[trigger] old(self)@.insert(signature@, now),
    {
        let now = self.now_millis();
        self.add_at(signature, now);
    }
}

impl Default for SignatureCache {
    fn default() -> (r: SignatureCache)
        ensures
            r.wf(),
            r@ == Map::<Seq<char>, u64>::empty(),
            r.ttl_spec() == DEFAULT_TTL_MS,
    {
        SignatureCache::new()
    }
}

/// A signature remembered at `first_seen` is reported as a replay at `now`
/// exactly while no more than the time to live has passed since
/// `first_seen` (an age equal to the time to live still counts); once more
/// has passed, the check that drops expired entries forgets it.
pub proof fn lemma_remembered_until_expiry(
    seen: Map<Seq<char>, u64>,
    signature: Seq<char>,
    first_seen: u64,
    now: u64,
    ttl: u64,
)
    ensures
        ({
            let after = seen.insert(signature, first_seen);
            &&& (after.contains_key(signature) && is_live(after[signature], now, ttl))
                <==> elapsed(first_seen, now) <= ttl
            &&& live_part(after, now, ttl).contains_key(signature) <==> elapsed(first_seen, now)
                <= ttl
        }),
{
}

} // verus!
