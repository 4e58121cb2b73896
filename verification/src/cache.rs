//! The memoizing cache: a key-to-outcome store with a fixed time-to-live and
//! single-flight coalescing.
//!
//! The cache itself is a sequential state machine.  Callers that sit around
//! I/O drive it in three steps: `lookup` asks for a live stored outcome,
//! `begin` claims the right to run the producer for a key (at most one claim
//! per key may be outstanding), and `complete` stores the producer's outcome
//! (success or error alike) and releases the claim.  Every waiter that looks
//! up the key inside the time-to-live window then reads that one outcome.
//!
//! Time never comes from a clock in here: each step takes `now` (seconds) as
//! an argument, so every statement below holds for any notion of time the
//! caller keeps.
use crate::errors::ServiceError;
use vstd::prelude::*;

verus! {

/// One stored outcome.  Entries are immutable once stored; a refresh replaces
/// the whole entry under the same key.
pub struct CacheEntry<V> {
    key: u64,
    outcome: Result<V, ServiceError>,
    inserted_at: u64,
}

/// Key-to-outcome store with a fixed time-to-live and per-key single-flight
/// claims.  `V` is the cached value type; errors are cached exactly like
/// successes.
pub struct MemoCache<V> {
    ttl: u64,
    entries: Vec<CacheEntry<V>>,
    in_flight: Vec<u64>,
}

/// True when some entry of `s` carries `key`.
spec fn seq_has_key<V>(s: Seq<CacheEntry<V>>, key: u64) -> bool {
    exists|i: int| 0 <= i < s.len() && s[i].key == key
}

/// The index of the entry of `s` that carries `key` (unique under `wf`).
spec fn seq_key_index<V>(s: Seq<CacheEntry<V>>, key: u64) -> int {
    choose|i: int| 0 <= i < s.len() && s[i].key == key
}

/// The stored pair for `key` read off a raw entry sequence.
spec fn stored_of<V>(s: Seq<CacheEntry<V>>, key: u64) -> Option<
    (Result<V, ServiceError>, u64),
> {
    if seq_has_key(s, key) {
        let i = seq_key_index(s, key);
        Some((s[i].outcome, s[i].inserted_at))
    } else {
        None
    }
}

impl<V> MemoCache<V> {
    /// Internal consistency: at most one entry and at most one flight claim
    /// per key.
    pub closed spec fn wf(&self) -> bool {
        &&& forall|i: int, j: int|
            0 <= i < j < self.entries@.len() ==> self.entries@[i].key != self.entries@[j].key
        &&& forall|i: int, j: int|
            0 <= i < j < self.in_flight@.len() ==> self.in_flight@[i] != self.in_flight@[j]
    }

    /// The configured time-to-live, in seconds.
    pub closed spec fn spec_ttl(&self) -> u64 {
        self.ttl
    }

    /// What the cache stores for `key`: the outcome and its insertion time,
    /// or `None` when no entry exists.
    pub closed spec fn stored(&self, key: u64) -> Option<(Result<V, ServiceError>, u64)> {
        stored_of(self.entries@, key)
    }

    /// True when a producer run for `key` has been claimed and not yet
    /// completed.
    pub closed spec fn inflight(&self, key: u64) -> bool {
        self.in_flight@.contains(key)
    }

    /// An entry is live while less than one time-to-live has passed since it
    /// was inserted; validity is checked lazily, on access.
    pub open spec fn live(&self, key: u64, now: u64) -> bool {
        match self.stored(key) {
            Some(e) => now - e.1 < self.spec_ttl(),
            None => false,
        }
    }

    /// What one `begin` step does: `started` is the decision, entries never
    /// change, and the flight claim for `key` is taken exactly when the
    /// caller is told to compute.
    pub open spec fn begin_post(pre: Self, post: Self, key: u64, now: u64, started: bool) -> bool {
        &&& started == (!pre.live(key, now) && !pre.inflight(key))
        &&& post.spec_ttl() == pre.spec_ttl()
        &&& forall|k: u64| post.stored(k) == pre.stored(k)
        &&& post.inflight(key) == (pre.inflight(key) || started)
        &&& forall|k: u64| k != key ==> post.inflight(k) == pre.inflight(k)
    }

    /// What one `complete` step does: the outcome (success or error alike) is
    /// stored under `key` with insertion time `now`, other keys keep their
    /// entries, and only the flight claim for `key` is released.
    pub open spec fn complete_post(
        pre: Self,
        post: Self,
        key: u64,
        outcome: Result<V, ServiceError>,
        now: u64,
    ) -> bool {
        &&& post.spec_ttl() == pre.spec_ttl()
        &&& post.stored(key) == Some((outcome, now))
        &&& forall|k: u64| k != key ==> post.stored(k) == pre.stored(k)
        &&& !post.inflight(key)
        &&& forall|k: u64| k != key ==> post.inflight(k) == pre.inflight(k)
    }

    /// An empty cache with the given time-to-live.
    pub fn new(ttl: u64) -> (c: Self)
        ensures
            c.wf(),
            c.spec_ttl() == ttl,
            forall|k: u64| c.stored(k) is None,
            forall|k: u64| !c.inflight(k),
    {
        MemoCache { ttl, entries: Vec::new(), in_flight: Vec::new() }
    }

    /// The index of the entry carrying `key`, if any.
    fn find_entry(&self, key: u64) -> (r: Option<usize>)
        ensures
            match r {
                Some(i) => i < self.entries@.len() && self.entries@[i as int].key == key,
                None => !seq_has_key(self.entries@, key),
            },
    {
        let mut i: usize = 0;
        while i < self.entries.len()
            invariant
                i <= self.entries@.len(),
                forall|j: int| 0 <= j < i ==> self.entries@[j].key != key,
            decreases self.entries@.len() - i,
        {
            if self.entries[i].key == key {
                return Some(i);
            }
            i = i + 1;
        }
        None
    }

    /// The position of `key` among the outstanding flight claims, if any.
    fn find_flight(&self, key: u64) -> (r: Option<usize>)
        ensures
            match r {
                Some(i) => i < self.in_flight@.len() && self.in_flight@[i as int] == key,
                None => !self.in_flight@.contains(key),
            },
    {
        let mut i: usize = 0;
        while i < self.in_flight.len()
            invariant
                i <= self.in_flight@.len(),
                forall|j: int| 0 <= j < i ==> self.in_flight@[j] != key,
            decreases self.in_flight@.len() - i,
        {
            if self.in_flight[i] == key {
                return Some(i);
            }
            i = i + 1;
        }
        None
    }

    /// Under `wf`, an entry found at index `i` is exactly what `stored`
    /// reports for its key.
    proof fn lemma_stored_at(&self, i: int)
        requires
            self.wf(),
            0 <= i < self.entries@.len(),
        ensures
            self.stored(self.entries@[i].key) == Some(
                (self.entries@[i].outcome, self.entries@[i].inserted_at),
            ),
    {
        let key = self.entries@[i].key;
        assert(seq_has_key(self.entries@, key));
        let j = seq_key_index(self.entries@, key);
        assert(0 <= j < self.entries@.len() && self.entries@[j].key == key);
        assert(j == i);
    }

    /// Serve from the cache: `Some` exactly when a live entry for `key`
    /// exists, and then it is the stored outcome, returned without any new
    /// computation.
    pub fn lookup(&self, key: u64, now: u64) -> (r: Option<&Result<V, ServiceError>>)
        requires
            self.wf(),
        ensures
            match r {
                Some(o) => self.live(key, now) && (self.stored(key) matches Some(e) && *o
                    == e.0),
                None => !self.live(key, now),
            },
    {
        match self.find_entry(key) {
            Some(i) => {
                proof {
                    self.lemma_stored_at(i as int);
                }
                let e = &self.entries[i];
                if now < e.inserted_at || now - e.inserted_at < self.ttl {
                    Some(&e.outcome)
                } else {
                    None
                }
            },
            None => None,
        }
    }

    /// True while a producer run for `key` is outstanding.
    pub fn is_in_flight(&self, key: u64) -> (b: bool)
        ensures
            b == self.inflight(key),
    {
        self.find_flight(key).is_some()
    }

    /// Decide for one caller: `true` tells the caller to run the producer
    /// (and claims the flight for `key`); `false` tells it to serve the live
    /// entry or wait for the outstanding run.
    pub fn begin(&mut self, key: u64, now: u64) -> (started: bool)
        requires
            old(self).wf(),
        ensures
            final(self).wf(),
            Self::begin_post(*old(self), *final(self), key, now, started),
    {
        let live_now = self.lookup(key, now).is_some();
        let flying = self.is_in_flight(key);
        if !live_now && !flying {
            self.in_flight.push(key);
            assert forall|k: u64| k != key implies self.inflight(k) == old(self).inflight(k) by {
                assert(self.in_flight@ == old(self).in_flight@.push(key));
                if old(self).in_flight@.contains(k) {
                    let i = old(self).in_flight@.index_of(k);
                    assert(self.in_flight@[i] == k);
                }
                if self.in_flight@.contains(k) {
                    let i = choose|i: int| 0 <= i < self.in_flight@.len() && self.in_flight@[i] == k;
                    assert(old(self).in_flight@[i] == k);
                }
            }
            assert(self.inflight(key)) by {
                assert(self.in_flight@[self.in_flight@.len() - 1] == key);
            }
            true
        } else {
            false
        }
    }

    /// Store the producer's outcome (success or error alike) under `key`
    /// with insertion time `now`, and release the flight claim.
    pub fn complete(&mut self, key: u64, outcome: Result<V, ServiceError>, now: u64)
        requires
            old(self).wf(),
            old(self).inflight(key),
        ensures
            final(self).wf(),
            Self::complete_post(*old(self), *final(self), key, outcome, now),
    {
        match self.find_entry(key) {
            Some(i) => {
                self.entries[i] = CacheEntry { key, outcome, inserted_at: now };
                proof {
                    lemma_update_keeps_keys(old(self).entries@, self.entries@, i as int, key);
                }
            },
            None => {
                self.entries.push(CacheEntry { key, outcome, inserted_at: now });
                proof {
                    lemma_push_keeps_keys(old(self).entries@, self.entries@, key);
                }
            },
        }
        proof {
            self.lemma_stored_at(seq_key_index(self.entries@, key));
        }
        match self.find_flight(key) {
            Some(j) => {
                self.in_flight.remove(j);
                proof {
                    lemma_remove_unique(old(self).in_flight@, self.in_flight@, j as int, key);
                }
            },
            None => {
                // Unreachable: the precondition says the flight claim for
                // `key` is outstanding.
                proof {
                    assert(false);
                }
            },
        }
    }
}

/// Replacing the entry at `i` (which carried `key`) with a fresh entry for
/// the same `key` keeps uniqueness and every other key's stored pair.
proof fn lemma_update_keeps_keys<V>(
    pre: Seq<CacheEntry<V>>,
    post: Seq<CacheEntry<V>>,
    i: int,
    key: u64,
)
    requires
        0 <= i < pre.len(),
        post.len() == pre.len(),
        pre[i].key == key,
        post[i].key == key,
        forall|j: int| 0 <= j < pre.len() && j != i ==> post[j] == pre[j],
        forall|a: int, b: int| 0 <= a < b < pre.len() ==> pre[a].key != pre[b].key,
    ensures
        forall|a: int, b: int| 0 <= a < b < post.len() ==> post[a].key != post[b].key,
        seq_has_key(post, key),
        seq_key_index(post, key) == i,
        forall|k: u64|
            k != key ==> #[trigger] stored_of(post, k) == stored_of(pre, k),
{
    assert forall|a: int, b: int| 0 <= a < b < post.len() implies post[a].key != post[b].key by {
        assert(pre[a].key != pre[b].key);
    }
    assert(seq_has_key(post, key));
    let w = seq_key_index(post, key);
    assert(0 <= w < post.len() && post[w].key == key);
    if w != i {
        assert(pre[w].key == key);
        assert(pre[i].key == key);
        assert(false);
    }
    assert forall|k: u64| k != key implies #[trigger] stored_of(post, k) == stored_of(pre, k) by {
        lemma_same_keys_same_stored(pre, post, i, k);
    }
}

/// Appending a fresh entry for a key that was absent keeps uniqueness and
/// every other key's stored pair.
proof fn lemma_push_keeps_keys<V>(pre: Seq<CacheEntry<V>>, post: Seq<CacheEntry<V>>, key: u64)
    requires
        !seq_has_key(pre, key),
        post.len() == pre.len() + 1,
        post[post.len() - 1].key == key,
        forall|j: int| 0 <= j < pre.len() ==> post[j] == pre[j],
        forall|a: int, b: int| 0 <= a < b < pre.len() ==> pre[a].key != pre[b].key,
    ensures
        forall|a: int, b: int| 0 <= a < b < post.len() ==> post[a].key != post[b].key,
        seq_has_key(post, key),
        seq_key_index(post, key) == post.len() - 1,
        forall|k: u64|
            k != key ==> #[trigger] stored_of(post, k) == stored_of(pre, k),
{
    let n = pre.len() as int;
    assert forall|a: int, b: int| 0 <= a < b < post.len() implies post[a].key != post[b].key by {
        if b < n {
            assert(pre[a].key != pre[b].key);
        } else {
            assert(post[b].key == key);
            assert(post[a] == pre[a]);
            assert(!(pre[a].key == key)) by {
                if pre[a].key == key {
                    assert(seq_has_key(pre, key));
                }
            }
        }
    }
    assert(post[n].key == key);
    assert(seq_has_key(post, key));
    let w = seq_key_index(post, key);
    assert(0 <= w < post.len() && post[w].key == key);
    if w != n {
        assert(pre[w].key == key);
        assert(seq_has_key(pre, key));
        assert(false);
    }
    assert forall|k: u64| k != key implies #[trigger] stored_of(post, k) == stored_of(pre, k) by {
        if seq_has_key(pre, k) {
            let i = seq_key_index(pre, k);
            assert(0 <= i < pre.len() && pre[i].key == k);
            assert(post[i].key == k);
            assert(seq_has_key(post, k));
            let j = seq_key_index(post, k);
            assert(0 <= j < post.len() && post[j].key == k);
            if j == n {
                assert(false);
            }
            assert(pre[j].key == k);
            if i != j {
                assert(false);
            }
        } else {
            if seq_has_key(post, k) {
                let j = seq_key_index(post, k);
                assert(0 <= j < post.len() && post[j].key == k);
                if j == n {
                    assert(false);
                }
                assert(pre[j].key == k);
                assert(seq_has_key(pre, k));
                assert(false);
            }
        }
    }
}

/// Two sequences that agree everywhere except at one index whose key is `key`
/// in both store the same pair for every other key.
proof fn lemma_same_keys_same_stored<V>(
    pre: Seq<CacheEntry<V>>,
    post: Seq<CacheEntry<V>>,
    i: int,
    k: u64,
)
    requires
        0 <= i < pre.len(),
        post.len() == pre.len(),
        pre[i].key == post[i].key,
        k != pre[i].key,
        forall|j: int| 0 <= j < pre.len() && j != i ==> post[j] == pre[j],
        forall|a: int, b: int| 0 <= a < b < pre.len() ==> pre[a].key != pre[b].key,
        forall|a: int, b: int| 0 <= a < b < post.len() ==> post[a].key != post[b].key,
    ensures
        stored_of(post, k) == stored_of(pre, k),
{
    if seq_has_key(pre, k) {
        let a = seq_key_index(pre, k);
        assert(0 <= a < pre.len() && pre[a].key == k);
        assert(a != i);
        assert(post[a].key == k);
        assert(seq_has_key(post, k));
        let b = seq_key_index(post, k);
        assert(0 <= b < post.len() && post[b].key == k);
        assert(b != i);
        assert(pre[b].key == k);
        if a != b {
            assert(false);
        }
    } else {
        if seq_has_key(post, k) {
            let b = seq_key_index(post, k);
            assert(0 <= b < post.len() && post[b].key == k);
            assert(b != i);
            assert(pre[b].key == k);
            assert(seq_has_key(pre, k));
            assert(false);
        }
    }
}

/// Law: single-flight.  Once a caller's `begin` for a key has been told to
/// compute, every further `begin` for the same key is told to wait (or to
/// serve), however much time has passed, until a `complete` for that key
/// intervenes.
pub proof fn lemma_single_flight<V>(
    s0: MemoCache<V>,
    s1: MemoCache<V>,
    s2: MemoCache<V>,
    key: u64,
    t1: u64,
    t2: u64,
    started2: bool,
)
    requires
        MemoCache::begin_post(s0, s1, key, t1, true),
        MemoCache::begin_post(s1, s2, key, t2, started2),
    ensures
        !started2,
{
}

/// Law: single-flight for any number of callers.  Along a chain of `begin`
/// steps for one key whose first step claimed the flight, every later step is
/// told not to compute: the producer is triggered exactly once.
pub proof fn lemma_single_flight_chain<V>(
    states: Seq<MemoCache<V>>,
    times: Seq<u64>,
    starts: Seq<bool>,
    key: u64,
)
    requires
        states.len() >= 2,
        times.len() == states.len() - 1,
        starts.len() == states.len() - 1,
        forall|i: int|
            0 <= i < starts.len() ==> MemoCache::begin_post(
                states[i],
                states[i + 1],
                key,
                times[i],
                starts[i],
            ),
        starts[0],
    ensures
        forall|i: int| 1 <= i < starts.len() ==> !starts[i],
{
    assert forall|i: int| 1 <= i < starts.len() implies !starts[i] by {
        lemma_flight_holds(states, times, starts, key, i);
    }
}

/// Along a chain of `begin` steps whose first step claimed the flight for
/// `key`, the claim is still outstanding before every later step.
proof fn lemma_flight_holds<V>(
    states: Seq<MemoCache<V>>,
    times: Seq<u64>,
    starts: Seq<bool>,
    key: u64,
    i: int,
)
    requires
        states.len() >= 2,
        times.len() == states.len() - 1,
        starts.len() == states.len() - 1,
        forall|j: int|
            0 <= j < starts.len() ==> MemoCache::begin_post(
                states[j],
                states[j + 1],
                key,
                times[j],
                starts[j],
            ),
        starts[0],
        1 <= i < states.len(),
    ensures
        states[i].inflight(key),
    decreases i,
{
    if i == 1 {
        assert(MemoCache::begin_post(states[0], states[1], key, times[0], starts[0]));
    } else {
        lemma_flight_holds(states, times, starts, key, i - 1);
        assert(MemoCache::begin_post(states[i - 1], states[i], key, times[i - 1], starts[i - 1]));
    }
}

/// Law: every coalesced waiter shares the one outcome.  After a `complete`
/// stored `outcome` at `t0`, every `lookup` of that key inside the
/// time-to-live window is served exactly that outcome.
pub proof fn lemma_waiters_share_outcome<V>(
    pre: MemoCache<V>,
    post: MemoCache<V>,
    key: u64,
    outcome: Result<V, ServiceError>,
    t0: u64,
    t: u64,
)
    requires
        MemoCache::complete_post(pre, post, key, outcome, t0),
        t - t0 < post.spec_ttl(),
    ensures
        post.live(key, t),
        post.stored(key) == Some((outcome, t0)),
{
}

/// Law: time-to-live expiry.  An entry inserted at `t0` is live for exactly
/// the accesses with `t - t0 < ttl`; at or past the boundary it is not, and
/// a `begin` with nothing in flight is then told to recompute.
pub proof fn lemma_ttl_window<V>(
    s: MemoCache<V>,
    key: u64,
    outcome: Result<V, ServiceError>,
    t0: u64,
    t: u64,
)
    requires
        s.stored(key) == Some((outcome, t0)),
    ensures
        s.live(key, t) == (t - t0 < s.spec_ttl()),
{
}

/// Law: the first access past expiry recomputes.  With the entry expired and
/// no flight outstanding, `begin` claims the flight and tells the caller to
/// run the producer.
pub proof fn lemma_expiry_recomputes<V>(
    s0: MemoCache<V>,
    s1: MemoCache<V>,
    key: u64,
    outcome: Result<V, ServiceError>,
    t0: u64,
    t: u64,
    started: bool,
)
    requires
        s0.stored(key) == Some((outcome, t0)),
        t - t0 >= s0.spec_ttl(),
        !s0.inflight(key),
        MemoCache::begin_post(s0, s1, key, t, started),
    ensures
        started,
{
}

/// Law: independent keys do not block each other.  A `begin` for one key (in
/// particular one that claimed a flight for a slow producer) leaves the
/// decision for every other key exactly what it would have been without it.
pub proof fn lemma_independent_keys<V>(
    s0: MemoCache<V>,
    s1: MemoCache<V>,
    s2: MemoCache<V>,
    key_a: u64,
    key_b: u64,
    t_a: u64,
    t_b: u64,
    started_a: bool,
    started_b: bool,
)
    requires
        key_b != key_a,
        MemoCache::begin_post(s0, s1, key_a, t_a, started_a),
        MemoCache::begin_post(s1, s2, key_b, t_b, started_b),
    ensures
        started_b == (!s0.live(key_b, t_b) && !s0.inflight(key_b)),
{
    assert(s1.stored(key_b) == s0.stored(key_b));
}

/// Law: a cached failure is frozen.  A producer that failed is not retried
/// before expiry: inside the time-to-live window a `begin` for the key never
/// recomputes, and `lookup` serves the stored error itself.
pub proof fn lemma_failure_frozen<V>(
    pre: MemoCache<V>,
    post: MemoCache<V>,
    s2: MemoCache<V>,
    key: u64,
    err: ServiceError,
    t0: u64,
    t: u64,
    started: bool,
)
    requires
        MemoCache::complete_post(pre, post, key, Err(err), t0),
        t - t0 < post.spec_ttl(),
        MemoCache::begin_post(post, s2, key, t, started),
    ensures
        !started,
        post.live(key, t),
        post.stored(key) == Some((Err::<V, ServiceError>(err), t0)),
{
}

/// Removing one occurrence of `key` from a duplicate-free sequence keeps it
/// duplicate-free, drops `key`, and keeps every other element's membership.
proof fn lemma_remove_unique(pre: Seq<u64>, post: Seq<u64>, j: int, key: u64)
    requires
        0 <= j < pre.len(),
        pre[j] == key,
        post == pre.remove(j),
        forall|a: int, b: int| 0 <= a < b < pre.len() ==> pre[a] != pre[b],
    ensures
        forall|a: int, b: int| 0 <= a < b < post.len() ==> post[a] != post[b],
        !post.contains(key),
        forall|k: u64| k != key ==> post.contains(k) == pre.contains(k),
{
    assert forall|a: int, b: int| 0 <= a < b < post.len() implies post[a] != post[b] by {
        let pa: int = if a < j { a } else { a + 1 };
        let pb: int = if b < j { b } else { b + 1 };
        assert(post[a] == pre[pa]);
        assert(post[b] == pre[pb]);
    }
    assert forall|i: int| 0 <= i < post.len() implies post[i] != key by {
        let pi: int = if i < j { i } else { i + 1 };
        assert(post[i] == pre[pi]);
        assert(pi != j);
    }
    assert(!post.contains(key));
    assert forall|k: u64| k != key implies post.contains(k) == pre.contains(k) by {
        if pre.contains(k) {
            let i = choose|i: int| 0 <= i < pre.len() && pre[i] == k;
            assert(i != j);
            let qi: int = if i < j { i } else { i - 1 };
            assert(post[qi] == pre[i]);
            assert(post.contains(k));
        }
        if post.contains(k) {
            let i = choose|i: int| 0 <= i < post.len() && post[i] == k;
            let pi: int = if i < j { i } else { i + 1 };
            assert(pre[pi] == k);
            assert(pre.contains(k));
        }
    }
}

} // verus!
