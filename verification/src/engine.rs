//! Key/value engine with TTL: a store shared by every connection handler,
//! mutated only through the engine operations.
//!
//! The store's mathematical content is a map from key bytes to entries; an
//! entry holds the value bytes and an optional absolute deadline in
//! milliseconds.  An entry whose deadline has passed is indistinguishable
//! from a missing one on the very next access, whether or not the sweeper
//! has run.  Every operation takes the current instant as an argument;
//! whoever drives the engine supplies the clock.

use vstd::prelude::*;

use crate::error::HkvError;
use crate::types::{MAX_KEY_SIZE, MAX_VALUE_SIZE};

verus! {

/// TTL query result for Redis-style semantics.
#[derive(Debug, Clone, Copy, PartialEq, Eq, Structural)]
pub enum TtlStatus {
    /// Key does not exist or is already expired.
    Missing,
    /// Key exists but has no expiration set.
    NoExpiry,
    /// Key expires after this many milliseconds.
    ExpiresIn(u64),
}

/// One stored entry: the value bytes and an optional absolute deadline.
pub struct EntryModel {
    /// The stored value bytes.
    pub value: Seq<u8>,
    /// Absolute deadline in milliseconds, if an expiry was set.
    pub expiry: Option<u64>,
}

/// An entry is live at `now` when it has no deadline or its deadline is
/// still in the future.
pub open spec fn live_at(e: EntryModel, now: u64) -> bool {
    match e.expiry {
        None => true,
        Some(deadline) => deadline > now,
    }
}

/// The deadline `now + ttl_ms`, saturating at the largest representable
/// instant.
pub open spec fn deadline_of(now: u64, ttl_ms: u64) -> u64 {
    if now + ttl_ms > u64::MAX {
        u64::MAX
    } else {
        (now + ttl_ms) as u64
    }
}

/// The sub-map of entries still live at `now`.
pub open spec fn live_store(s: Map<Seq<u8>, EntryModel>, now: u64) -> Map<Seq<u8>, EntryModel> {
    Map::new(|k: Seq<u8>| s.contains_key(k) && live_at(s[k], now), |k: Seq<u8>| s[k])
}

/// Strategy surface of the storage engine, so alternate backends can slot in
/// under the same dispatcher.
///
/// Keys and values are binary-safe byte strings; all five operations are
/// specified against the same map-of-entries abstraction.
pub trait KVEngine: Sized {
    /// The engine's content as a map from key bytes to entries.
    spec fn store(&self) -> Map<Seq<u8>, EntryModel>;

    /// Internal well-formedness of the engine.
    spec fn inv(&self) -> bool;

    /// Returns the value for a key, or `None` if missing or expired; an
    /// entry found expired is removed.
    fn get(&mut self, key: &[u8], now: u64) -> (r: Option<Vec<u8>>)
        requires
            old(self).inv(),
        ensures
            final(self).inv(),
            ({
                let s = old(self).store();
                if s.contains_key(key@) && live_at(s[key@], now) {
                    r matches Some(v) && v@ == s[key@].value && final(self).store() == s
                } else {
                    r is None && final(self).store() == s.remove(key@)
                }
            }),
    ;

    /// Inserts or replaces a key with the provided value, wholesale.
    ///
    /// Oversized keys and values are rejected before any mutation.
    fn set(&mut self, key: Vec<u8>, value: Vec<u8>) -> (r: Result<(), HkvError>)
        requires
            old(self).inv(),
        ensures
            final(self).inv(),
            key@.len() > MAX_KEY_SIZE ==> r == Err::<(), HkvError>(HkvError::KeyTooLong)
                && final(self).store() == old(self).store(),
            key@.len() <= MAX_KEY_SIZE && value@.len() > MAX_VALUE_SIZE ==> r == Err::<
                (),
                HkvError,
            >(HkvError::ValueTooLong) && final(self).store() == old(self).store(),
            key@.len() <= MAX_KEY_SIZE && value@.len() <= MAX_VALUE_SIZE ==> r == Ok::<
                (),
                HkvError,
            >(()) && final(self).store() == old(self).store().insert(
                key@,
                EntryModel { value: value@, expiry: None },
            ),
    ;

    /// Removes a key; reports whether it was present (expired or not).
    fn delete(&mut self, key: &[u8]) -> (r: bool)
        requires
            old(self).inv(),
        ensures
            final(self).inv(),
            r == old(self).store().contains_key(key@),
            final(self).store() == old(self).store().remove(key@),
    ;

    /// Sets the absolute deadline `now + ttl_ms` (saturating) on a live key;
    /// fails with `NotFound` when the key is missing or already expired,
    /// creating nothing and removing an entry found expired.
    fn expire(&mut self, key: &[u8], ttl_ms: u64, now: u64) -> (r: Result<(), HkvError>)
        requires
            old(self).inv(),
        ensures
            final(self).inv(),
            ({
                let s = old(self).store();
                if s.contains_key(key@) && live_at(s[key@], now) {
                    r == Ok::<(), HkvError>(()) && final(self).store() == s.insert(
                        key@,
                        EntryModel { value: s[key@].value, expiry: Some(deadline_of(now, ttl_ms)) },
                    )
                } else {
                    r == Err::<(), HkvError>(HkvError::NotFound) && final(self).store()
                        == s.remove(key@)
                }
            }),
    ;

    /// Reports the TTL state of a key at `now`; an entry found expired is
    /// removed and reported missing.
    fn ttl(&mut self, key: &[u8], now: u64) -> (r: TtlStatus)
        requires
            old(self).inv(),
        ensures
            final(self).inv(),
            ({
                let s = old(self).store();
                if s.contains_key(key@) && live_at(s[key@], now) {
                    final(self).store() == s && (match s[key@].expiry {
                        None => r == TtlStatus::NoExpiry,
                        Some(deadline) => r == TtlStatus::ExpiresIn((deadline - now) as u64),
                    })
                } else {
                    r == TtlStatus::Missing && final(self).store() == s.remove(key@)
                }
            }),
    ;

    /// Removes every entry whose deadline has already passed, leaving the
    /// live entries untouched: the sweeper's walk over the store.
    fn sweep_expired(&mut self, now: u64)
        requires
            old(self).inv(),
        ensures
            final(self).inv(),
            final(self).store() == live_store(old(self).store(), now),
    ;
}

struct StoreEntry {
    key: Vec<u8>,
    value: Vec<u8>,
    expiry: Option<u64>,
}

impl StoreEntry {
    spec fn model(&self) -> EntryModel {
        EntryModel { value: self.value@, expiry: self.expiry }
    }
}

/// Some entry of the sequence holds the key.
spec fn has_key(s: Seq<StoreEntry>, k: Seq<u8>) -> bool {
    exists|i: int| 0 <= i < s.len() && #[trigger] s[i].key@ == k
}

/// The index of the entry holding the key.
spec fn index_of(s: Seq<StoreEntry>, k: Seq<u8>) -> int {
    choose|i: int| 0 <= i < s.len() && #[trigger] s[i].key@ == k
}

/// No two entries hold the same key.
spec fn distinct_keys(s: Seq<StoreEntry>) -> bool {
    forall|i: int, j: int|
        0 <= i < j < s.len() ==> #[trigger] s[i].key@ != #[trigger] s[j].key@
}

/// Every entry respects the fixed key and value capacities.
spec fn entries_bounded(s: Seq<StoreEntry>) -> bool {
    forall|i: int|
        0 <= i < s.len() ==> (#[trigger] s[i].key@).len() <= MAX_KEY_SIZE && s[i].value@.len()
            <= MAX_VALUE_SIZE
}

/// The map described by a sequence of entries with distinct keys.
spec fn seq_store(s: Seq<StoreEntry>) -> Map<Seq<u8>, EntryModel> {
    Map::new(|k: Seq<u8>| has_key(s, k), |k: Seq<u8>| s[index_of(s, k)].model())
}

/// With distinct keys, the entry at any index is what the map holds for its
/// key.
proof fn lemma_store_at(s: Seq<StoreEntry>, i: int)
    requires
        distinct_keys(s),
        0 <= i < s.len(),
    ensures
        seq_store(s).contains_key(s[i].key@),
        seq_store(s)[s[i].key@] == s[i].model(),
{
    let k = s[i].key@;
    assert(has_key(s, k));
    let j = index_of(s, k);
    assert(0 <= j < s.len() && s[j].key@ == k);
    if i != j {
        if i < j {
            assert(s[i].key@ != s[j].key@);
        } else {
            assert(s[j].key@ != s[i].key@);
        }
    }
}

/// Removing the entry at an index removes exactly its key from the map.
proof fn lemma_store_remove(s: Seq<StoreEntry>, i: int)
    requires
        distinct_keys(s),
        0 <= i < s.len(),
    ensures
        distinct_keys(s.remove(i)),
        seq_store(s.remove(i)) == seq_store(s).remove(s[i].key@),
{
    let s2 = s.remove(i);
    assert forall|a: int, b: int| 0 <= a < b < s2.len() implies #[trigger] s2[a].key@
        != #[trigger] s2[b].key@ by {
        let a0 = if a < i { a } else { a + 1 };
        let b0 = if b < i { b } else { b + 1 };
        assert(s2[a] == s[a0] && s2[b] == s[b0]);
        assert(s[a0].key@ != s[b0].key@);
    }
    let k = s[i].key@;
    assert forall|k2: Seq<u8>| #[trigger] has_key(s2, k2) implies has_key(s, k2) && k2 != k by {
        let a = choose|a: int| 0 <= a < s2.len() && #[trigger] s2[a].key@ == k2;
        let a0 = if a < i { a } else { a + 1 };
        assert(s2[a] == s[a0]);
        assert(s[a0].key@ == k2);
        if a0 < i {
            assert(s[a0].key@ != s[i].key@);
        } else {
            assert(s[i].key@ != s[a0].key@);
        }
    }
    assert forall|k2: Seq<u8>| has_key(s, k2) && k2 != k implies #[trigger] has_key(s2, k2) by {
        let a0 = choose|a0: int| 0 <= a0 < s.len() && #[trigger] s[a0].key@ == k2;
        if a0 < i {
            assert(s2[a0] == s[a0]);
        } else {
            assert(a0 != i);
            assert(s2[a0 - 1] == s[a0]);
        }
    }
    assert forall|k2: Seq<u8>| #[trigger] has_key(s2, k2) implies seq_store(s2)[k2] == seq_store(
        s,
    )[k2] by {
        let a = index_of(s2, k2);
        assert(0 <= a < s2.len() && s2[a].key@ == k2);
        let a0 = if a < i { a } else { a + 1 };
        assert(s2[a] == s[a0]);
        lemma_store_at(s2, a);
        lemma_store_at(s, a0);
    }
    assert(seq_store(s2) =~= seq_store(s).remove(k));
}

/// Appending an entry with a fresh key inserts exactly that key.
proof fn lemma_store_push(s: Seq<StoreEntry>, e: StoreEntry)
    requires
        distinct_keys(s),
        !has_key(s, e.key@),
    ensures
        distinct_keys(s.push(e)),
        seq_store(s.push(e)) == seq_store(s).insert(e.key@, e.model()),
{
    let s2 = s.push(e);
    assert forall|a: int, b: int| 0 <= a < b < s2.len() implies #[trigger] s2[a].key@
        != #[trigger] s2[b].key@ by {
        if b < s.len() {
            assert(s2[a] == s[a] && s2[b] == s[b]);
        } else {
            assert(s2[b] == e && s2[a] == s[a]);
            assert(!(s[a].key@ == e.key@));
        }
    }
    assert forall|k2: Seq<u8>| #[trigger] has_key(s2, k2) implies has_key(s, k2) || k2 == e.key@ by {
        let a = choose|a: int| 0 <= a < s2.len() && #[trigger] s2[a].key@ == k2;
        if a < s.len() {
            assert(s[a].key@ == k2);
        }
    }
    assert forall|k2: Seq<u8>| has_key(s, k2) implies #[trigger] has_key(s2, k2) by {
        let a = choose|a: int| 0 <= a < s.len() && #[trigger] s[a].key@ == k2;
        assert(s2[a].key@ == k2);
    }
    assert(s2[s.len() as int].key@ == e.key@);
    assert(has_key(s2, e.key@));
    assert forall|k2: Seq<u8>| #[trigger] has_key(s2, k2) implies seq_store(s2)[k2] == seq_store(
        s,
    ).insert(e.key@, e.model())[k2] by {
        let a = index_of(s2, k2);
        assert(0 <= a < s2.len() && s2[a].key@ == k2);
        lemma_store_at(s2, a);
        if k2 == e.key@ {
            if a < s.len() {
                assert(s[a].key@ == k2);
                assert(has_key(s, k2));
            }
            assert(a == s.len() as int);
        } else {
            assert(a < s.len());
            lemma_store_at(s, a);
        }
    }
    assert(seq_store(s2) =~= seq_store(s).insert(e.key@, e.model()));
}

/// Compares two byte strings.
fn bytes_eq(a: &[u8], b: &[u8]) -> (r: bool)
    ensures
        r == (a@ == b@),
{
    if a.len() != b.len() {
        return false;
    }
    let n = a.len();
    let mut i: usize = 0;
    while i < n
        invariant
            n == a@.len() == b@.len(),
            i <= n,
            forall|j: int| 0 <= j < i ==> a@[j] == b@[j],
        decreases n - i,
    {
        if a[i] != b[i] {
            return false;
        }
        i += 1;
    }
    proof {
        assert(a@ =~= b@);
    }
    true
}

/// Copies a byte vector.
pub(crate) fn copy_bytes(src: &Vec<u8>) -> (r: Vec<u8>)
    ensures
        r@ == src@,
{
    let n = src.len();
    let mut out: Vec<u8> = Vec::new();
    let mut i: usize = 0;
    while i < n
        invariant
            n == src@.len(),
            i <= n,
            out@ =~= src@.take(i as int),
        decreases n - i,
    {
        out.push(src[i]);
        i += 1;
    }
    proof {
        assert(src@.take(n as int) =~= src@);
    }
    out
}

/// The single production engine: an in-memory store with lazy expiry.
pub struct MemoryEngine {
    entries: Vec<StoreEntry>,
}

impl MemoryEngine {
    /// Creates an empty engine.
    pub fn new() -> (r: MemoryEngine)
        ensures
            r.inv(),
            r.store() == Map::<Seq<u8>, EntryModel>::empty(),
    {
        let r = MemoryEngine { entries: Vec::new() };
        proof {
            assert(r.store() =~= Map::<Seq<u8>, EntryModel>::empty());
        }
        r
    }

    /// Finds the index of the entry holding the key, if any.
    fn find_key(&self, key: &[u8]) -> (r: Option<usize>)
        ensures
            r matches Some(i) ==> i < self.entries@.len() && self.entries@[i as int].key@ == key@,
            r is None ==> !has_key(self.entries@, key@),
    {
        let n = self.entries.len();
        let mut i: usize = 0;
        while i < n
            invariant
                n == self.entries@.len(),
                i <= n,
                forall|j: int| 0 <= j < i ==> #[trigger] self.entries@[j].key@ != key@,
            decreases n - i,
        {
            if bytes_eq(self.entries[i].key.as_slice(), key) {
                return Some(i);
            }
            i += 1;
        }
        None
    }
}

impl KVEngine for MemoryEngine {
    closed spec fn store(&self) -> Map<Seq<u8>, EntryModel> {
        seq_store(self.entries@)
    }

    closed spec fn inv(&self) -> bool {
        distinct_keys(self.entries@) && entries_bounded(self.entries@)
    }

    fn get(&mut self, key: &[u8], now: u64) -> (r: Option<Vec<u8>>) {
        match self.find_key(key) {
            None => {
                proof {
                    assert(self.store().remove(key@) =~= self.store());
                }
                None
            },
            Some(i) => {
                proof {
                    lemma_store_at(self.entries@, i as int);
                }
                let live: bool = match self.entries[i].expiry {
                    None => true,
                    Some(deadline) => deadline > now,
                };
                if live {
                    Some(copy_bytes(&self.entries[i].value))
                } else {
                    proof {
                        lemma_store_remove(self.entries@, i as int);
                    }
                    let _ = self.entries.remove(i);
                    None
                }
            },
        }
    }

    fn set(&mut self, key: Vec<u8>, value: Vec<u8>) -> (r: Result<(), HkvError>) {
        if key.len() > MAX_KEY_SIZE {
            return Err(HkvError::KeyTooLong);
        }
        if value.len() > MAX_VALUE_SIZE {
            return Err(HkvError::ValueTooLong);
        }
        let ghost s0 = self.entries@;
        match self.find_key(key.as_slice()) {
            Some(i) => {
                proof {
                    lemma_store_at(s0, i as int);
                    lemma_store_remove(s0, i as int);
                }
                let _ = self.entries.remove(i);
            },
            None => {},
        }
        proof {
            assert(!has_key(self.entries@, key@));
            lemma_store_push(self.entries@, StoreEntry { key, value, expiry: None });
        }
        let entry = StoreEntry { key, value, expiry: None };
        self.entries.push(entry);
        proof {
            assert(seq_store(s0).remove(key@).insert(
                key@,
                EntryModel { value: value@, expiry: None },
            ) =~= seq_store(s0).insert(key@, EntryModel { value: value@, expiry: None }));
        }
        Ok(())
    }

    fn delete(&mut self, key: &[u8]) -> (r: bool) {
        match self.find_key(key) {
            None => {
                proof {
                    assert(self.store().remove(key@) =~= self.store());
                }
                false
            },
            Some(i) => {
                proof {
                    lemma_store_at(self.entries@, i as int);
                    lemma_store_remove(self.entries@, i as int);
                }
                let _ = self.entries.remove(i);
                true
            },
        }
    }

    fn expire(&mut self, key: &[u8], ttl_ms: u64, now: u64) -> (r: Result<(), HkvError>) {
        let ghost s0 = self.entries@;
        match self.find_key(key) {
            None => {
                proof {
                    assert(self.store().remove(key@) =~= self.store());
                }
                Err(HkvError::NotFound)
            },
            Some(i) => {
                proof {
                    lemma_store_at(s0, i as int);
                    lemma_store_remove(s0, i as int);
                }
                let live: bool = match self.entries[i].expiry {
                    None => true,
                    Some(deadline) => deadline > now,
                };
                if live {
                    let mut e = self.entries.remove(i);
                    let deadline = if ttl_ms > u64::MAX - now {
                        u64::MAX
                    } else {
                        now + ttl_ms
                    };
                    e.expiry = Some(deadline);
                    proof {
                        assert(!has_key(self.entries@, key@));
                        lemma_store_push(self.entries@, e);
                    }
                    self.entries.push(e);
                    proof {
                        let m = EntryModel { value: seq_store(s0)[key@].value, expiry: Some(deadline) };
                        assert(seq_store(s0).remove(key@).insert(key@, m) =~= seq_store(s0).insert(
                            key@,
                            m,
                        ));
                    }
                    Ok(())
                } else {
                    let _ = self.entries.remove(i);
                    Err(HkvError::NotFound)
                }
            },
        }
    }

    fn ttl(&mut self, key: &[u8], now: u64) -> (r: TtlStatus) {
        match self.find_key(key) {
            None => {
                proof {
                    assert(self.store().remove(key@) =~= self.store());
                }
                TtlStatus::Missing
            },
            Some(i) => {
                proof {
                    lemma_store_at(self.entries@, i as int);
                }
                match self.entries[i].expiry {
                    None => TtlStatus::NoExpiry,
                    Some(deadline) => {
                        if deadline > now {
                            TtlStatus::ExpiresIn(deadline - now)
                        } else {
                            proof {
                                lemma_store_remove(self.entries@, i as int);
                            }
                            let _ = self.entries.remove(i);
                            TtlStatus::Missing
                        }
                    },
                }
            },
        }
    }

    fn sweep_expired(&mut self, now: u64) {
        let ghost s0 = self.entries@;
        let n = self.entries.len();
        let mut kept: Vec<StoreEntry> = Vec::new();
        let mut p: usize = 0;
        proof {
            assert(s0.skip(0) =~= s0);
            assert(seq_store(kept@) =~= live_store(seq_store(s0.take(0)), now));
        }
        while p < n
            invariant
                distinct_keys(s0),
                entries_bounded(s0),
                n == s0.len(),
                p <= n,
                self.entries@ == s0.skip(p as int),
                distinct_keys(kept@),
                entries_bounded(kept@),
                seq_store(kept@) == live_store(seq_store(s0.take(p as int)), now),
            decreases n - p,
        {
            let e = self.entries.remove(0);
            proof {
                assert(e == s0[p as int]);
                assert(s0.skip(p as int).remove(0) =~= s0.skip(p as int + 1));
                assert(s0.take(p as int + 1) =~= s0.take(p as int).push(e));
                assert(!has_key(s0.take(p as int), e.key@)) by {
                    if has_key(s0.take(p as int), e.key@) {
                        let a = choose|a: int|
                            0 <= a < s0.take(p as int).len() && #[trigger] s0.take(
                                p as int,
                            )[a].key@ == e.key@;
                        assert(s0[a].key@ == s0[p as int].key@);
                    }
                }
                lemma_store_push(s0.take(p as int), e);
                assert(!has_key(kept@, e.key@)) by {
                    if has_key(kept@, e.key@) {
                        assert(seq_store(kept@).contains_key(e.key@));
                        assert(seq_store(s0.take(p as int)).contains_key(e.key@));
                    }
                }
            }
            let live: bool = match e.expiry {
                None => true,
                Some(deadline) => deadline > now,
            };
            if live {
                proof {
                    lemma_store_push(kept@, e);
                    assert(seq_store(kept@).insert(e.key@, e.model()) =~= live_store(
                        seq_store(s0.take(p as int)).insert(e.key@, e.model()),
                        now,
                    ));
                }
                kept.push(e);
            } else {
                proof {
                    assert(seq_store(kept@) =~= live_store(
                        seq_store(s0.take(p as int)).insert(e.key@, e.model()),
                        now,
                    ));
                }
            }
            p += 1;
        }
        proof {
            assert(s0.take(n as int) =~= s0);
        }
        self.entries = kept;
    }
}


/// After `SET k v` the store holds exactly `v` under `k`, live at every
/// instant, so a `GET k` returns exactly `v`; after `DEL k` the key is
/// absent, so a `GET k` reports it missing.  Reads observe a whole value,
/// never a mixture: the entry under `k` is exactly the one the last `SET`
/// put there.
pub proof fn lemma_set_get_delete(
    s: Map<Seq<u8>, EntryModel>,
    k: Seq<u8>,
    v: Seq<u8>,
    now: u64,
)
    ensures
        ({
            let s1 = s.insert(k, EntryModel { value: v, expiry: None });
            &&& s1.contains_key(k)
            &&& live_at(s1[k], now)
            &&& s1[k].value == v
            &&& !s1.remove(k).contains_key(k)
        }),
{
}

/// `EXPIRE k N` on a live key sets an absolute deadline at most `N`
/// milliseconds away, so the remaining TTL reported right away lies in
/// `[0, N]`; and from the deadline on, the entry is no longer live, so a
/// `GET` reports it absent and a `TTL` reports it missing, with no sweep
/// needed.
pub proof fn lemma_expire_ttl(
    s: Map<Seq<u8>, EntryModel>,
    k: Seq<u8>,
    ttl_ms: u64,
    now: u64,
    later: u64,
)
    requires
        s.contains_key(k),
        live_at(s[k], now),
    ensures
        ({
            let d = deadline_of(now, ttl_ms);
            let s1 = s.insert(k, EntryModel { value: s[k].value, expiry: Some(d) });
            &&& s1.contains_key(k)
            &&& s1[k].expiry == Some(d)
            &&& d >= now
            &&& d - now <= ttl_ms
            &&& later >= d ==> !live_at(s1[k], later)
        }),
{
}

/// `EXPIRE` on a missing key fails and does not create the key: removing an
/// absent key leaves the store exactly as it was.
pub proof fn lemma_expire_missing(s: Map<Seq<u8>, EntryModel>, k: Seq<u8>)
    requires
        !s.contains_key(k),
    ensures
        s.remove(k) == s,
        !s.remove(k).contains_key(k),
{
    assert(s.remove(k) =~= s);
}


/// Writes replace an entry wholesale: after two `SET`s to the same key, in
/// whichever order the store serialized them, the stored value is exactly
/// the later write's value, never a mixture of the two.  Since every engine
/// operation acts on the store as one step, a reader can only ever observe a
/// value that some single `SET` stored in full.
pub proof fn lemma_writes_are_wholesale(
    s: Map<Seq<u8>, EntryModel>,
    k: Seq<u8>,
    v1: Seq<u8>,
    v2: Seq<u8>,
)
    ensures
        ({
            let first = s.insert(k, EntryModel { value: v1, expiry: None });
            let both = first.insert(k, EntryModel { value: v2, expiry: None });
            &&& first[k].value == v1
            &&& both[k].value == v2
        }),
{
}

} // verus!
