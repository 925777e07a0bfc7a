//! Caching of circuit analysis results, with expiry after a time to live
//! and eviction by least recent use, insertion order or least frequent use.
//!
//! Times are nanoseconds on the cache's own monotonic clock, which starts
//! when the cache is created. The operations that read the clock take the
//! reading and hand it to a `*_at` operation, whose contract is exact for
//! every reading.
use crate::clock::{duration_nanos, elapsed_nanos, instant_now, nanos_in};
use std::time::{Duration, Instant};
use vstd::prelude::*;

verus! {

/// Keys a cache can hold: equality and copies that respect the key's view.
pub trait CacheKey: View + Sized {
    /// Whether two keys are the same.
    fn same_key(&self, other: &Self) -> (b: bool)
        ensures
            b == (self@ == other@),
    ;

    /// A copy of the key.
    fn copy_key(&self) -> (r: Self)
        ensures
            r@ == self@,
    ;
}

impl CacheKey for u64 {
    fn same_key(&self, other: &Self) -> (b: bool) {
        *self == *other
    }

    fn copy_key(&self) -> (r: Self) {
        *self
    }
}

impl CacheKey for u32 {
    fn same_key(&self, other: &Self) -> (b: bool) {
        *self == *other
    }

    fn copy_key(&self) -> (r: Self) {
        *self
    }
}

impl CacheKey for usize {
    fn same_key(&self, other: &Self) -> (b: bool) {
        *self == *other
    }

    fn copy_key(&self) -> (r: Self) {
        *self
    }
}

impl CacheKey for i32 {
    fn same_key(&self, other: &Self) -> (b: bool) {
        *self == *other
    }

    fn copy_key(&self) -> (r: Self) {
        *self
    }
}

impl CacheKey for i64 {
    fn same_key(&self, other: &Self) -> (b: bool) {
        *self == *other
    }

    fn copy_key(&self) -> (r: Self) {
        *self
    }
}

impl CacheKey for String {
    fn same_key(&self, other: &Self) -> (b: bool) {
        *self == *other
    }

    fn copy_key(&self) -> (r: Self) {
        self.clone()
    }
}

impl<'a> CacheKey for &'a str {
    fn same_key(&self, other: &Self) -> (b: bool) {
        crate::strmap::str_eq(*self, *other)
    }

    fn copy_key(&self) -> (r: Self) {
        *self
    }
}

/// Eviction policy of the cache.
#[derive(Debug, Clone, Copy, PartialEq, Eq, Structural)]
pub enum EvictionPolicy {
    /// Evicts the entry accessed least recently.
    LRU,
    /// Evicts the entry inserted first.
    FIFO,
    /// Evicts the entry accessed least often.
    LFU,
}

impl Default for EvictionPolicy {
    fn default() -> (p: EvictionPolicy)
        ensures
            p == EvictionPolicy::LRU,
    {
        EvictionPolicy::LRU
    }
}

/// Configuration of a cache.
#[derive(Debug, Clone, Copy, PartialEq, Eq, Structural)]
pub struct CacheConfig {
    /// Largest number of entries.
    pub max_entries: usize,
    /// Time to live of entries inserted without one, in seconds.
    pub default_ttl_seconds: u64,
    /// Which entry leaves when room is needed.
    pub eviction_policy: EvictionPolicy,
    /// Whether statistics are kept for monitoring.
    pub enable_stats: bool,
}

impl Default for CacheConfig {
    fn default() -> (c: CacheConfig)
        ensures
            c.max_entries == 10_000,
            c.default_ttl_seconds == 3600,
            c.eviction_policy == EvictionPolicy::LRU,
            c.enable_stats,
    {
        CacheConfig {
            max_entries: 10_000,
            default_ttl_seconds: 3600,
            eviction_policy: EvictionPolicy::LRU,
            enable_stats: true,
        }
    }
}

/// Counters of cache activity.
#[derive(Debug, Clone, Copy, PartialEq, Eq, Structural)]
pub struct CacheCounters {
    /// Lookups that found a live entry.
    pub hits: u64,
    /// Lookups that found none.
    pub misses: u64,
    /// Entries removed to make room.
    pub evictions: u64,
    /// Entries found expired by a lookup.
    pub expirations: u64,
    /// The number of entries when last refreshed.
    pub total_entries: usize,
}

/// The counter after one more event (counters wrap around at the top).
pub open spec fn bump(x: u64) -> u64 {
    if x == u64::MAX {
        0
    } else {
        (x + 1) as u64
    }
}

fn bump_exec(x: u64) -> (r: u64)
    ensures
        r == bump(x),
{
    if x == u64::MAX {
        0
    } else {
        x + 1
    }
}

/// An entry as the contracts see it.
pub struct EntryModel<V> {
    pub value: V,
    pub inserted_at: u128,
    pub last_accessed: u128,
    pub ttl: u128,
}

/// Whether an entry inserted at `inserted_at` with time to live `ttl` has
/// expired at time `now`: more than `ttl` has passed since insertion.
pub open spec fn expired_at(inserted_at: u128, ttl: u128, now: u128) -> bool {
    (if now >= inserted_at {
        now - inserted_at
    } else {
        0
    }) > ttl
}

/// A cache entry with the times that govern its expiry and eviction.
struct CacheEntry<T> {
    value: T,
    inserted_at: u128,
    last_accessed: u128,
    ttl: u128,
}

impl<T> CacheEntry<T> {
    spec fn model(self) -> EntryModel<T> {
        EntryModel {
            value: self.value,
            inserted_at: self.inserted_at,
            last_accessed: self.last_accessed,
            ttl: self.ttl,
        }
    }

    fn new(value: T, ttl: u128, now: u128) -> (e: Self)
        ensures
            e.model() == (EntryModel { value, inserted_at: now, last_accessed: now, ttl }),
    {
        CacheEntry { value, inserted_at: now, last_accessed: now, ttl }
    }

    fn is_expired(&self, now: u128) -> (b: bool)
        ensures
            b == expired_at(self.inserted_at, self.ttl, now),
    {
        let elapsed = if now >= self.inserted_at {
            now - self.inserted_at
        } else {
            0
        };
        elapsed > self.ttl
    }

    fn touch(&mut self, now: u128)
        ensures
            final(self).model() == (EntryModel { last_accessed: now, ..old(self).model() }),
    {
        self.last_accessed = now;
    }
}

/// The cache as its contracts see it.
pub struct CacheModel<KV, V> {
    /// Live entries, keys distinct, in insertion order.
    pub entries: Seq<(KV, EntryModel<V>)>,
    /// Keys in insertion order, for first-in first-out eviction; a key may
    /// stay here after a lookup found it expired.
    pub order: Seq<KV>,
    /// Access counts of keys looked up, for least-frequent eviction.
    pub counts: Seq<(KV, u64)>,
    pub counters: CacheCounters,
    pub config: CacheConfig,
}

/// Whether some pair has key `k`.
pub open spec fn has_pair<KV, T>(s: Seq<(KV, T)>, k: KV) -> bool {
    exists|i: int| 0 <= i < s.len() && (#[trigger] s[i]).0 == k
}

/// The position of the pair with key `k` (meaningful when `has_pair`).
pub open spec fn pos<KV, T>(s: Seq<(KV, T)>, k: KV) -> int {
    choose|i: int| 0 <= i < s.len() && (#[trigger] s[i]).0 == k
}

/// No two pairs share a key.
pub open spec fn unique<KV, T>(s: Seq<(KV, T)>) -> bool {
    forall|i: int, j: int|
        0 <= i < s.len() && 0 <= j < s.len() && i != j ==> (#[trigger] s[i]).0 != (#[trigger] s[j]).0
}

/// The pairs without the one with key `k`.
pub open spec fn drop_pair<KV, T>(s: Seq<(KV, T)>, k: KV) -> Seq<(KV, T)> {
    if has_pair(s, k) {
        s.remove(pos(s, k))
    } else {
        s
    }
}

/// The keys without any occurrence of `k`, order kept.
pub open spec fn drop_all<KV>(s: Seq<KV>, k: KV) -> Seq<KV>
    decreases s.len(),
{
    if s.len() == 0 {
        s
    } else if s.last() == k {
        drop_all(s.drop_last(), k)
    } else {
        drop_all(s.drop_last(), k).push(s.last())
    }
}

/// The first entry with the smallest last access time.
pub open spec fn lru_index<KV, V>(es: Seq<(KV, EntryModel<V>)>) -> int
    decreases es.len(),
{
    if es.len() <= 1 {
        0
    } else {
        let j = lru_index(es.drop_last());
        if es.last().1.last_accessed < es[j].1.last_accessed {
            es.len() - 1
        } else {
            j
        }
    }
}

/// The first counted key with the smallest count.
pub open spec fn lfu_index<KV>(cs: Seq<(KV, u64)>) -> int
    decreases cs.len(),
{
    if cs.len() <= 1 {
        0
    } else {
        let j = lfu_index(cs.drop_last());
        if cs.last().1 < cs[j].1 {
            cs.len() - 1
        } else {
            j
        }
    }
}

/// The key that the eviction policy picks, if any.
pub open spec fn eviction_choice<KV, V>(m: CacheModel<KV, V>) -> Option<KV> {
    if m.entries.len() == 0 {
        None
    } else {
        match m.config.eviction_policy {
            EvictionPolicy::LRU => Some(m.entries[lru_index(m.entries)].0),
            EvictionPolicy::FIFO => if m.order.len() > 0 {
                Some(m.order[0])
            } else {
                None
            },
            EvictionPolicy::LFU => if m.counts.len() > 0 {
                Some(m.counts[lfu_index(m.counts)].0)
            } else {
                None
            },
        }
    }
}

/// The cache after the key `k` is discarded from entries, counts and order.
pub open spec fn discard<KV, V>(m: CacheModel<KV, V>, k: KV) -> CacheModel<KV, V> {
    CacheModel {
        entries: drop_pair(m.entries, k),
        order: drop_all(m.order, k),
        counts: drop_pair(m.counts, k),
        ..m
    }
}

/// One eviction: the chosen key is discarded and the eviction counted.
pub open spec fn evict_step<KV, V>(m: CacheModel<KV, V>) -> CacheModel<KV, V> {
    match eviction_choice(m) {
        None => m,
        Some(k) => CacheModel {
            counters: CacheCounters { evictions: bump(m.counters.evictions), ..m.counters },
            ..discard(m, k)
        },
    }
}

/// A bound on the evictions possible: each one shortens entries, order or counts.
pub open spec fn fuel<KV, V>(m: CacheModel<KV, V>) -> nat {
    m.entries.len() + m.order.len() + m.counts.len()
}

/// Evictions while the cache is full and the policy finds a key, at most `f` of them.
pub open spec fn evict_until<KV, V>(m: CacheModel<KV, V>, f: nat) -> CacheModel<KV, V>
    decreases f,
{
    if f == 0 || m.entries.len() < m.config.max_entries || eviction_choice(m) is None {
        m
    } else {
        evict_until(evict_step(m), (f - 1) as nat)
    }
}

/// The cache after the evictions that make room for a new key.
pub open spec fn make_room<KV, V>(m: CacheModel<KV, V>) -> CacheModel<KV, V> {
    evict_until(m, fuel(m))
}

/// Whether inserting `k` ends: `k` is present, or evicting makes room.
/// (Without room the insertion would evict forever: for instance with a
/// capacity of zero, or under least-frequent eviction when the entries never
/// looked up fill the cache.)
pub open spec fn insert_possible<KV, V>(m: CacheModel<KV, V>, k: KV) -> bool {
    has_pair(m.entries, k) || make_room(m).entries.len() < m.config.max_entries
}

/// A fresh entry.
pub open spec fn fresh_entry<V>(value: V, ttl: u128, now: u128) -> EntryModel<V> {
    EntryModel { value, inserted_at: now, last_accessed: now, ttl }
}

/// The cache after inserting `value` under `k` at time `now`: a present key
/// gets the fresh entry in place; a new key comes last, after the evictions
/// that make room, and joins the insertion order.
pub open spec fn insert_model<KV, V>(
    m: CacheModel<KV, V>,
    k: KV,
    value: V,
    ttl: u128,
    now: u128,
) -> CacheModel<KV, V> {
    if has_pair(m.entries, k) {
        CacheModel {
            entries: m.entries.update(pos(m.entries, k), (k, fresh_entry(value, ttl, now))),
            ..m
        }
    } else {
        let r = make_room(m);
        CacheModel {
            entries: r.entries.push((k, fresh_entry(value, ttl, now))),
            order: r.order.push(k),
            ..r
        }
    }
}

/// Whether `k` has an entry that has not expired at time `now`.
pub open spec fn live_at<KV, V>(m: CacheModel<KV, V>, k: KV, now: u128) -> bool {
    has_pair(m.entries, k) && !expired_at(
        m.entries[pos(m.entries, k)].1.inserted_at,
        m.entries[pos(m.entries, k)].1.ttl,
        now,
    )
}

/// The access counts after one more access of `k`.
pub open spec fn count_access<KV>(cs: Seq<(KV, u64)>, k: KV) -> Seq<(KV, u64)> {
    if has_pair(cs, k) {
        cs.update(pos(cs, k), (k, bump(cs[pos(cs, k)].1)))
    } else {
        cs.push((k, 1u64))
    }
}

/// The cache after a lookup of `k` at time `now`: a miss is counted; an
/// expired entry leaves (its key stays in the order and the counts) and
/// counts as an expiration and a miss; a live entry is touched, its key's
/// access count grows and a hit is counted.
pub open spec fn lookup_model<KV, V>(m: CacheModel<KV, V>, k: KV, now: u128) -> CacheModel<KV, V> {
    if !has_pair(m.entries, k) {
        CacheModel { counters: CacheCounters { misses: bump(m.counters.misses), ..m.counters }, ..m }
    } else if !live_at(m, k, now) {
        CacheModel {
            entries: m.entries.remove(pos(m.entries, k)),
            counters: CacheCounters {
                expirations: bump(m.counters.expirations),
                misses: bump(m.counters.misses),
                ..m.counters
            },
            ..m
        }
    } else {
        let i = pos(m.entries, k);
        CacheModel {
            entries: m.entries.update(i, (k, EntryModel { last_accessed: now, ..m.entries[i].1 })),
            counts: count_access(m.counts, k),
            counters: CacheCounters { hits: bump(m.counters.hits), ..m.counters },
            ..m
        }
    }
}

/// The cache after removing `k`, if it has an entry.
pub open spec fn remove_model<KV, V>(m: CacheModel<KV, V>, k: KV) -> CacheModel<KV, V> {
    if has_pair(m.entries, k) {
        discard(m, k)
    } else {
        m
    }
}

/// The keys of the entries expired at time `now`, in entry order.
pub open spec fn expired_keys<KV, V>(es: Seq<(KV, EntryModel<V>)>, now: u128) -> Seq<KV>
    decreases es.len(),
{
    if es.len() == 0 {
        Seq::empty()
    } else {
        let r = expired_keys(es.drop_last(), now);
        if expired_at(es.last().1.inserted_at, es.last().1.ttl, now) {
            r.push(es.last().0)
        } else {
            r
        }
    }
}

/// The cache after removing the keys `ks` one after another.
pub open spec fn remove_all<KV, V>(m: CacheModel<KV, V>, ks: Seq<KV>) -> CacheModel<KV, V>
    decreases ks.len(),
{
    if ks.len() == 0 {
        m
    } else {
        remove_model(remove_all(m, ks.drop_last()), ks.last())
    }
}

/// A value inserted under a key is found under that key, with the value
/// given, and stays live until its time to live has passed.
pub proof fn lemma_get_after_insert<KV, V>(
    m: CacheModel<KV, V>,
    k: KV,
    value: V,
    ttl: u128,
    now: u128,
    later: u128,
)
    requires
        parts_ok(m.entries, m.order, m.counts, m.config.max_entries),
        insert_possible(m, k),
    ensures
        has_pair(insert_model(m, k, value, ttl, now).entries, k),
        ({
            let es = insert_model(m, k, value, ttl, now).entries;
            es[pos(es, k)].1.value == value
        }),
        !expired_at(now, ttl, later) ==> live_at(insert_model(m, k, value, ttl, now), k, later),
{
    let r = insert_model(m, k, value, ttl, now);
    if has_pair(m.entries, k) {
        let p = pos(m.entries, k);
        assert(r.entries[p].0 == k);
        assert(unique(r.entries)) by {
            assert forall|a: int, b: int|
                0 <= a < r.entries.len() && 0 <= b < r.entries.len() && a != b implies (
            #[trigger] r.entries[a]).0 != (#[trigger] r.entries[b]).0 by {
                assert(r.entries[a].0 == m.entries[a].0);
                assert(r.entries[b].0 == m.entries[b].0);
            }
        }
        lemma_pos_unique(r.entries, p);
    } else {
        let t = make_room(m);
        lemma_evict_until_keeps(m, fuel(m));
        let last = r.entries.len() - 1;
        assert(r.entries[last].0 == k);
        assert(unique(r.entries)) by {
            assert forall|a: int, b: int|
                0 <= a < r.entries.len() && 0 <= b < r.entries.len() && a != b implies (
            #[trigger] r.entries[a]).0 != (#[trigger] r.entries[b]).0 by {
                if a == last {
                    assert(t.entries[b].0 == r.entries[b].0);
                } else if b == last {
                    assert(t.entries[a].0 == r.entries[a].0);
                }
            }
        }
        lemma_pos_unique(r.entries, last);
    }
}

/// After removing a key, the cache has no entry for it; if it had one,
/// the key is gone from the order and the counts too.
pub proof fn lemma_remove_absent<KV, V>(m: CacheModel<KV, V>, k: KV)
    requires
        parts_ok(m.entries, m.order, m.counts, m.config.max_entries),
    ensures
        !has_pair(remove_model(m, k).entries, k),
        has_pair(m.entries, k) ==> !remove_model(m, k).order.contains(k),
        has_pair(m.entries, k) ==> !has_pair(remove_model(m, k).counts, k),
{
    lemma_drop_pair(m.entries, k, k);
    lemma_drop_pair(m.counts, k, k);
    lemma_drop_all(m.order, k, k);
}

/// With unique keys, the pair that holds a key is the one `pos` names.
pub proof fn lemma_pos_unique<KV, T>(s: Seq<(KV, T)>, i: int)
    requires
        unique(s),
        0 <= i < s.len(),
    ensures
        has_pair(s, s[i].0),
        pos(s, s[i].0) == i,
{
    assert(has_pair(s, s[i].0));
    let j = pos(s, s[i].0);
    if j != i {
        assert(s[j].0 == s[i].0);
    }
}

/// Which keys a pair sequence holds once a key is dropped.
pub proof fn lemma_drop_pair<KV, T>(s: Seq<(KV, T)>, k: KV, x: KV)
    ensures
        has_pair(drop_pair(s, k), x) ==> has_pair(s, x),
        unique(s) ==> unique(drop_pair(s, k)),
        unique(s) ==> (has_pair(drop_pair(s, k), x) <==> has_pair(s, x) && x != k),
        drop_pair(s, k).len() == if has_pair(s, k) {
            s.len() - 1
        } else {
            s.len() as int
        },
{
    if has_pair(s, k) {
        let p = pos(s, k);
        let d = s.remove(p);
        if has_pair(d, x) {
            let i = choose|i: int| 0 <= i < d.len() && (#[trigger] d[i]).0 == x;
            if i < p {
                assert(s[i].0 == x);
            } else {
                assert(s[i + 1].0 == x);
            }
        }
        if unique(s) {
            assert forall|i: int, j: int|
                0 <= i < d.len() && 0 <= j < d.len() && i != j implies (#[trigger] d[i]).0 != (
                #[trigger] d[j]).0 by {
                let si = if i < p {
                    i
                } else {
                    i + 1
                };
                let sj = if j < p {
                    j
                } else {
                    j + 1
                };
                assert(d[i] == s[si]);
                assert(d[j] == s[sj]);
            }
            if has_pair(s, x) && x != k {
                let i = choose|i: int| 0 <= i < s.len() && (#[trigger] s[i]).0 == x;
                if i < p {
                    assert(d[i].0 == x);
                } else if i > p {
                    assert(d[i - 1].0 == x);
                }
            }
            if has_pair(d, x) {
                let i = choose|i: int| 0 <= i < d.len() && (#[trigger] d[i]).0 == x;
                if i < p {
                    assert(s[i] == d[i]);
                } else {
                    assert(s[i + 1] == d[i]);
                }
            }
        }
    }
}

/// What dropping every occurrence of a key keeps.
pub proof fn lemma_drop_all<KV>(s: Seq<KV>, k: KV, x: KV)
    ensures
        drop_all(s, k).contains(x) <==> s.contains(x) && x != k,
        drop_all(s, k).len() <= s.len(),
        s.contains(k) ==> drop_all(s, k).len() < s.len(),
    decreases s.len(),
{
    if s.len() > 0 {
        let t = s.drop_last();
        lemma_drop_all(t, k, x);
        assert(s =~= t.push(s.last()));
        vstd::seq_lib::lemma_seq_contains_after_push(t, s.last(), x);
        vstd::seq_lib::lemma_seq_contains_after_push(t, s.last(), k);
        if s.last() != k {
            vstd::seq_lib::lemma_seq_contains_after_push(drop_all(t, k), s.last(), x);
        }
    }
}

/// One eviction step shrinks the bound on further evictions.
pub proof fn lemma_evict_step_fuel<KV, V>(m: CacheModel<KV, V>)
    requires
        eviction_choice(m) is Some,
        forall|i: int|
            0 <= i < m.entries.len() ==> m.order.contains(#[trigger] m.entries[i].0),
    ensures
        fuel(evict_step(m)) < fuel(m),
{
    let k = eviction_choice(m)->0;
    lemma_drop_pair(m.entries, k, k);
    lemma_drop_pair(m.counts, k, k);
    lemma_drop_all(m.order, k, k);
    match m.config.eviction_policy {
        EvictionPolicy::LRU => {
            lemma_lru_index_bound(m.entries);
            assert(has_pair(m.entries, k));
        },
        EvictionPolicy::FIFO => {
            assert(m.order[0] == k);
            assert(m.order.contains(k));
        },
        EvictionPolicy::LFU => {
            lemma_lfu_index_bound(m.counts);
            assert(has_pair(m.counts, k));
        },
    }
}

/// The least recently used entry lies within the entries.
pub proof fn lemma_lru_index_bound<KV, V>(es: Seq<(KV, EntryModel<V>)>)
    requires
        es.len() > 0,
    ensures
        0 <= lru_index(es) < es.len(),
    decreases es.len(),
{
    if es.len() > 1 {
        lemma_lru_index_bound(es.drop_last());
    }
}

/// The least frequently used key lies within the counts.
pub proof fn lemma_lfu_index_bound<KV>(cs: Seq<(KV, u64)>)
    requires
        cs.len() > 0,
    ensures
        0 <= lfu_index(cs) < cs.len(),
    decreases cs.len(),
{
    if cs.len() > 1 {
        lemma_lfu_index_bound(cs.drop_last());
    }
}

/// Eviction keeps every entry key within the insertion order, and the keys unique.
pub proof fn lemma_evict_step_keeps<KV, V>(m: CacheModel<KV, V>)
    requires
        unique(m.entries),
        forall|i: int|
            0 <= i < m.entries.len() ==> m.order.contains(#[trigger] m.entries[i].0),
    ensures
        unique(evict_step(m).entries),
        forall|i: int|
            0 <= i < evict_step(m).entries.len() ==> evict_step(m).order.contains(
                #[trigger] evict_step(m).entries[i].0,
            ),
        forall|x: KV| has_pair(evict_step(m).entries, x) ==> has_pair(m.entries, x),
        evict_step(m).config == m.config,
{
    let r = evict_step(m);
    match eviction_choice(m) {
        None => {},
        Some(k) => {
            lemma_drop_pair(m.entries, k, k);
            assert forall|x: KV| has_pair(r.entries, x) implies has_pair(m.entries, x) by {
                lemma_drop_pair(m.entries, k, x);
            }
            assert forall|i: int| 0 <= i < r.entries.len() implies r.order.contains(
                #[trigger] r.entries[i].0,
            ) by {
                let x = r.entries[i].0;
                assert(has_pair(r.entries, x));
                lemma_drop_pair(m.entries, k, x);
                let j = choose|j: int| 0 <= j < m.entries.len() && (#[trigger] m.entries[j]).0 == x;
                assert(m.order.contains(m.entries[j].0));
                lemma_drop_all(m.order, k, x);
            }
        },
    }
}

/// More bound than needed changes nothing.
pub proof fn lemma_evict_until_fuel<KV, V>(m: CacheModel<KV, V>, f: nat)
    requires
        f >= fuel(m),
        unique(m.entries),
        forall|i: int|
            0 <= i < m.entries.len() ==> m.order.contains(#[trigger] m.entries[i].0),
    ensures
        evict_until(m, f) == evict_until(m, fuel(m)),
    decreases fuel(m),
{
    if fuel(m) == 0 || m.entries.len() < m.config.max_entries || eviction_choice(m) is None {
        if fuel(m) == 0 {
            assert(m.entries.len() == 0);
        }
    } else {
        let s = evict_step(m);
        lemma_evict_step_fuel(m);
        lemma_evict_step_keeps(m);
        lemma_evict_until_fuel(s, (f - 1) as nat);
        lemma_evict_until_fuel(s, (fuel(m) - 1) as nat);
    }
}

/// Evictions only remove entries, and keep the keys unique and within the order.
pub proof fn lemma_evict_until_keeps<KV, V>(m: CacheModel<KV, V>, f: nat)
    requires
        unique(m.entries),
        forall|i: int|
            0 <= i < m.entries.len() ==> m.order.contains(#[trigger] m.entries[i].0),
    ensures
        unique(evict_until(m, f).entries),
        forall|i: int|
            0 <= i < evict_until(m, f).entries.len() ==> evict_until(m, f).order.contains(
                #[trigger] evict_until(m, f).entries[i].0,
            ),
        forall|x: KV| has_pair(evict_until(m, f).entries, x) ==> has_pair(m.entries, x),
        evict_until(m, f).config == m.config,
    decreases f,
{
    if f == 0 || m.entries.len() < m.config.max_entries || eviction_choice(m) is None {
    } else {
        lemma_evict_step_keeps(m);
        lemma_evict_until_keeps(evict_step(m), (f - 1) as nat);
    }
}

/// Whether evictions can make room for a new key: the cache is not full, or
/// it holds entries that its policy reaches (least-frequent eviction reaches
/// only keys that have access counts).
pub open spec fn room_possible<KV, V>(m: CacheModel<KV, V>) -> bool {
    m.entries.len() < m.config.max_entries || (m.config.max_entries > 0 && match m.config.eviction_policy {
        EvictionPolicy::LFU => exists|x: KV| #[trigger] has_pair(m.counts, x) && has_pair(m.entries, x),
        _ => true,
    })
}

/// Evicting makes room exactly when `room_possible` says so.
pub proof fn lemma_room_possible<KV, V>(m: CacheModel<KV, V>, f: nat)
    requires
        parts_ok(m.entries, m.order, m.counts, m.config.max_entries),
        f >= fuel(m),
    ensures
        (evict_until(m, f).entries.len() < m.config.max_entries) == room_possible(m),
    decreases fuel(m),
{
    let max = m.config.max_entries;
    if m.entries.len() < max {
    } else if max == 0 {
        assert(eviction_choice(m) is None);
    } else {
        assert(m.entries.len() > 0);
        assert(m.order.contains(m.entries[0].0));
        match eviction_choice(m) {
            None => {
                assert(m.config.eviction_policy == EvictionPolicy::LFU);
                assert(m.counts.len() == 0);
                assert forall|x: KV| !(#[trigger] has_pair(m.counts, x) && has_pair(m.entries, x)) by {}
            },
            Some(k) => {
                let s = evict_step(m);
                lemma_evict_step_fuel(m);
                lemma_drop_pair(m.entries, k, k);
                match m.config.eviction_policy {
                    EvictionPolicy::LRU => {
                        lemma_lru_index_bound(m.entries);
                        assert(has_pair(m.entries, k));
                    },
                    EvictionPolicy::LFU => {
                        lemma_lfu_index_bound(m.counts);
                        assert(has_pair(m.counts, k));
                    },
                    EvictionPolicy::FIFO => {},
                }
                if has_pair(m.entries, k) {
                    assert(evict_until(m, f) == evict_until(s, (f - 1) as nat));
                    assert(s.entries.len() < max);
                    if m.config.eviction_policy == EvictionPolicy::LFU {
                        assert(has_pair(m.counts, k) && has_pair(m.entries, k));
                    }
                } else {
                    assert(s.entries == m.entries);
                    assert forall|i: int| 0 <= i < s.entries.len() implies s.order.contains(
                        #[trigger] s.entries[i].0,
                    ) by {
                        let x = m.entries[i].0;
                        assert(m.order.contains(x));
                        assert(has_pair(m.entries, x));
                        lemma_drop_all(m.order, k, x);
                    }
                    lemma_drop_pair(m.counts, k, k);
                    assert(unique(s.counts));
                    if m.config.eviction_policy == EvictionPolicy::LFU {
                        assert forall|x: KV| #[trigger]
                            has_pair(s.counts, x) && has_pair(s.entries, x) <==> has_pair(m.counts, x)
                                && has_pair(m.entries, x) by {
                            lemma_drop_pair(m.counts, k, x);
                        }
                        if room_possible(m) {
                            let x = choose|x: KV| #[trigger] has_pair(m.counts, x) && has_pair(m.entries, x);
                            assert(has_pair(s.counts, x) && has_pair(s.entries, x));
                        }
                        if room_possible(s) {
                            let x = choose|x: KV| #[trigger] has_pair(s.counts, x) && has_pair(s.entries, x);
                            assert(has_pair(m.counts, x) && has_pair(m.entries, x));
                        }
                    }
                    assert(room_possible(s) == room_possible(m));
                    assert(evict_until(m, f) == evict_until(s, (f - 1) as nat));
                    lemma_room_possible(s, (f - 1) as nat);
                }
            },
        }
    }
}

/// A key can be inserted exactly when it is present or evictions can make
/// room for it.
pub proof fn lemma_insert_possible<KV, V>(m: CacheModel<KV, V>, k: KV)
    requires
        parts_ok(m.entries, m.order, m.counts, m.config.max_entries),
    ensures
        insert_possible(m, k) == (has_pair(m.entries, k) || room_possible(m)),
{
    lemma_room_possible(m, fuel(m));
}

/// Evictions take entries away one at a time and stop once there is room:
/// a cache with room is left as it is, and a full one ends one entry short
/// of its capacity or stays full.
pub proof fn lemma_evict_until_len<KV, V>(m: CacheModel<KV, V>, f: nat)
    requires
        parts_ok(m.entries, m.order, m.counts, m.config.max_entries),
    ensures
        m.entries.len() < m.config.max_entries ==> evict_until(m, f) == m,
        evict_until(m, f).entries.len() <= m.entries.len(),
        m.entries.len() == m.config.max_entries ==> evict_until(m, f).entries.len() + 1
            >= m.config.max_entries,
    decreases f,
{
    if f == 0 || m.entries.len() < m.config.max_entries || eviction_choice(m) is None {
    } else {
        let k = eviction_choice(m)->0;
        let s = evict_step(m);
        lemma_drop_pair(m.entries, k, k);
        lemma_drop_pair(m.counts, k, k);
        lemma_evict_step_keeps(m);
        lemma_evict_until_len(s, (f - 1) as nat);
    }
}

/// Inserting leaves one entry more than before, up to the capacity: a
/// present key keeps the length; a new key adds one, and where the cache was
/// full one old entry gives way. Every entry afterwards other than the new
/// key's was there before.
pub proof fn lemma_insert_len<KV, V>(m: CacheModel<KV, V>, k: KV, value: V, ttl: u128, now: u128)
    requires
        parts_ok(m.entries, m.order, m.counts, m.config.max_entries),
        insert_possible(m, k),
    ensures
        has_pair(m.entries, k) ==> insert_model(m, k, value, ttl, now).entries.len() == m.entries.len(),
        !has_pair(m.entries, k) ==> insert_model(m, k, value, ttl, now).entries.len() == if m.entries.len()
            < m.config.max_entries {
            m.entries.len() + 1
        } else {
            m.config.max_entries as nat
        },
        forall|x: KV|
            #[trigger] has_pair(insert_model(m, k, value, ttl, now).entries, x) && x != k ==> has_pair(
                m.entries,
                x,
            ),
{
    let r = insert_model(m, k, value, ttl, now);
    if has_pair(m.entries, k) {
        assert forall|x: KV| #[trigger] has_pair(r.entries, x) && x != k implies has_pair(m.entries, x) by {
            let i = choose|i: int| 0 <= i < r.entries.len() && (#[trigger] r.entries[i]).0 == x;
            if i != pos(m.entries, k) {
                assert(m.entries[i].0 == x);
            }
        }
    } else {
        let t = make_room(m);
        lemma_evict_until_len(m, fuel(m));
        lemma_evict_until_keeps(m, fuel(m));
        assert forall|x: KV| #[trigger] has_pair(r.entries, x) && x != k implies has_pair(m.entries, x) by {
            let i = choose|i: int| 0 <= i < r.entries.len() && (#[trigger] r.entries[i]).0 == x;
            assert(i < t.entries.len());
            assert(t.entries[i].0 == x);
            assert(has_pair(t.entries, x));
        }
    }
}

/// A lookup of a key that is not live leaves no entry for it, and one of a
/// live key keeps it live at that time with the same value; other keys
/// keep their entries either way.
pub proof fn lemma_lookup_keys<KV, V>(m: CacheModel<KV, V>, k: KV, now: u128, x: KV)
    requires
        cache_ok(m),
    ensures
        !live_at(m, k, now) ==> !has_pair(lookup_model(m, k, now).entries, k),
        live_at(m, k, now) ==> live_at(lookup_model(m, k, now), k, now),
        x != k ==> (has_pair(lookup_model(m, k, now).entries, x) <==> has_pair(m.entries, x)),
{
    let r = lookup_model(m, k, now);
    lemma_drop_pair(m.entries, k, k);
    lemma_drop_pair(m.entries, k, x);
    if has_pair(m.entries, k) {
        let p = pos(m.entries, k);
        if live_at(m, k, now) {
            assert(r.entries[p].0 == k);
            assert(unique(r.entries)) by {
                assert forall|a: int, b: int|
                    0 <= a < r.entries.len() && 0 <= b < r.entries.len() && a != b implies (
                #[trigger] r.entries[a]).0 != (#[trigger] r.entries[b]).0 by {
                    assert(r.entries[a].0 == m.entries[a].0);
                    assert(r.entries[b].0 == m.entries[b].0);
                }
            }
            lemma_pos_unique(r.entries, p);
            if x != k {
                if has_pair(m.entries, x) {
                    let i = choose|i: int| 0 <= i < m.entries.len() && (#[trigger] m.entries[i]).0 == x;
                    assert(r.entries[i].0 == x);
                }
                if has_pair(r.entries, x) {
                    let i = choose|i: int| 0 <= i < r.entries.len() && (#[trigger] r.entries[i]).0 == x;
                    assert(m.entries[i].0 == x);
                }
            }
        } else {
            assert(r.entries == drop_pair(m.entries, k));
        }
    }
}

/// Caching system for circuit analysis results.
pub struct AnalysisCache<K: CacheKey, V: Clone> {
    entries: Vec<(K, CacheEntry<V>)>,
    config: CacheConfig,
    stats: CacheCounters,
    access_order: Vec<K>,
    access_count: Vec<(K, u64)>,
    epoch: Instant,
}

/// The views of a sequence of keys.
pub open spec fn key_views<K: View>(s: Seq<K>) -> Seq<K::V> {
    s.map_values(|k: K| k@)
}

/// The views of a sequence of access counts.
pub open spec fn count_views<K: View>(s: Seq<(K, u64)>) -> Seq<(K::V, u64)> {
    s.map_values(|p: (K, u64)| (p.0@, p.1))
}

spec fn entry_views<K: View, V>(s: Seq<(K, CacheEntry<V>)>) -> Seq<(K::V, EntryModel<V>)> {
    s.map_values(|p: (K, CacheEntry<V>)| (p.0@, p.1.model()))
}

/// The cache's invariant, over its parts: keys unique in the entries and
/// the counts, no more entries than the capacity, every entry key in the
/// insertion order.
pub open spec fn parts_ok<KV, V>(
    es: Seq<(KV, EntryModel<V>)>,
    order: Seq<KV>,
    cs: Seq<(KV, u64)>,
    max: usize,
) -> bool {
    &&& unique(es)
    &&& unique(cs)
    &&& es.len() <= max
    &&& forall|i: int| 0 <= i < es.len() ==> order.contains(#[trigger] es[i].0)
}

/// The cache's invariant over its model: keys unique in the entries and
/// the counts, no more entries than the capacity, every entry key in the
/// insertion order. Every cache keeps it.
pub open spec fn cache_ok<KV, V>(m: CacheModel<KV, V>) -> bool {
    parts_ok(m.entries, m.order, m.counts, m.config.max_entries)
}

/// The sequence of keys without any key equal to `k`, order kept.
fn without_key<K: CacheKey>(v: &Vec<K>, k: &K) -> (r: Vec<K>)
    ensures
        key_views(r@) == drop_all(key_views(v@), k@),
{
    let ghost s = key_views(v@);
    let mut r: Vec<K> = Vec::new();
    let mut i: usize = 0;
    assert(s.take(0) =~= Seq::<K::V>::empty());
    assert(key_views(r@) =~= Seq::<K::V>::empty());
    while i < v.len()
        invariant
            i <= v.len(),
            s == key_views(v@),
            s.len() == v.len(),
            key_views(r@) == drop_all(s.take(i as int), k@),
        decreases v.len() - i,
    {
        proof {
            assert(s.take(i + 1).drop_last() =~= s.take(i as int));
            assert(s.take(i + 1).last() == v@[i as int]@);
        }
        if !v[i].same_key(k) {
            let c = v[i].copy_key();
            let ghost before = r@;
            r.push(c);
            assert(key_views(r@) =~= key_views(before).push(c@));
        }
        i += 1;
    }
    assert(s.take(i as int) =~= s);
    r
}

impl<K: CacheKey, V: Clone> AnalysisCache<K, V> {
    /// The whole cache as a model.
    pub closed spec fn model(self) -> CacheModel<K::V, V> {
        CacheModel {
            entries: entry_views(self.entries@),
            order: key_views(self.access_order@),
            counts: count_views(self.access_count@),
            counters: self.stats,
            config: self.config,
        }
    }

    #[verifier::type_invariant]
    spec fn well_formed(self) -> bool {
        parts_ok(
            entry_views(self.entries@),
            key_views(self.access_order@),
            count_views(self.access_count@),
            self.config.max_entries,
        )
    }

    /// An empty cache with the given configuration.
    pub fn new(config: CacheConfig) -> (c: Self)
        ensures
            cache_ok(c@),
            c@.entries.len() == 0,
            c@.order.len() == 0,
            c@.counts.len() == 0,
            c@.config == config,
            c@.counters == (CacheCounters {
                hits: 0,
                misses: 0,
                evictions: 0,
                expirations: 0,
                total_entries: 0,
            }),
    {
        AnalysisCache {
            entries: Vec::new(),
            config,
            stats: CacheCounters { hits: 0, misses: 0, evictions: 0, expirations: 0, total_entries: 0 },
            access_order: Vec::new(),
            access_count: Vec::new(),
            epoch: instant_now(),
        }
    }

    /// An empty cache with the default configuration.
    pub fn with_defaults() -> (c: Self)
        ensures
            cache_ok(c@),
            c@.entries.len() == 0,
            c@.order.len() == 0,
            c@.counts.len() == 0,
            c@.config.max_entries == 10_000,
            c@.config.default_ttl_seconds == 3600,
            c@.config.eviction_policy == EvictionPolicy::LRU,
            c@.config.enable_stats,
            c@.counters == (CacheCounters {
                hits: 0,
                misses: 0,
                evictions: 0,
                expirations: 0,
                total_entries: 0,
            }),
    {
        AnalysisCache::new(CacheConfig::default())
    }

    /// The current reading of the cache's clock.
    fn now(&self) -> u128 {
        elapsed_nanos(&self.epoch)
    }

    /// Takes entries, order and counts out, leaving them empty.
    fn take_parts(&mut self) -> (r: (Vec<(K, CacheEntry<V>)>, Vec<K>, Vec<(K, u64)>))
        ensures
            r.0@ == old(self).entries@,
            r.1@ == old(self).access_order@,
            r.2@ == old(self).access_count@,
            final(self).entries@.len() == 0,
            final(self).access_order@.len() == 0,
            final(self).access_count@.len() == 0,
            final(self).stats == old(self).stats,
            final(self).config == old(self).config,
            parts_ok(
                entry_views(r.0@),
                key_views(r.1@),
                count_views(r.2@),
                old(self).config.max_entries,
            ),
    {
        proof {
            use_type_invariant(&*self);
        }
        let mut es: Vec<(K, CacheEntry<V>)> = Vec::new();
        std::mem::swap(&mut es, &mut self.entries);
        let mut ord: Vec<K> = Vec::new();
        std::mem::swap(&mut ord, &mut self.access_order);
        let mut cs: Vec<(K, u64)> = Vec::new();
        std::mem::swap(&mut cs, &mut self.access_count);
        (es, ord, cs)
    }

    /// Puts entries, order and counts back.
    fn put_parts(&mut self, es: Vec<(K, CacheEntry<V>)>, ord: Vec<K>, cs: Vec<(K, u64)>)
        requires
            old(self).entries@.len() == 0,
            old(self).access_order@.len() == 0,
            old(self).access_count@.len() == 0,
            parts_ok(entry_views(es@), key_views(ord@), count_views(cs@), old(self).config.max_entries),
        ensures
            final(self)@ == (CacheModel {
                entries: entry_views(es@),
                order: key_views(ord@),
                counts: count_views(cs@),
                ..old(self)@
            }),
    {
        self.access_order = ord;
        self.access_count = cs;
        self.entries = es;
    }

    /// The number of entries, which never exceeds the capacity.
    pub fn len(&self) -> (n: usize)
        ensures
            cache_ok(self@),
            n == self@.entries.len(),
            n <= self@.config.max_entries,
    {
        proof {
            use_type_invariant(self);
        }
        self.entries.len()
    }

    /// Whether the cache holds no entry.
    pub fn is_empty(&self) -> (b: bool)
        ensures
            cache_ok(self@),
            b == (self@.entries.len() == 0),
    {
        proof {
            use_type_invariant(self);
        }
        self.entries.len() == 0
    }

    /// The activity counters.
    pub fn stats(&self) -> (s: &CacheCounters)
        ensures
            *s == self@.counters,
    {
        &self.stats
    }

    /// The activity counters, after recording the current number of entries.
    pub fn stats_mut(&mut self) -> (s: CacheCounters)
        ensures
            cache_ok(old(self)@),
            cache_ok(final(self)@),
            final(self)@ == (CacheModel {
                counters: CacheCounters {
                    total_entries: old(self)@.entries.len() as usize,
                    ..old(self)@.counters
                },
                ..old(self)@
            }),
            s == final(self)@.counters,
    {
        proof {
            use_type_invariant(&*self);
        }
        self.stats.total_entries = self.entries.len();
        self.stats
    }

    /// The configuration.
    pub fn config(&self) -> (c: &CacheConfig)
        ensures
            *c == self@.config,
    {
        &self.config
    }

    /// Whether `key` can be inserted: it is present, or evictions can make
    /// room for it (see `room_possible`). Inserting where they cannot would
    /// evict forever.
    pub fn can_insert(&self, key: &K) -> (b: bool)
        ensures
            cache_ok(self@),
            b == insert_possible(self@, key@),
    {
        proof {
            use_type_invariant(self);
            lemma_insert_possible(self@, key@);
        }
        if self.find_entry(key).is_some() {
            return true;
        }
        if self.entries.len() < self.config.max_entries {
            return true;
        }
        if self.config.max_entries == 0 {
            return false;
        }
        match self.config.eviction_policy {
            EvictionPolicy::LFU => {
                let ghost cs = self@.counts;
                let mut i: usize = 0;
                while i < self.access_count.len()
                    invariant
                        i <= self.access_count.len(),
                        cs == self@.counts,
                        cs == count_views(self.access_count@),
                        forall|j: int| 0 <= j < i ==> !has_pair(self@.entries, (#[trigger] cs[j]).0),
                        cache_ok(self@),
                        self@.config.max_entries > 0,
                        self@.config.eviction_policy == EvictionPolicy::LFU,
                        !has_pair(self@.entries, key@),
                        self@.entries.len() >= self@.config.max_entries,
                        insert_possible(self@, key@) == (has_pair(self@.entries, key@) || room_possible(
                            self@,
                        )),
                    decreases self.access_count.len() - i,
                {
                    if self.find_entry(&self.access_count[i].0).is_some() {
                        proof {
                            let x = cs[i as int].0;
                            assert(has_pair(cs, x));
                            assert(has_pair(self@.counts, x) && has_pair(self@.entries, x));
                            assert(room_possible(self@));
                        }
                        return true;
                    }
                    i += 1;
                }
                proof {
                    assert forall|x: K::V| !(#[trigger] has_pair(self@.counts, x) && has_pair(self@.entries, x)) by {
                        if has_pair(cs, x) {
                            let j = choose|j: int| 0 <= j < cs.len() && (#[trigger] cs[j]).0 == x;
                            assert(!has_pair(self@.entries, cs[j].0));
                        }
                    }
                }
                false
            },
            _ => true,
        }
    }

    fn find_entry(&self, key: &K) -> (r: Option<usize>)
        ensures
            r is None ==> !has_pair(self@.entries, key@),
            r matches Some(i) ==> i < self@.entries.len() && self@.entries[i as int].0 == key@
                && has_pair(self@.entries, key@) && pos(self@.entries, key@) == i,
    {
        proof {
            use_type_invariant(self);
        }
        let ghost es = self@.entries;
        let mut i: usize = 0;
        while i < self.entries.len()
            invariant
                i <= self.entries.len(),
                unique(es),
                es == entry_views(self.entries@),
                forall|j: int| 0 <= j < i ==> (#[trigger] es[j]).0 != key@,
            decreases self.entries.len() - i,
        {
            if self.entries[i].0.same_key(key) {
                proof {
                    lemma_pos_unique(es, i as int);
                }
                return Some(i);
            }
            i += 1;
        }
        None
    }

    fn find_count(&self, key: &K) -> (r: Option<usize>)
        ensures
            r is None ==> !has_pair(self@.counts, key@),
            r matches Some(i) ==> i < self@.counts.len() && self@.counts[i as int].0 == key@
                && has_pair(self@.counts, key@) && pos(self@.counts, key@) == i,
    {
        proof {
            use_type_invariant(self);
        }
        let ghost cs = self@.counts;
        let mut i: usize = 0;
        while i < self.access_count.len()
            invariant
                i <= self.access_count.len(),
                unique(cs),
                cs == count_views(self.access_count@),
                forall|j: int| 0 <= j < i ==> (#[trigger] cs[j]).0 != key@,
            decreases self.access_count.len() - i,
        {
            if self.access_count[i].0.same_key(key) {
                proof {
                    lemma_pos_unique(cs, i as int);
                }
                return Some(i);
            }
            i += 1;
        }
        None
    }

    /// Where the least recently used entry stands.
    fn lru_position(&self) -> (r: usize)
        requires
            self@.entries.len() > 0,
        ensures
            r == lru_index(self@.entries),
            r < self@.entries.len(),
    {
        let ghost es = self@.entries;
        let mut best: usize = 0;
        let mut i: usize = 1;
        while i < self.entries.len()
            invariant
                1 <= i <= self.entries.len(),
                es == entry_views(self.entries@),
                best < i,
                best == lru_index(es.take(i as int)),
            decreases self.entries.len() - i,
        {
            proof {
                assert(es.take(i + 1).drop_last() =~= es.take(i as int));
                assert(es.take(i + 1)[best as int] == es[best as int]);
            }
            if self.entries[i].1.last_accessed < self.entries[best].1.last_accessed {
                best = i;
            }
            i += 1;
        }
        assert(es.take(i as int) =~= es);
        best
    }

    /// Where the least frequently used key stands in the counts.
    fn lfu_position(&self) -> (r: usize)
        requires
            self@.counts.len() > 0,
        ensures
            r == lfu_index(self@.counts),
            r < self@.counts.len(),
    {
        let ghost cs = self@.counts;
        let mut best: usize = 0;
        let mut i: usize = 1;
        while i < self.access_count.len()
            invariant
                1 <= i <= self.access_count.len(),
                cs == count_views(self.access_count@),
                best < i,
                best == lfu_index(cs.take(i as int)),
            decreases self.access_count.len() - i,
        {
            proof {
                assert(cs.take(i + 1).drop_last() =~= cs.take(i as int));
                assert(cs.take(i + 1)[best as int] == cs[best as int]);
            }
            if self.access_count[i].1 < self.access_count[best].1 {
                best = i;
            }
            i += 1;
        }
        assert(cs.take(i as int) =~= cs);
        best
    }
}

impl<K: CacheKey, V: Clone> AnalysisCache<K, V> {
    /// Takes `key` out of the entries, the counts and the order; returns the
    /// value of its entry, if it had one.
    fn discard_key(&mut self, key: &K) -> (r: Option<V>)
        ensures
            final(self)@ == discard(old(self)@, key@),
            has_pair(old(self)@.entries, key@) <==> r is Some,
            r matches Some(v) ==> v == old(self)@.entries[pos(old(self)@.entries, key@)].1.value,
    {
        let ghost m = self@;
        let fe = self.find_entry(key);
        let fc = self.find_count(key);
        let ord = without_key(&self.access_order, key);
        let (mut es, _old_order, mut cs) = self.take_parts();
        let r = match fe {
            Some(i) => {
                let (_, e) = es.remove(i);
                assert(entry_views(es@) =~= m.entries.remove(i as int));
                Some(e.value)
            },
            None => None,
        };
        match fc {
            Some(j) => {
                cs.remove(j);
                assert(count_views(cs@) =~= m.counts.remove(j as int));
            },
            None => {},
        }
        proof {
            lemma_drop_pair(m.entries, key@, key@);
            lemma_drop_pair(m.counts, key@, key@);
            assert(entry_views(es@) == drop_pair(m.entries, key@));
            assert(count_views(cs@) == drop_pair(m.counts, key@));
            assert forall|i: int| 0 <= i < entry_views(es@).len() implies key_views(ord@).contains(
                (#[trigger] entry_views(es@)[i]).0,
            ) by {
                let x = entry_views(es@)[i].0;
                assert(has_pair(entry_views(es@), x));
                lemma_drop_pair(m.entries, key@, x);
                let j = choose|j: int| 0 <= j < m.entries.len() && (#[trigger] m.entries[j]).0 == x;
                assert(m.order.contains(m.entries[j].0));
                lemma_drop_all(m.order, key@, x);
            }
        }
        self.put_parts(es, ord, cs);
        r
    }

    /// Evicts the entry the policy picks, if the cache holds any.
    fn evict_one(&mut self)
        ensures
            final(self)@ == evict_step(old(self)@),
    {
        let ghost m = self@;
        if self.entries.len() == 0 {
            return;
        }
        let choice: Option<K> = match self.config.eviction_policy {
            EvictionPolicy::LRU => {
                let i = self.lru_position();
                Some(self.entries[i].0.copy_key())
            },
            EvictionPolicy::FIFO => {
                if self.access_order.len() > 0 {
                    Some(self.access_order[0].copy_key())
                } else {
                    None
                }
            },
            EvictionPolicy::LFU => {
                if self.access_count.len() > 0 {
                    let j = self.lfu_position();
                    Some(self.access_count[j].0.copy_key())
                } else {
                    None
                }
            },
        };
        match choice {
            Some(k) => {
                self.discard_key(&k);
                proof {
                    use_type_invariant(&*self);
                }
                self.stats.evictions = bump_exec(self.stats.evictions);
            },
            None => {},
        }
    }

    /// Inserts `value` under `key` with time to live `ttl` nanoseconds, at
    /// time `now` (see `insert_model`).
    pub fn insert_with_ttl_at(&mut self, key: K, value: V, ttl: u128, now: u128)
        requires
            insert_possible(old(self)@, key@),
        ensures
            cache_ok(old(self)@),
            cache_ok(final(self)@),
            final(self)@ == insert_model(old(self)@, key@, value, ttl, now),
            final(self)@.entries.len() <= final(self)@.config.max_entries,
    {
        proof {
            use_type_invariant(&*self);
        }
        let ghost m = self@;
        match self.find_entry(&key) {
            Some(i) => {
                let (mut es, ord, cs) = self.take_parts();
                es.set(i, (key, CacheEntry::new(value, ttl, now)));
                proof {
                    let ev = m.entries.update(i as int, (key@, fresh_entry(value, ttl, now)));
                    assert(entry_views(es@) =~= ev);
                    assert forall|a: int, b: int|
                        0 <= a < ev.len() && 0 <= b < ev.len() && a != b implies (#[trigger] ev[a]).0
                        != (#[trigger] ev[b]).0 by {
                        assert(ev[a].0 == m.entries[a].0);
                        assert(ev[b].0 == m.entries[b].0);
                    }
                    assert forall|a: int| 0 <= a < ev.len() implies m.order.contains(
                        (#[trigger] ev[a]).0,
                    ) by {
                        assert(ev[a].0 == m.entries[a].0);
                    }
                }
                self.put_parts(es, ord, cs);
            },
            None => {
                let ghost target = make_room(m);
                proof {
                    lemma_evict_until_keeps(m, fuel(m));
                }
                while self.entries.len() >= self.config.max_entries
                    invariant
                        evict_until(self@, fuel(self@)) == target,
                        target.entries.len() < target.config.max_entries,
                        target.config == self@.config,
                        self.config == self@.config,
                        self.entries@.len() == self@.entries.len(),
                    decreases fuel(self@),
                {
                    proof {
                        use_type_invariant(&*self);
                    }
                    let ghost before = self@;
                    self.evict_one();
                    proof {
                        use_type_invariant(&*self);
                        lemma_evict_step_fuel(before);
                        lemma_evict_step_keeps(before);
                        lemma_evict_until_fuel(self@, (fuel(before) - 1) as nat);
                    }
                }
                proof {
                    use_type_invariant(&*self);
                    assert(self@ == target);
                }
                let k2 = key.copy_key();
                let (mut es, mut ord, cs) = self.take_parts();
                ord.push(k2);
                es.push((key, CacheEntry::new(value, ttl, now)));
                proof {
                    let ev = target.entries.push((key@, fresh_entry(value, ttl, now)));
                    let ov = target.order.push(key@);
                    assert(entry_views(es@) =~= ev);
                    assert(key_views(ord@) =~= ov);
                    assert(!has_pair(target.entries, key@));
                    assert forall|a: int, b: int|
                        0 <= a < ev.len() && 0 <= b < ev.len() && a != b implies (#[trigger] ev[a]).0
                        != (#[trigger] ev[b]).0 by {
                        if a == ev.len() - 1 {
                            assert(target.entries[b].0 == ev[b].0);
                        } else if b == ev.len() - 1 {
                            assert(target.entries[a].0 == ev[a].0);
                        }
                    }
                    assert forall|a: int| 0 <= a < ev.len() implies ov.contains(
                        (#[trigger] ev[a]).0,
                    ) by {
                        if a == ev.len() - 1 {
                            assert(ov[ov.len() - 1] == key@);
                        } else {
                            assert(ev[a] == target.entries[a]);
                            vstd::seq_lib::lemma_seq_contains_after_push(
                                target.order,
                                key@,
                                ev[a].0,
                            );
                        }
                    }
                }
                self.put_parts(es, ord, cs);
            },
        }
    }

    /// Inserts `value` under `key` with time to live `ttl`, which is read in
    /// nanoseconds with `Duration::as_nanos`, at the current reading of the
    /// cache's clock.
    pub fn insert_with_ttl(&mut self, key: K, value: V, ttl: Duration)
        requires
            insert_possible(old(self)@, key@),
        ensures
            cache_ok(old(self)@),
            cache_ok(final(self)@),
            exists|now: u128|
                final(self)@ == #[trigger] insert_model(old(self)@, key@, value, nanos_in(ttl), now),
            final(self)@.entries.len() <= final(self)@.config.max_entries,
    {
        let now = self.now();
        let t = duration_nanos(&ttl);
        self.insert_with_ttl_at(key, value, t, now);
    }

    /// Inserts `value` under `key` with the configured default time to live,
    /// at the current reading of the cache's clock.
    pub fn insert(&mut self, key: K, value: V)
        requires
            insert_possible(old(self)@, key@),
        ensures
            cache_ok(old(self)@),
            cache_ok(final(self)@),
            exists|now: u128|
                final(self)@ == #[trigger] insert_model(
                    old(self)@,
                    key@,
                    value,
                    (old(self)@.config.default_ttl_seconds * 1_000_000_000) as u128,
                    now,
                ),
            final(self)@.entries.len() <= final(self)@.config.max_entries,
    {
        let now = self.now();
        let t: u128 = self.config.default_ttl_seconds as u128 * 1_000_000_000;
        self.insert_with_ttl_at(key, value, t, now);
    }
}

impl<K: CacheKey, V: Clone> AnalysisCache<K, V> {
    /// Looks `key` up at time `now` (see `lookup_model`); returns a clone of
    /// the value of a live entry.
    pub fn get_at(&mut self, key: &K, now: u128) -> (r: Option<V>)
        ensures
            cache_ok(old(self)@),
            cache_ok(final(self)@),
            final(self)@ == lookup_model(old(self)@, key@, now),
            r is Some <==> live_at(old(self)@, key@, now),
            r matches Some(v) ==> cloned(
                old(self)@.entries[pos(old(self)@.entries, key@)].1.value,
                v,
            ),
    {
        proof {
            use_type_invariant(&*self);
        }
        let ghost m = self@;
        match self.find_entry(key) {
            None => {
                self.stats.misses = bump_exec(self.stats.misses);
                None
            },
            Some(i) => {
                if self.entries[i].1.is_expired(now) {
                    let (mut es, ord, cs) = self.take_parts();
                    es.remove(i);
                    proof {
                        assert(entry_views(es@) =~= m.entries.remove(i as int));
                        lemma_drop_pair(m.entries, key@, key@);
                        assert forall|a: int| 0 <= a < entry_views(es@).len() implies m.order.contains(
                            (#[trigger] entry_views(es@)[a]).0,
                        ) by {
                            let x = entry_views(es@)[a].0;
                            assert(has_pair(entry_views(es@), x));
                            lemma_drop_pair(m.entries, key@, x);
                            let j = choose|j: int|
                                0 <= j < m.entries.len() && (#[trigger] m.entries[j]).0 == x;
                            assert(m.order.contains(m.entries[j].0));
                        }
                    }
                    self.put_parts(es, ord, cs);
                    proof {
                        use_type_invariant(&*self);
                    }
                    self.stats.expirations = bump_exec(self.stats.expirations);
                    self.stats.misses = bump_exec(self.stats.misses);
                    None
                } else {
                    let fc = self.find_count(key);
                    let kc = key.copy_key();
                    let (mut es, ord, mut cs) = self.take_parts();
                    let (k, mut e) = es.remove(i);
                    let v = e.value.clone();
                    e.last_accessed = now;
                    es.insert(i, (k, e));
                    match fc {
                        Some(j) => {
                            let c = bump_exec(cs[j].1);
                            cs.set(j, (kc, c));
                        },
                        None => {
                            cs.push((kc, 1));
                        },
                    }
                    proof {
                        let ev = m.entries.update(
                            i as int,
                            (key@, EntryModel { last_accessed: now, ..m.entries[i as int].1 }),
                        );
                        assert(entry_views(es@) =~= ev);
                        assert forall|a: int, b: int|
                            0 <= a < ev.len() && 0 <= b < ev.len() && a != b implies (
                        #[trigger] ev[a]).0 != (#[trigger] ev[b]).0 by {
                            assert(ev[a].0 == m.entries[a].0);
                            assert(ev[b].0 == m.entries[b].0);
                        }
                        assert forall|a: int| 0 <= a < ev.len() implies m.order.contains(
                            (#[trigger] ev[a]).0,
                        ) by {
                            assert(ev[a].0 == m.entries[a].0);
                        }
                        let cv = count_access(m.counts, key@);
                        assert(count_views(cs@) =~= cv);
                        assert forall|a: int, b: int|
                            0 <= a < cv.len() && 0 <= b < cv.len() && a != b implies (
                        #[trigger] cv[a]).0 != (#[trigger] cv[b]).0 by {
                            if a < m.counts.len() && b < m.counts.len() {
                                assert(cv[a].0 == m.counts[a].0);
                                assert(cv[b].0 == m.counts[b].0);
                            } else if a == m.counts.len() {
                                assert(m.counts[b].0 == cv[b].0);
                            } else {
                                assert(m.counts[a].0 == cv[a].0);
                            }
                        }
                    }
                    self.put_parts(es, ord, cs);
                    proof {
                        use_type_invariant(&*self);
                    }
                    self.stats.hits = bump_exec(self.stats.hits);
                    Some(v)
                }
            },
        }
    }

    /// Looks `key` up at the current reading of the cache's clock.
    pub fn get(&mut self, key: &K) -> (r: Option<V>)
        ensures
            cache_ok(old(self)@),
            cache_ok(final(self)@),
            exists|now: u128|
                {
                    &&& final(self)@ == #[trigger] lookup_model(old(self)@, key@, now)
                    &&& (r is Some <==> live_at(old(self)@, key@, now))
                },
            r matches Some(v) ==> cloned(
                old(self)@.entries[pos(old(self)@.entries, key@)].1.value,
                v,
            ),
    {
        let now = self.now();
        self.get_at(key, now)
    }

    /// Whether `key` has an entry that has not expired at time `now`; nothing changes.
    pub fn contains_key_at(&self, key: &K, now: u128) -> (b: bool)
        ensures
            cache_ok(self@),
            b == live_at(self@, key@, now),
    {
        proof {
            use_type_invariant(self);
        }
        match self.find_entry(key) {
            Some(i) => !self.entries[i].1.is_expired(now),
            None => false,
        }
    }

    /// Whether `key` has a live entry at the current reading of the cache's
    /// clock; nothing changes, access times included.
    pub fn contains_key(&self, key: &K) -> (b: bool)
        ensures
            cache_ok(self@),
            exists|now: u128| b == #[trigger] live_at(self@, key@, now),
            b ==> has_pair(self@.entries, key@),
    {
        let now = self.now();
        self.contains_key_at(key, now)
    }

    /// Removes `key` with its access count and its places in the order;
    /// returns the value of its entry, if it had one (else nothing changes).
    pub fn remove(&mut self, key: &K) -> (r: Option<V>)
        ensures
            cache_ok(old(self)@),
            cache_ok(final(self)@),
            final(self)@ == remove_model(old(self)@, key@),
            has_pair(old(self)@.entries, key@) <==> r is Some,
            r matches Some(v) ==> v == old(self)@.entries[pos(old(self)@.entries, key@)].1.value,
    {
        proof {
            use_type_invariant(&*self);
        }
        let r = match self.find_entry(key) {
            Some(_) => self.discard_key(key),
            None => None,
        };
        proof {
            use_type_invariant(&*self);
        }
        r
    }

    /// Removes every entry, order and count; the counters stay.
    pub fn clear(&mut self)
        ensures
            cache_ok(old(self)@),
            cache_ok(final(self)@),
            final(self)@ == (CacheModel {
                entries: Seq::empty(),
                order: Seq::empty(),
                counts: Seq::empty(),
                ..old(self)@
            }),
    {
        let _ = self.take_parts();
        assert(entry_views(self.entries@) =~= Seq::empty());
        assert(key_views(self.access_order@) =~= Seq::empty());
        assert(count_views(self.access_count@) =~= Seq::empty());
    }

    /// Removes every entry expired at time `now`, as `remove` does, in entry
    /// order; returns how many there were.
    pub fn cleanup_expired_at(&mut self, now: u128) -> (n: usize)
        ensures
            cache_ok(old(self)@),
            cache_ok(final(self)@),
            final(self)@ == remove_all(old(self)@, expired_keys(old(self)@.entries, now)),
            n == expired_keys(old(self)@.entries, now).len(),
    {
        proof {
            use_type_invariant(&*self);
        }
        let ghost m = self@;
        let ghost es = self@.entries;
        let mut keys: Vec<K> = Vec::new();
        let mut i: usize = 0;
        assert(key_views(keys@) =~= expired_keys(es.take(0), now));
        while i < self.entries.len()
            invariant
                i <= self.entries.len(),
                es == entry_views(self.entries@),
                es == m.entries,
                key_views(keys@) == expired_keys(es.take(i as int), now),
                keys@.len() <= i,
            decreases self.entries.len() - i,
        {
            proof {
                assert(es.take(i + 1).drop_last() =~= es.take(i as int));
                assert(es.take(i + 1).last() == es[i as int]);
            }
            if self.entries[i].1.is_expired(now) {
                let k = self.entries[i].0.copy_key();
                let ghost before = keys@;
                keys.push(k);
                assert(key_views(keys@) =~= key_views(before).push(k@));
            }
            i += 1;
        }
        assert(es.take(i as int) =~= es);
        let ghost ks = key_views(keys@);
        let mut j: usize = 0;
        assert(ks.take(0) =~= Seq::<K::V>::empty());
        while j < keys.len()
            invariant
                j <= keys.len(),
                ks == key_views(keys@),
                self@ == remove_all(m, ks.take(j as int)),
                cache_ok(self@),
            decreases keys.len() - j,
        {
            proof {
                assert(ks.take(j + 1).drop_last() =~= ks.take(j as int));
                assert(ks.take(j + 1).last() == keys@[j as int]@);
            }
            self.remove(&keys[j]);
            j += 1;
        }
        assert(ks.take(j as int) =~= ks);
        keys.len()
    }

    /// Removes every entry expired at the current reading of the cache's
    /// clock; returns how many there were.
    pub fn cleanup_expired(&mut self) -> (n: usize)
        ensures
            cache_ok(old(self)@),
            cache_ok(final(self)@),
            exists|now: u128|
                {
                    &&& final(self)@ == remove_all(old(self)@, #[trigger] expired_keys(old(self)@.entries, now))
                    &&& n == expired_keys(old(self)@.entries, now).len()
                },
    {
        let now = self.now();
        self.cleanup_expired_at(now)
    }
}

impl<K: CacheKey, V: Clone> View for AnalysisCache<K, V> {
    type V = CacheModel<K::V, V>;

    closed spec fn view(&self) -> CacheModel<K::V, V> {
        self.model()
    }
}

} // verus!
