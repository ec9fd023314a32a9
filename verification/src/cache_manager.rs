//! Named caches over one concurrent map of entries, with per-cache hit and
//! miss counts.  Values are held as encoded bytes; an entry lives for its
//! lifetime and is dropped when found expired.

use vstd::prelude::*;
use crate::caching::{expired, full_key, full_key_of, starts_with, belongs_to, CacheEntry, CacheStats, CacheStatsBook};
use dashmap::DashMap;

verus! {

/// The concurrent map of the `dashmap` crate.
#[verifier::external_type_specification]
#[verifier::external_body]
#[verifier::reject_recursive_types(K)]
#[verifier::reject_recursive_types(V)]
#[verifier::reject_recursive_types(S)]
pub struct ExDashMap<K, V, S>(DashMap<K, V, S>);

/// A map of cache entries by full key.
pub type EntryMap = DashMap<String, CacheEntry<Vec<u8>>>;

/// What an entry holds: its bytes, when it was made and last read, how
/// often it was read, and its lifetime.
pub type EntryView = (Seq<u8>, u64, u64, u64, Option<u64>);

/// The view of an entry.
pub open spec fn entry_view(e: CacheEntry<Vec<u8>>) -> EntryView {
    (e.value@, e.created_at, e.last_accessed, e.access_count, e.ttl)
}

/// What a map of cache entries holds, by key.
pub uninterp spec fn map_entries(m: EntryMap) -> Map<Seq<char>, EntryView>;

/// No entries.
pub open spec fn no_entries() -> Map<Seq<char>, EntryView> {
    Map::empty()
}

/// An empty map, from `DashMap::new`.
#[verifier::external_body]
fn map_new() -> (fresh: EntryMap)
    ensures
        map_entries(fresh) == no_entries(),
{
    DashMap::new()
}

/// `DashMap::insert`: stores `entry` under `key`, in place of an entry
/// already there.  Keys are told apart by their text.
#[verifier::external_body]
fn map_insert(m: &mut EntryMap, key: String, entry: CacheEntry<Vec<u8>>)
    ensures
        map_entries(*final(m)) == map_entries(*old(m)).insert(key@, entry_view(entry)),
{
    m.insert(key, entry);
}

/// `DashMap::get`: a copy of the entry under `key`, if any.
#[verifier::external_body]
fn map_get(m: &EntryMap, key: &String) -> (r: Option<CacheEntry<Vec<u8>>>)
    ensures
        r is Some == map_entries(*m).contains_key(key@),
        r matches Some(e) ==> entry_view(e) == map_entries(*m)[key@],
{
    match m.get(key) {
        Some(e) => Some(e.value().clone()),
        None => None,
    }
}

/// `DashMap::remove`: drops the entry under `key`, if any.
#[verifier::external_body]
fn map_remove(m: &mut EntryMap, key: &String)
    ensures
        map_entries(*final(m)) == map_entries(*old(m)).remove(key@),
{
    m.remove(key);
}

/// The entries of `c` still fresh at `now`.
pub open spec fn fresh_at(c: Map<Seq<char>, EntryView>, now: u64) -> Map<Seq<char>, EntryView> {
    Map::new(|k: Seq<char>| c.contains_key(k) && !expired(c[k].1, c[k].4, now), |k: Seq<char>| c[k])
}

/// The entries of `c` outside the cache named `cache_name`.
pub open spec fn outside(c: Map<Seq<char>, EntryView>, cache_name: Seq<char>) -> Map<Seq<char>, EntryView> {
    Map::new(|k: Seq<char>| c.contains_key(k) && !starts_with(k, cache_name + ":"@), |k: Seq<char>| c[k])
}

/// `DashMap::retain` keeping the entries not expired at `now`.
#[verifier::external_body]
fn map_retain_fresh(m: &mut EntryMap, now: u64)
    ensures
        map_entries(*final(m)) == fresh_at(map_entries(*old(m)), now),
{
    m.retain(|_, e| !e.is_expired_at(now));
}

/// `DashMap::retain` keeping the entries outside the cache named
/// `cache_name`.
#[verifier::external_body]
fn map_retain_outside(m: &mut EntryMap, cache_name: &str)
    ensures
        map_entries(*final(m)) == outside(map_entries(*old(m)), cache_name@),
{
    m.retain(|k, _| !belongs_to(k.as_str(), cache_name));
}

/// `DashMap::len`: the number of entries.
#[verifier::external_body]
fn map_len(m: &EntryMap) -> (n: usize)
    ensures
        n == map_entries(*m).len(),
{
    m.len()
}

/// What a lookup of key `k` at `now` finds in `c`: the bytes of an entry
/// not yet expired.
pub open spec fn lookup(c: Map<Seq<char>, EntryView>, k: Seq<char>, now: u64) -> Option<Seq<u8>> {
    if c.contains_key(k) && !expired(c[k].1, c[k].4, now) {
        Some(c[k].0)
    } else {
        None
    }
}

/// The entries after a lookup of `k` at `now`: an expired entry is dropped;
/// a fresh one is dated and counted as read once more (the count stops at
/// its largest value).
pub open spec fn after_lookup_entries(c: Map<Seq<char>, EntryView>, k: Seq<char>, now: u64) -> Map<Seq<char>, EntryView> {
    if !c.contains_key(k) {
        c
    } else if expired(c[k].1, c[k].4, now) {
        c.remove(k)
    } else {
        let e = c[k];
        c.insert(k, (e.0, e.1, now, if e.3 < u64::MAX { (e.3 + 1) as u64 } else { e.3 }, e.4))
    }
}

/// Named caches in one map.
pub struct CacheManager {
    l2_cache: EntryMap,
    stats: CacheStatsBook,
    max_capacity: u64,
    default_ttl: u64,
}

impl CacheManager {
    /// The entries, by full key.
    pub closed spec fn entries(&self) -> Map<Seq<char>, EntryView> {
        map_entries(self.l2_cache)
    }

    /// The counts, by cache name.
    pub closed spec fn counts(&self, cache_name: Seq<char>) -> Option<CacheStats> {
        self.stats.of(cache_name)
    }

    /// The lifetime the cache was made with, in milliseconds.
    pub closed spec fn lifetime(&self) -> u64 {
        self.default_ttl
    }

    /// The capacity the cache was made with.
    pub closed spec fn capacity(&self) -> u64 {
        self.max_capacity
    }

    /// The counts are kept one per cache name.
    pub closed spec fn well_formed(&self) -> bool {
        self.stats.well_formed()
    }

    /// Whether a lookup in cache `cache_name` can still be counted.
    pub open spec fn room(&self, cache_name: Seq<char>) -> bool {
        self.counts(cache_name) matches Some(c) ==> c.hits < u64::MAX && c.misses < u64::MAX
    }

    /// An empty cache made with a capacity and a default lifetime in
    /// milliseconds.
    pub fn new(max_capacity: u64, default_ttl: u64) -> (c: Self)
        ensures
            c.well_formed(),
            c.entries() == no_entries(),
            c.lifetime() == default_ttl,
            c.capacity() == max_capacity,
            forall|n: Seq<char>| #[trigger] c.counts(n) is None,
    {
        CacheManager { l2_cache: map_new(), stats: CacheStatsBook::new(), max_capacity, default_ttl }
    }

    /// Looks `key` up in cache `cache_name` at `now`: the bytes of an entry
    /// not yet expired, counted as a hit; otherwise nothing, counted as a
    /// miss, and an expired entry is dropped.
    pub fn get_at(&mut self, cache_name: &str, key: &str, now: u64) -> (r: Option<Vec<u8>>)
        requires
            old(self).well_formed(),
            old(self).room(cache_name@),
        ensures
            final(self).well_formed(),
            r matches Some(v) ==> lookup(old(self).entries(), full_key_of(cache_name@, key@), now) == Some(v@),
            r is None ==> lookup(old(self).entries(), full_key_of(cache_name@, key@), now) is None,
            final(self).entries() == after_lookup_entries(old(self).entries(), full_key_of(cache_name@, key@), now),
            final(self).counts(cache_name@) == Some(crate::caching::after_lookup(old(self).counts(cache_name@), r is Some)),
            forall|n: Seq<char>| n != cache_name@ ==> #[trigger] final(self).counts(n) == old(self).counts(n),
            final(self).lifetime() == old(self).lifetime(),
            final(self).capacity() == old(self).capacity(),
    {
        let k = full_key(cache_name, key);
        let found = map_get(&self.l2_cache, &k);
        let result = match found {
            Some(e) => {
                if e.is_expired_at(now) {
                    map_remove(&mut self.l2_cache, &k);
                    None
                } else {
                    let count = if e.access_count < u64::MAX {
                        e.access_count + 1
                    } else {
                        e.access_count
                    };
                    let v = e.value.clone();
                    let updated = CacheEntry { last_accessed: now, access_count: count, ..e };
                    map_insert(&mut self.l2_cache, k, updated);
                    Some(v)
                }
            },
            None => None,
        };
        self.stats.record_lookup(cache_name, result.is_some());
        result
    }

    /// Counts a hit of cache `cache_name` served by a faster tier kept in
    /// front of this cache; the entries stay as they are.
    pub fn record_hit(&mut self, cache_name: &str)
        requires
            old(self).well_formed(),
            old(self).room(cache_name@),
        ensures
            final(self).well_formed(),
            final(self).entries() == old(self).entries(),
            final(self).counts(cache_name@) == Some(crate::caching::after_lookup(old(self).counts(cache_name@), true)),
            forall|n: Seq<char>| n != cache_name@ ==> #[trigger] final(self).counts(n) == old(self).counts(n),
            final(self).lifetime() == old(self).lifetime(),
            final(self).capacity() == old(self).capacity(),
    {
        self.stats.record_lookup(cache_name, true);
    }

    /// Sets `value` under `key` in cache `cache_name` at `now`, to live
    /// `ttl` milliseconds, or for good without one.
    pub fn set_at(&mut self, cache_name: &str, key: &str, value: Vec<u8>, ttl: Option<u64>, now: u64)
        requires
            old(self).well_formed(),
        ensures
            final(self).well_formed(),
            final(self).entries() == old(self).entries().insert(
                full_key_of(cache_name@, key@),
                (value@, now, now, 1u64, ttl),
            ),
            forall|n: Seq<char>| #[trigger] final(self).counts(n) == old(self).counts(n),
            final(self).lifetime() == old(self).lifetime(),
            final(self).capacity() == old(self).capacity(),
    {
        let entry = CacheEntry::new_at(value, ttl, now);
        map_insert(&mut self.l2_cache, full_key(cache_name, key), entry);
    }

    /// Drops `key` from cache `cache_name`.
    pub fn remove(&mut self, cache_name: &str, key: &str)
        requires
            old(self).well_formed(),
        ensures
            final(self).well_formed(),
            final(self).entries() == old(self).entries().remove(full_key_of(cache_name@, key@)),
            forall|n: Seq<char>| #[trigger] final(self).counts(n) == old(self).counts(n),
            final(self).lifetime() == old(self).lifetime(),
    {
        let k = full_key(cache_name, key);
        map_remove(&mut self.l2_cache, &k);
    }

    /// Drops every entry of cache `cache_name`.
    pub fn clear_cache(&mut self, cache_name: &str)
        requires
            old(self).well_formed(),
        ensures
            final(self).well_formed(),
            final(self).entries() == outside(old(self).entries(), cache_name@),
            forall|n: Seq<char>| #[trigger] final(self).counts(n) == old(self).counts(n),
            final(self).lifetime() == old(self).lifetime(),
    {
        map_retain_outside(&mut self.l2_cache, cache_name);
    }

    /// Drops the entries expired at `now`.
    pub fn cleanup_expired_at(&mut self, now: u64)
        requires
            old(self).well_formed(),
        ensures
            final(self).well_formed(),
            final(self).entries() == fresh_at(old(self).entries(), now),
            forall|n: Seq<char>| #[trigger] final(self).counts(n) == old(self).counts(n),
            final(self).lifetime() == old(self).lifetime(),
    {
        map_retain_fresh(&mut self.l2_cache, now);
    }

    /// The number of entries.
    pub fn size(&self) -> (n: usize)
        ensures
            n == self.entries().len(),
    {
        map_len(&self.l2_cache)
    }

    /// The counts of cache `cache_name`.
    pub fn get_stats(&self, cache_name: &str) -> (r: Option<CacheStats>)
        requires
            self.well_formed(),
        ensures
            r == self.counts(cache_name@),
    {
        self.stats.get_stats(cache_name)
    }
}

/// Query results cached under their query hash, in the cache "query".
pub struct QueryCache {
    cache_manager: CacheManager,
}

impl QueryCache {
    /// The entries of the underlying cache.
    pub closed spec fn entries(&self) -> Map<Seq<char>, EntryView> {
        self.cache_manager.entries()
    }

    /// The underlying cache is well formed.
    pub closed spec fn well_formed(&self) -> bool {
        self.cache_manager.well_formed()
    }

    /// The counts of the cache "query".
    pub closed spec fn counts(&self) -> Option<CacheStats> {
        self.cache_manager.counts("query"@)
    }

    /// Whether a lookup can still be counted.
    pub open spec fn room(&self) -> bool {
        self.counts() matches Some(c) ==> c.hits < u64::MAX && c.misses < u64::MAX
    }

    /// An empty query cache: a thousand entries, five minutes.
    pub fn new() -> (q: Self)
        ensures
            q.well_formed(),
            q.room(),
            q.entries() == no_entries(),
    {
        QueryCache { cache_manager: CacheManager::new(1000, 300000) }
    }

    /// Caches the result of query `query_hash` at `now` for `ttl`
    /// milliseconds.
    pub fn cache_query_at(&mut self, query_hash: &str, result: Vec<u8>, ttl: u64, now: u64)
        requires
            old(self).well_formed(),
        ensures
            final(self).well_formed(),
            final(self).room() == old(self).room(),
            final(self).entries() == old(self).entries().insert(
                full_key_of("query"@, query_hash@),
                (result@, now, now, 1u64, Some(ttl)),
            ),
    {
        self.cache_manager.set_at("query", query_hash, result, Some(ttl), now);
    }

    /// The cached result of query `query_hash` at `now`.
    pub fn get_cached_query_at(&mut self, query_hash: &str, now: u64) -> (r: Option<Vec<u8>>)
        requires
            old(self).well_formed(),
            old(self).room(),
        ensures
            final(self).well_formed(),
            r matches Some(v) ==> lookup(old(self).entries(), full_key_of("query"@, query_hash@), now) == Some(v@),
            r is None ==> lookup(old(self).entries(), full_key_of("query"@, query_hash@), now) is None,
            final(self).entries() == after_lookup_entries(old(self).entries(), full_key_of("query"@, query_hash@), now),
            final(self).counts() == Some(crate::caching::after_lookup(old(self).counts(), r is Some)),
    {
        self.cache_manager.get_at("query", query_hash, now)
    }

    /// Drops the result of query `query_hash`.
    pub fn invalidate_query(&mut self, query_hash: &str)
        requires
            old(self).well_formed(),
        ensures
            final(self).well_formed(),
            final(self).room() == old(self).room(),
            final(self).entries() == old(self).entries().remove(full_key_of("query"@, query_hash@)),
    {
        self.cache_manager.remove("query", query_hash);
    }

    /// Drops every cached query.
    pub fn clear_all(&mut self)
        requires
            old(self).well_formed(),
        ensures
            final(self).well_formed(),
            final(self).room() == old(self).room(),
            final(self).entries() == outside(old(self).entries(), "query"@),
    {
        self.cache_manager.clear_cache("query");
    }
}

/// User sessions cached under their identifier, in the cache "session".
pub struct SessionCache {
    cache_manager: CacheManager,
}

impl SessionCache {
    /// The entries of the underlying cache.
    pub closed spec fn entries(&self) -> Map<Seq<char>, EntryView> {
        self.cache_manager.entries()
    }

    /// The underlying cache is well formed.
    pub closed spec fn well_formed(&self) -> bool {
        self.cache_manager.well_formed()
    }

    /// The counts of the cache "session".
    pub closed spec fn counts(&self) -> Option<CacheStats> {
        self.cache_manager.counts("session"@)
    }

    /// Whether a lookup can still be counted.
    pub open spec fn room(&self) -> bool {
        self.counts() matches Some(c) ==> c.hits < u64::MAX && c.misses < u64::MAX
    }

    /// An empty session cache: ten thousand entries, thirty minutes.
    pub fn new() -> (s: Self)
        ensures
            s.well_formed(),
            s.room(),
            s.entries() == no_entries(),
    {
        SessionCache { cache_manager: CacheManager::new(10000, 1800000) }
    }

    /// Caches session `session_id` at `now` for `ttl` milliseconds.
    pub fn cache_session_at(&mut self, session_id: &str, session_data: Vec<u8>, ttl: u64, now: u64)
        requires
            old(self).well_formed(),
        ensures
            final(self).well_formed(),
            final(self).room() == old(self).room(),
            final(self).entries() == old(self).entries().insert(
                full_key_of("session"@, session_id@),
                (session_data@, now, now, 1u64, Some(ttl)),
            ),
    {
        self.cache_manager.set_at("session", session_id, session_data, Some(ttl), now);
    }

    /// The cached session `session_id` at `now`.
    pub fn get_session_at(&mut self, session_id: &str, now: u64) -> (r: Option<Vec<u8>>)
        requires
            old(self).well_formed(),
            old(self).room(),
        ensures
            final(self).well_formed(),
            r matches Some(v) ==> lookup(old(self).entries(), full_key_of("session"@, session_id@), now) == Some(v@),
            r is None ==> lookup(old(self).entries(), full_key_of("session"@, session_id@), now) is None,
            final(self).entries() == after_lookup_entries(old(self).entries(), full_key_of("session"@, session_id@), now),
            final(self).counts() == Some(crate::caching::after_lookup(old(self).counts(), r is Some)),
    {
        self.cache_manager.get_at("session", session_id, now)
    }

    /// Drops session `session_id`.
    pub fn remove_session(&mut self, session_id: &str)
        requires
            old(self).well_formed(),
        ensures
            final(self).well_formed(),
            final(self).room() == old(self).room(),
            final(self).entries() == old(self).entries().remove(full_key_of("session"@, session_id@)),
    {
        self.cache_manager.remove("session", session_id);
    }

    /// Drops every session.
    pub fn clear_all_sessions(&mut self)
        requires
            old(self).well_formed(),
        ensures
            final(self).well_formed(),
            final(self).room() == old(self).room(),
            final(self).entries() == outside(old(self).entries(), "session"@),
    {
        self.cache_manager.clear_cache("session");
    }
}

/// Values computed on a miss and cached for later, in one named cache.  The
/// caller computes a missing value and stores it.
pub struct CacheAsideManager {
    cache_manager: CacheManager,
    cache_name: String,
}

impl CacheAsideManager {
    /// The entries of the underlying cache.
    pub closed spec fn entries(&self) -> Map<Seq<char>, EntryView> {
        self.cache_manager.entries()
    }

    /// The name of the cache.
    pub closed spec fn name(&self) -> Seq<char> {
        self.cache_name@
    }

    /// The underlying cache is well formed.
    pub closed spec fn well_formed(&self) -> bool {
        self.cache_manager.well_formed()
    }

    /// Whether a lookup can still be counted.
    pub open spec fn room(&self) -> bool {
        self.counts() matches Some(c) ==> c.hits < u64::MAX && c.misses < u64::MAX
    }

    /// An empty cache named `cache_name`: five thousand entries, ten
    /// minutes.
    pub fn new(cache_name: String) -> (c: Self)
        ensures
            c.well_formed(),
            c.room(),
            c.name() == cache_name@,
            c.entries() == no_entries(),
    {
        CacheAsideManager { cache_manager: CacheManager::new(5000, 600000), cache_name }
    }

    /// The cached value under `key` at `now`, if any.
    pub fn lookup_at(&mut self, key: &str, now: u64) -> (r: Option<Vec<u8>>)
        requires
            old(self).well_formed(),
            old(self).room(),
        ensures
            final(self).well_formed(),
            final(self).name() == old(self).name(),
            r matches Some(v) ==> lookup(old(self).entries(), full_key_of(old(self).name(), key@), now) == Some(v@),
            r is None ==> lookup(old(self).entries(), full_key_of(old(self).name(), key@), now) is None,
            final(self).entries() == after_lookup_entries(old(self).entries(), full_key_of(old(self).name(), key@), now),
            final(self).counts() == Some(crate::caching::after_lookup(old(self).counts(), r is Some)),
    {
        self.cache_manager.get_at(self.cache_name.as_str(), key, now)
    }

    /// Stores the computed `value` under `key` at `now` for `ttl`
    /// milliseconds.
    pub fn store_at(&mut self, key: &str, value: Vec<u8>, ttl: u64, now: u64)
        requires
            old(self).well_formed(),
        ensures
            final(self).well_formed(),
            final(self).name() == old(self).name(),
            final(self).room() == old(self).room(),
            final(self).entries() == old(self).entries().insert(
                full_key_of(old(self).name(), key@),
                (value@, now, now, 1u64, Some(ttl)),
            ),
    {
        self.cache_manager.set_at(self.cache_name.as_str(), key, value, Some(ttl), now);
    }

    /// Drops `key`.
    pub fn invalidate(&mut self, key: &str)
        requires
            old(self).well_formed(),
        ensures
            final(self).well_formed(),
            final(self).name() == old(self).name(),
            final(self).room() == old(self).room(),
            final(self).entries() == old(self).entries().remove(full_key_of(old(self).name(), key@)),
    {
        self.cache_manager.remove(self.cache_name.as_str(), key);
    }

    /// The counts of the cache.
    pub closed spec fn counts(&self) -> Option<CacheStats> {
        self.cache_manager.counts(self.cache_name@)
    }

    /// The counts of the cache.
    pub fn get_stats(&self) -> (r: Option<CacheStats>)
        requires
            self.well_formed(),
        ensures
            r == self.counts(),
    {
        self.cache_manager.get_stats(self.cache_name.as_str())
    }
}

/// A value set at `now` to live `ttl` is what a lookup before its lifetime
/// has passed gives back.
pub proof fn lemma_get_after_set(c: Map<Seq<char>, EntryView>, k: Seq<char>, v: Seq<u8>, ttl: u64, now: u64, later: u64)
    requires
        now <= later,
        later - now <= ttl,
    ensures
        lookup(c.insert(k, (v, now, now, 1u64, Some(ttl))), k, later) == Some(v),
{
}

/// Once its lifetime has passed, a value is not found any more.
pub proof fn lemma_expired_not_found(c: Map<Seq<char>, EntryView>, k: Seq<char>, v: Seq<u8>, ttl: u64, now: u64, later: u64)
    requires
        now <= later,
        later - now > ttl,
    ensures
        lookup(c.insert(k, (v, now, now, 1u64, Some(ttl))), k, later) is None,
{
}

} // verus!
