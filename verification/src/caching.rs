//! Cache entries with a time to live, the keys of the named caches, and
//! the hit and miss counts of each cache.  Times and lifetimes are
//! milliseconds; hit rates are whole percents.

use crate::keyed::{has_key, lemma_upserted_unique, upserted, value_of, KeyedTable};
use vstd::prelude::*;

verus! {

/// A cached value with its bookkeeping.
#[derive(Debug, Clone)]
pub struct CacheEntry<T> {
    pub value: T,
    pub created_at: u64,
    pub last_accessed: u64,
    pub access_count: u64,
    pub ttl: Option<u64>,
}

/// Whether an entry made at `created` with lifetime `ttl` has expired at
/// `now`: more time passed than its lifetime.
pub open spec fn expired(created: u64, ttl: Option<u64>, now: u64) -> bool {
    match ttl {
        Some(t) => now >= created && now - created > t,
        None => false,
    }
}

impl<T> CacheEntry<T> {
    /// An entry for `value` made at `now`, accessed once.
    pub fn new_at(value: T, ttl: Option<u64>, now: u64) -> (e: Self)
        ensures
            e.value == value,
            e.created_at == now,
            e.last_accessed == now,
            e.access_count == 1,
            e.ttl == ttl,
    {
        CacheEntry { value, created_at: now, last_accessed: now, access_count: 1, ttl }
    }

    /// An entry for `value` made now.
    pub fn new(value: T, ttl: Option<u64>) -> (e: Self)
        ensures
            e.value == value,
            e.access_count == 1,
            e.ttl == ttl,
            e.last_accessed == e.created_at,
    {
        Self::new_at(value, ttl, crate::platform::now_millis())
    }

    /// Whether the entry has expired at `now`.
    pub fn is_expired_at(&self, now: u64) -> (b: bool)
        ensures
            b == expired(self.created_at, self.ttl, now),
    {
        match self.ttl {
            Some(t) => now >= self.created_at && now - self.created_at > t,
            None => false,
        }
    }

    /// Whether the entry has expired now.
    pub fn is_expired(&self) -> (b: bool)
        ensures
            self.ttl is None ==> !b,
    {
        self.is_expired_at(crate::platform::now_millis())
    }

    /// Reads the value at `now`: the access is dated and counted.
    pub fn access_at(&mut self, now: u64) -> (v: &T)
        requires
            old(self).access_count < u64::MAX,
        ensures
            *v == old(self).value,
            final(self).value == old(self).value,
            final(self).last_accessed == now,
            final(self).access_count == old(self).access_count + 1,
            final(self).created_at == old(self).created_at,
            final(self).ttl == old(self).ttl,
    {
        self.last_accessed = now;
        self.access_count = self.access_count + 1;
        &self.value
    }

    /// Reads the value now.  The access time never moves back: a clock that
    /// went back leaves it where it was.
    pub fn access(&mut self) -> (v: &T)
        requires
            old(self).access_count < u64::MAX,
        ensures
            *v == old(self).value,
            final(self).value == old(self).value,
            final(self).access_count == old(self).access_count + 1,
            final(self).created_at == old(self).created_at,
            final(self).ttl == old(self).ttl,
            final(self).last_accessed >= old(self).last_accessed,
    {
        let clock = crate::platform::now_millis();
        let now = if clock >= self.last_accessed {
            clock
        } else {
            self.last_accessed
        };
        self.access_at(now)
    }
}

/// The key of `key` in the cache named `cache_name`.
pub open spec fn full_key_of(cache_name: Seq<char>, key: Seq<char>) -> Seq<char> {
    cache_name + ":"@ + key
}

/// The key of `key` in the cache named `cache_name`: the name, a colon,
/// and the key.
pub fn full_key(cache_name: &str, key: &str) -> (k: String)
    ensures
        k@ == full_key_of(cache_name@, key@),
{
    let mut k = String::from_str(cache_name);
    k.append(":");
    k.append(key);
    k
}

/// Whether `s` starts with `p`.
pub open spec fn starts_with(s: Seq<char>, p: Seq<char>) -> bool {
    p.len() <= s.len() && s.subrange(0, p.len() as int) == p
}

/// Whether the full key `k` belongs to the cache named `cache_name`.
pub fn belongs_to(k: &str, cache_name: &str) -> (b: bool)
    ensures
        b == starts_with(k@, cache_name@ + ":"@),
{
    let mut prefix = String::from_str(cache_name);
    prefix.append(":");
    let n = k.unicode_len();
    let m = prefix.unicode_len();
    if m > n {
        return false;
    }
    let mut i: usize = 0;
    while i < m
        invariant
            i <= m,
            m <= n,
            n == k@.len(),
            m == prefix@.len(),
            prefix@ == cache_name@ + ":"@,
            forall|j: int| 0 <= j < i ==> #[trigger] k@[j] == prefix@[j],
        decreases m - i,
    {
        if k.get_char(i) != prefix.as_str().get_char(i) {
            proof {
                assert(k@.subrange(0, m as int)[i as int] != prefix@[i as int]);
            }
            return false;
        }
        i = i + 1;
    }
    proof {
        assert(k@.subrange(0, m as int) =~= prefix@);
    }
    true
}

/// Counts of a cache; the hit rate is the share of hits in all lookups.
#[derive(Debug, Clone, Copy, PartialEq, Eq, Structural)]
pub struct CacheStats {
    pub hits: u64,
    pub misses: u64,
    pub evictions: u64,
    pub size: u64,
    pub hit_rate: u64,
}

/// Hits in all lookups, in whole percent.
pub open spec fn hit_share(hits: nat, misses: nat) -> nat {
    if hits + misses == 0 {
        0
    } else {
        hits * 100 / (hits + misses)
    }
}

fn hit_share_of(hits: u64, misses: u64) -> (r: u64)
    ensures
        r == hit_share(hits as nat, misses as nat),
{
    let all: u128 = hits as u128 + misses as u128;
    if all == 0 {
        return 0;
    }
    proof {
        assert((hits as int) * 100 / (all as int) <= 100) by (nonlinear_arith)
            requires
                hits <= all,
                all > 0,
        ;
    }
    ((hits as u128 * 100) / all) as u64
}

/// The counts of a cache after one more lookup, a hit or a miss, from
/// `s` (or from nothing).
pub open spec fn after_lookup(s: Option<CacheStats>, hit: bool) -> CacheStats {
    let base = match s {
        Some(c) => c,
        None => CacheStats { hits: 0, misses: 0, evictions: 0, size: 0, hit_rate: 0 },
    };
    let hits = if hit {
        base.hits + 1
    } else {
        base.hits as int
    };
    let misses = if hit {
        base.misses as int
    } else {
        base.misses + 1
    };
    CacheStats {
        hits: hits as u64,
        misses: misses as u64,
        hit_rate: hit_share(hits as nat, misses as nat) as u64,
        ..base
    }
}

/// The counts of each named cache.
pub struct CacheStatsBook {
    stats: KeyedTable<CacheStats>,
}

impl CacheStatsBook {
    /// The counts by cache name.
    pub closed spec fn entries(&self) -> Seq<(String, CacheStats)> {
        self.stats.entries()
    }

    /// One entry per cache.
    pub closed spec fn well_formed(&self) -> bool {
        self.stats.well_formed()
    }

    /// The counts of cache `name`, if it was looked up.
    pub open spec fn of(&self, name: Seq<char>) -> Option<CacheStats> {
        if has_key(self.entries(), name) {
            Some(value_of(self.entries(), name))
        } else {
            None
        }
    }

    /// No counts yet.
    pub fn new() -> (b: Self)
        ensures
            b.well_formed(),
            b.entries().len() == 0,
    {
        CacheStatsBook { stats: KeyedTable::new() }
    }

    /// Counts a lookup of cache `cache_name` that hit or missed, and the
    /// hit rate after it.
    pub fn record_lookup(&mut self, cache_name: &str, hit: bool)
        requires
            old(self).well_formed(),
            old(self).of(cache_name@) matches Some(c) ==> c.hits < u64::MAX && c.misses < u64::MAX,
        ensures
            final(self).well_formed(),
            final(self).of(cache_name@) == Some(after_lookup(old(self).of(cache_name@), hit)),
            forall|q: Seq<char>| q != cache_name@ ==> #[trigger] final(self).of(q) == old(self).of(q),
    {
        let key = String::from_str(cache_name);
        let base = match self.stats.get(&key) {
            Some(c) => *c,
            None => CacheStats { hits: 0, misses: 0, evictions: 0, size: 0, hit_rate: 0 },
        };
        let hits = if hit {
            base.hits + 1
        } else {
            base.hits
        };
        let misses = if hit {
            base.misses
        } else {
            base.misses + 1
        };
        let updated = CacheStats { hits, misses, hit_rate: hit_share_of(hits, misses), ..base };
        proof {
            lemma_upserted_unique(self.stats.entries(), key, updated);
        }
        self.stats.insert(key, updated);
    }

    /// Counts a hit of cache `cache_name`.
    pub fn record_hit(&mut self, cache_name: &str)
        requires
            old(self).well_formed(),
            old(self).of(cache_name@) matches Some(c) ==> c.hits < u64::MAX && c.misses < u64::MAX,
        ensures
            final(self).well_formed(),
            final(self).of(cache_name@) == Some(after_lookup(old(self).of(cache_name@), true)),
    {
        self.record_lookup(cache_name, true);
    }

    /// Counts a miss of cache `cache_name`.
    pub fn record_miss(&mut self, cache_name: &str)
        requires
            old(self).well_formed(),
            old(self).of(cache_name@) matches Some(c) ==> c.hits < u64::MAX && c.misses < u64::MAX,
        ensures
            final(self).well_formed(),
            final(self).of(cache_name@) == Some(after_lookup(old(self).of(cache_name@), false)),
    {
        self.record_lookup(cache_name, false);
    }

    /// The counts of cache `cache_name`, if it was looked up.
    pub fn get_stats(&self, cache_name: &str) -> (r: Option<CacheStats>)
        requires
            self.well_formed(),
        ensures
            r == self.of(cache_name@),
    {
        let key = String::from_str(cache_name);
        match self.stats.get(&key) {
            Some(c) => Some(*c),
            None => None,
        }
    }

    /// The counts of every cache looked up, in the order caches were first
    /// looked up.
    pub fn get_all_stats(&self) -> (r: Vec<(String, CacheStats)>)
        ensures
            r@ == self.entries(),
    {
        let mut r: Vec<(String, CacheStats)> = Vec::new();
        let mut i: usize = 0;
        while i < self.stats.len()
            invariant
                i <= self.entries().len(),
                r@ == self.entries().take(i as int),
            decreases self.entries().len() - i,
        {
            let e = self.stats.entry_at(i);
            r.push((e.0.clone(), e.1));
            proof {
                assert(r@ =~= self.entries().take(i as int + 1));
            }
            i = i + 1;
        }
        proof {
            assert(self.entries().take(self.entries().len() as int) =~= self.entries());
        }
        r
    }
}

} // verus!
