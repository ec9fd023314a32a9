//! Coordination of concurrent work: expiring resource locks, token-bucket
//! rate limits, a counter, and wait-for cycle detection.  Times are
//! milliseconds since the epoch.

use crate::errors::AppError;
use crate::ids::{has_id, id_upserted, value_at_id, without_id, IdTable};
use crate::keyed::KeyedTable;
use dashmap::DashMap;
use vstd::prelude::*;

verus! {

/// How a lock is held.
#[derive(Debug, Clone, Copy, PartialEq, Eq, Structural)]
pub enum LockType {
    Exclusive,
    Shared,
}

/// A held lock.
pub struct LockInfo {
    pub holder_id: u128,
    pub acquired_at: u64,
    pub expires_at: u64,
    pub lock_type: LockType,
    pub metadata: KeyedTable<String>,
}

/// Whether two locks agree in every field, metadata included.
pub open spec fn same_lock(a: LockInfo, b: LockInfo) -> bool {
    &&& a.holder_id == b.holder_id
    &&& a.acquired_at == b.acquired_at
    &&& a.expires_at == b.expires_at
    &&& a.lock_type == b.lock_type
    &&& a.metadata.entries() == b.metadata.entries()
}

impl LockInfo {
    /// An equal copy.
    pub fn duplicate(&self) -> (d: Self)
        ensures
            same_lock(d, *self),
    {
        LockInfo {
            holder_id: self.holder_id,
            acquired_at: self.acquired_at,
            expires_at: self.expires_at,
            lock_type: self.lock_type,
            metadata: self.metadata.duplicate(),
        }
    }
}

/// How long a lock lasts: five minutes.
pub const LOCK_LIFETIME_MS: u64 = 300000;

/// Proof that a lock was taken, naming the resource and the holder.
#[derive(Debug, Clone)]
pub struct LockGuard {
    pub resource_id: String,
    pub holder_id: u128,
}

/// Whether a lock is still in force at `now`.
pub open spec fn in_force(l: LockInfo, now: u64) -> bool {
    l.expires_at > now
}

/// The locks of `locks` still in force at `now`.
pub open spec fn live_at(locks: Map<Seq<char>, LockInfo>, now: u64) -> Map<Seq<char>, LockInfo> {
    Map::new(|k: Seq<char>| locks.contains_key(k) && in_force(locks[k], now), |k: Seq<char>| locks[k])
}

/// Whether `v` lists each lock of `locks` in force at `now` once, as its
/// resource and a copy of the lock.
pub open spec fn lists_active(v: Seq<(String, LockInfo)>, locks: Map<Seq<char>, LockInfo>, now: u64) -> bool {
    &&& forall|i: int, j: int| 0 <= i < j < v.len() ==> v[i].0@ != v[j].0@
    &&& forall|i: int| 0 <= i < v.len() ==> locks.contains_key(#[trigger] v[i].0@) && in_force(locks[v[i].0@], now)
        && same_lock(v[i].1, locks[v[i].0@])
    &&& forall|k: Seq<char>| #[trigger] locks.contains_key(k) && in_force(locks[k], now) ==> exists|i: int|
        0 <= i < v.len() && v[i].0@ == k
}

/// Locks by resource, in a concurrent map.
pub type LockMap = DashMap<String, LockInfo>;

/// What a map of locks holds, by resource.
pub uninterp spec fn lock_entries(m: LockMap) -> Map<Seq<char>, LockInfo>;

/// No locks.
pub open spec fn no_locks() -> Map<Seq<char>, LockInfo> {
    Map::empty()
}

/// Whether `v` lists each lock of `locks` once, as its resource and a copy
/// of the lock.
pub open spec fn lists_locks(v: Seq<(String, LockInfo)>, locks: Map<Seq<char>, LockInfo>) -> bool {
    &&& v.len() == locks.len()
    &&& forall|i: int, j: int| 0 <= i < j < v.len() ==> v[i].0@ != v[j].0@
    &&& forall|i: int| 0 <= i < v.len() ==> locks.contains_key(#[trigger] v[i].0@) && same_lock(
        v[i].1,
        locks[v[i].0@],
    )
    &&& forall|k: Seq<char>| #[trigger] locks.contains_key(k) ==> exists|i: int| 0 <= i < v.len() && v[i].0@ == k
}

/// An empty map, from `DashMap::new`.
#[verifier::external_body]
fn locks_new() -> (m: LockMap)
    ensures
        lock_entries(m) == no_locks(),
{
    DashMap::new()
}

/// `DashMap::get`: when the lock on `resource` expires, if there is one.
#[verifier::external_body]
fn locks_expiry(m: &LockMap, resource: &String) -> (r: Option<u64>)
    ensures
        r is Some == lock_entries(*m).contains_key(resource@),
        r matches Some(t) ==> t == lock_entries(*m)[resource@].expires_at,
{
    match m.get(resource) {
        Some(l) => Some(l.expires_at),
        None => None,
    }
}

/// `DashMap::insert`: stores `lock` under `resource`, in place of one
/// already there.
#[verifier::external_body]
fn locks_insert(m: &mut LockMap, resource: String, lock: LockInfo)
    ensures
        lock_entries(*final(m)) == lock_entries(*old(m)).insert(resource@, lock),
{
    m.insert(resource, lock);
}

/// `DashMap::remove`: takes out the lock on `resource`, if any.
#[verifier::external_body]
fn locks_remove(m: &mut LockMap, resource: &String) -> (r: Option<LockInfo>)
    ensures
        lock_entries(*final(m)) == lock_entries(*old(m)).remove(resource@),
        r is Some == lock_entries(*old(m)).contains_key(resource@),
        r matches Some(l) ==> l == lock_entries(*old(m))[resource@],
{
    match m.remove(resource) {
        Some((_, l)) => Some(l),
        None => None,
    }
}

/// `DashMap::iter`: each lock once, as its resource and a copy of the lock.
#[verifier::external_body]
fn locks_listed(m: &LockMap) -> (v: Vec<(String, LockInfo)>)
    ensures
        lists_locks(v@, lock_entries(*m)),
{
    m.iter().map(|e| (e.key().clone(), e.value().duplicate())).collect()
}

/// Locks on named resources.
pub struct DistributedLockManager {
    locks: LockMap,
}

impl DistributedLockManager {
    /// The locks by resource.
    pub closed spec fn locks(&self) -> Map<Seq<char>, LockInfo> {
        lock_entries(self.locks)
    }

    /// Finitely many locks.
    pub closed spec fn well_formed(&self) -> bool {
        self.locks().dom().finite()
    }

    /// No lock.
    pub fn new() -> (m: Self)
        ensures
            m.well_formed(),
            m.locks() == no_locks(),
    {
        DistributedLockManager { locks: locks_new() }
    }

    /// Takes an exclusive lock on `resource_id` for `holder_id` at `now`
    /// without waiting: nothing while another lock on it is in force;
    /// otherwise the lock, for five minutes, replacing an expired one.
    pub fn try_acquire_exclusive_at(
        &mut self,
        resource_id: &str,
        holder_id: u128,
        metadata: KeyedTable<String>,
        now: u64,
    ) -> (r: Option<LockGuard>)
        requires
            old(self).well_formed(),
            now + LOCK_LIFETIME_MS <= u64::MAX,
        ensures
            final(self).well_formed(),
            old(self).locks().contains_key(resource_id@) && in_force(old(self).locks()[resource_id@], now) ==> r is None
                && final(self).locks() == old(self).locks(),
            !(old(self).locks().contains_key(resource_id@) && in_force(old(self).locks()[resource_id@], now)) ==> {
                &&& r matches Some(g) && g.resource_id@ == resource_id@ && g.holder_id == holder_id
                &&& final(self).locks() == old(self).locks().insert(resource_id@, final(self).locks()[resource_id@])
                &&& final(self).locks()[resource_id@].holder_id == holder_id
                &&& final(self).locks()[resource_id@].acquired_at == now
                &&& final(self).locks()[resource_id@].expires_at == now + LOCK_LIFETIME_MS
                &&& final(self).locks()[resource_id@].lock_type == LockType::Exclusive
                &&& final(self).locks()[resource_id@].metadata == metadata
            },
    {
        let key = String::from_str(resource_id);
        let held = match locks_expiry(&self.locks, &key) {
            Some(t) => t > now,
            None => false,
        };
        if held {
            return None;
        }
        let info = LockInfo {
            holder_id,
            acquired_at: now,
            expires_at: now + LOCK_LIFETIME_MS,
            lock_type: LockType::Exclusive,
            metadata,
        };
        let k2 = key.clone();
        locks_insert(&mut self.locks, k2, info);
        Some(LockGuard { resource_id: key, holder_id })
    }

    /// One step of waiting for an exclusive lock at `now` until `deadline`:
    /// the lock when it can be had; otherwise `TimeoutError` once the
    /// deadline has come, else nothing (wait and try again).
    pub fn acquire_exclusive_step_at(
        &mut self,
        resource_id: &str,
        holder_id: u128,
        metadata: KeyedTable<String>,
        now: u64,
        deadline: u64,
    ) -> (r: Result<Option<LockGuard>, AppError>)
        requires
            old(self).well_formed(),
            now + LOCK_LIFETIME_MS <= u64::MAX,
        ensures
            final(self).well_formed(),
            !(old(self).locks().contains_key(resource_id@) && in_force(old(self).locks()[resource_id@], now)) ==> {
                &&& r matches Ok(Some(g)) && g.resource_id@ == resource_id@ && g.holder_id == holder_id
                &&& final(self).locks() == old(self).locks().insert(resource_id@, final(self).locks()[resource_id@])
                &&& final(self).locks()[resource_id@].holder_id == holder_id
                &&& final(self).locks()[resource_id@].acquired_at == now
                &&& final(self).locks()[resource_id@].expires_at == now + LOCK_LIFETIME_MS
                &&& final(self).locks()[resource_id@].lock_type == LockType::Exclusive
                &&& final(self).locks()[resource_id@].metadata == metadata
            },
            old(self).locks().contains_key(resource_id@) && in_force(old(self).locks()[resource_id@], now) ==> {
                &&& final(self).locks() == old(self).locks()
                &&& now >= deadline ==> (r matches Err(AppError::TimeoutError(_)))
                &&& now < deadline ==> r == Ok::<Option<LockGuard>, AppError>(None)
            },
    {
        match self.try_acquire_exclusive_at(resource_id, holder_id, metadata, now) {
            Some(g) => Ok(Some(g)),
            None => {
                if now >= deadline {
                    let mut m = String::from_str("Failed to acquire exclusive lock for resource '");
                    m.append(resource_id);
                    m.append("' within the timeout");
                    Err(AppError::TimeoutError(m))
                } else {
                    Ok(None)
                }
            },
        }
    }

    /// Releases the lock on `resource_id` held by `holder_id`.  No lock is
    /// refused with `NotFound`; a lock of another holder is put back and the
    /// release is refused with `AuthorizationError`.
    pub fn release_lock(&mut self, resource_id: &str, holder_id: u128) -> (r: Result<(), AppError>)
        requires
            old(self).well_formed(),
        ensures
            final(self).well_formed(),
            !old(self).locks().contains_key(resource_id@) ==> (r matches Err(AppError::NotFound(_))) && final(self).locks()
                == old(self).locks(),
            old(self).locks().contains_key(resource_id@) && old(self).locks()[resource_id@].holder_id != holder_id
                ==> (r matches Err(AppError::AuthorizationError(_))) && final(self).locks() == old(self).locks(),
            old(self).locks().contains_key(resource_id@) && old(self).locks()[resource_id@].holder_id == holder_id
                ==> r is Ok && final(self).locks() == old(self).locks().remove(resource_id@),
    {
        let key = String::from_str(resource_id);
        match locks_remove(&mut self.locks, &key) {
            None => {
                proof {
                    assert(self.locks() =~= old(self).locks());
                }
                let mut m = String::from_str("Lock not found for resource '");
                m.append(resource_id);
                m.append("'");
                Err(AppError::NotFound(m))
            },
            Some(l) => {
                if l.holder_id == holder_id {
                    Ok(())
                } else {
                    locks_insert(&mut self.locks, key, l);
                    proof {
                        assert(self.locks() =~= old(self).locks());
                    }
                    let mut m = String::from_str("Cannot release lock for resource '");
                    m.append(resource_id);
                    m.append("': holder mismatch");
                    Err(AppError::AuthorizationError(m))
                }
            },
        }
    }

    /// Releases the lock a guard stands for.
    pub fn release_guard(&mut self, guard: LockGuard) -> (r: Result<(), AppError>)
        requires
            old(self).well_formed(),
        ensures
            final(self).well_formed(),
            !old(self).locks().contains_key(guard.resource_id@) ==> (r matches Err(AppError::NotFound(_)))
                && final(self).locks() == old(self).locks(),
            old(self).locks().contains_key(guard.resource_id@) && old(self).locks()[guard.resource_id@].holder_id
                != guard.holder_id ==> (r matches Err(AppError::AuthorizationError(_))) && final(self).locks()
                == old(self).locks(),
            old(self).locks().contains_key(guard.resource_id@) && old(self).locks()[guard.resource_id@].holder_id
                == guard.holder_id ==> r is Ok && final(self).locks() == old(self).locks().remove(guard.resource_id@),
    {
        self.release_lock(guard.resource_id.as_str(), guard.holder_id)
    }

    /// The locks in force now, each once, as resource and lock, in no
    /// particular order.
    pub fn get_active_locks(&self) -> (v: Vec<(String, LockInfo)>)
        requires
            self.well_formed(),
        ensures
            exists|now: u64| #[trigger] lists_active(v@, self.locks(), now),
    {
        let now = crate::platform::now_millis();
        let v = self.get_active_locks_at(now);
        proof {
            assert(lists_active(v@, self.locks(), now));
        }
        v
    }

    /// The locks in force at `now`, each once, as resource and lock, in no
    /// particular order; expired locks are left out.
    pub fn get_active_locks_at(&self, now: u64) -> (v: Vec<(String, LockInfo)>)
        requires
            self.well_formed(),
        ensures
            lists_active(v@, self.locks(), now),
    {
        let listed = locks_listed(&self.locks);
        let ghost locks = self.locks();
        let mut out: Vec<(String, LockInfo)> = Vec::new();
        let ghost mut from: Seq<int> = Seq::empty();
        let n = listed.len();
        let mut i: usize = 0;
        while i < n
            invariant
                n == listed@.len(),
                lists_locks(listed@, locks),
                i <= n,
                from.len() == out@.len(),
                forall|j: int| 0 <= j < out@.len() ==> 0 <= #[trigger] from[j] < i && out@[j].0@ == listed@[from[j]].0@
                    && same_lock(out@[j].1, listed@[from[j]].1) && listed@[from[j]].1.expires_at > now,
                forall|a: int, b: int| 0 <= a < b < out@.len() ==> from[a] < from[b],
                forall|j: int| 0 <= j < i && #[trigger] listed@[j].1.expires_at > now ==> exists|p: int| 0 <= p
                    < out@.len() && from[p] == j,
            decreases n - i,
        {
            let e = &listed[i];
            let ghost from0 = from;
            let ghost len0 = out@.len();
            if e.1.expires_at > now {
                proof {
                    assert(locks.contains_key(listed@[i as int].0@));
                }
                out.push((e.0.clone(), e.1.duplicate()));
                proof {
                    from = from.push(i as int);
                    assert(from[out@.len() - 1] == i as int);
                }
            }
            proof {
                assert forall|j: int| 0 <= j < i + 1 && #[trigger] listed@[j].1.expires_at > now implies exists|p: int|
                    0 <= p < out@.len() && from[p] == j by {
                    if j < i {
                        let p = choose|p: int| 0 <= p < len0 && from0[p] == j;
                        assert(from[p] == j);
                    } else {
                        assert(from[out@.len() - 1] == j);
                    }
                }
            }
            i = i + 1;
        }
        proof {
            assert forall|a: int, b: int| 0 <= a < b < out@.len() implies out@[a].0@ != out@[b].0@ by {
                assert(from[a] < from[b]);
            }
            assert forall|j: int| 0 <= j < out@.len() implies locks.contains_key(#[trigger] out@[j].0@) && in_force(
                locks[out@[j].0@],
                now,
            ) && same_lock(out@[j].1, locks[out@[j].0@]) by {
                assert(locks.contains_key(listed@[from[j]].0@));
            }
            assert forall|k: Seq<char>| #[trigger] locks.contains_key(k) && in_force(locks[k], now) implies exists|p: int|
                0 <= p < out@.len() && out@[p].0@ == k by {
                let j = choose|j: int| 0 <= j < listed@.len() && listed@[j].0@ == k;
                assert(listed@[j].1.expires_at > now);
                let p = choose|p: int| 0 <= p < out@.len() && from[p] == j;
                assert(out@[p].0@ == k);
            }
        }
        out
    }

    /// Drops the locks no longer in force now, and returns how many went.
    pub fn cleanup_expired_locks(&mut self) -> (n: usize)
        requires
            old(self).well_formed(),
        ensures
            final(self).well_formed(),
            exists|now: u64| final(self).locks() == #[trigger] live_at(old(self).locks(), now),
            n == old(self).locks().len() - final(self).locks().len(),
    {
        let now = crate::platform::now_millis();
        let n = self.cleanup_expired_locks_at(now);
        proof {
            assert(self.locks() == live_at(old(self).locks(), now));
        }
        n
    }

    /// Drops the locks expired at `now`.  Returns how many were dropped.
    pub fn cleanup_expired_locks_at(&mut self, now: u64) -> (n: usize)
        requires
            old(self).well_formed(),
        ensures
            final(self).well_formed(),
            final(self).locks() == live_at(old(self).locks(), now),
            n == old(self).locks().len() - final(self).locks().len(),
    {
        let listed = locks_listed(&self.locks);
        let ghost all = self.locks();
        let ghost mut seen: Set<Seq<char>> = Set::empty();
        let n = listed.len();
        let mut i: usize = 0;
        let mut dropped: usize = 0;
        while i < n
            invariant
                n == listed@.len(),
                lists_locks(listed@, all),
                all.dom().finite(),
                i <= n,
                self.well_formed(),
                forall|j: int| 0 <= j < i ==> seen.contains(#[trigger] listed@[j].0@),
                forall|k: Seq<char>| #[trigger] seen.contains(k) ==> exists|j: int| 0 <= j < i && listed@[j].0@ == k,
                forall|k: Seq<char>| #[trigger] self.locks().contains_key(k) == (all.contains_key(k) && (in_force(all[k], now)
                    || !seen.contains(k))),
                forall|k: Seq<char>| #[trigger] self.locks().contains_key(k) ==> self.locks()[k] == all[k],
                dropped + self.locks().len() == all.len(),
            decreases n - i,
        {
            let e = &listed[i];
            let ghost k = listed@[i as int].0@;
            proof {
                assert(all.contains_key(k));
                assert(!seen.contains(k)) by {
                    if seen.contains(k) {
                        let j = choose|j: int| 0 <= j < i && listed@[j].0@ == k;
                        assert(listed@[j].0@ != listed@[i as int].0@);
                    }
                }
            }
            if e.1.expires_at <= now {
                let ghost before = self.locks();
                let _ = locks_remove(&mut self.locks, &e.0);
                proof {
                    assert(before.contains_key(k));
                    assert(self.locks().dom() =~= before.dom().remove(k));
                }
                dropped = dropped + 1;
            }
            proof {
                seen = seen.insert(k);
            }
            i = i + 1;
        }
        proof {
            assert(self.locks() =~= live_at(all, now)) by {
                assert forall|k: Seq<char>| all.contains_key(k) implies seen.contains(k) by {
                    let j = choose|j: int| 0 <= j < listed@.len() && listed@[j].0@ == k;
                    assert(seen.contains(listed@[j].0@));
                }
            }
        }
        dropped
    }
}

/// Filtering a list that ends with `x`.
pub proof fn lemma_filter_snoc<A>(s: Seq<A>, x: A, f: spec_fn(A) -> bool)
    ensures
        s.push(x).filter(f) == if f(x) { s.filter(f).push(x) } else { s.filter(f) },
{
    reveal(Seq::filter);
    assert(s.push(x).drop_last() =~= s);
}

/// A token bucket: it holds up to its capacity, refills at its rate per
/// second, and counts the requests it let through in the current minute.
#[derive(Debug, Clone, Copy, PartialEq, Eq, Structural)]
pub struct TokenBucket {
    capacity: u32,
    tokens: u32,
    refill_rate: u32,
    last_refill: u64,
    window_start: u64,
    requests_in_window: u32,
}

/// Length of the counting window: one minute.
pub const RATE_WINDOW_MS: u64 = 60000;

/// Whole tokens earned at `rate` per second over `elapsed` milliseconds,
/// held at the largest `u32`.
pub open spec fn earned(elapsed: nat, rate: nat) -> nat {
    if elapsed * rate / 1000 <= u32::MAX {
        elapsed * rate / 1000
    } else {
        u32::MAX as nat
    }
}

/// Time passed from `from` to `to`; none when the clock went back.
pub open spec fn elapsed_between(from: u64, to: u64) -> nat {
    if to >= from {
        (to - from) as nat
    } else {
        0
    }
}

/// Whether `after` is bucket `before` once refilled at `now` and, when
/// `taken`, drawn of `tokens` with the request counted: `taken` tells
/// whether the refilled bucket held as many.
pub open spec fn consumed(before: TokenBucket, after: TokenBucket, tokens: u32, now: u64, taken: bool) -> bool {
    let add = earned(elapsed_between(before.refilled_at(), now), before.rate() as nat);
    let held: nat = if add > 0 {
        crate::resilience::at_most((before.spec_tokens() + add) as nat, before.spec_capacity() as nat)
    } else {
        before.spec_tokens() as nat
    };
    let renewed = elapsed_between(before.window(), now) >= RATE_WINDOW_MS;
    let counted: nat = if renewed {
        0
    } else {
        before.requests() as nat
    };
    &&& after.spec_capacity() == before.spec_capacity()
    &&& after.rate() == before.rate()
    &&& after.refilled_at() == (if add > 0 { now } else { before.refilled_at() })
    &&& after.window() == (if renewed { now } else { before.window() })
    &&& taken == (held >= tokens)
    &&& taken ==> after.spec_tokens() == held - tokens && after.requests() == counted + 1
    &&& !taken ==> after.spec_tokens() == held && after.requests() == counted
}

/// Whether `after` is a full bucket of `capacity` and `rate` made at `now`
/// and then, when `taken`, drawn of `tokens` with the request counted:
/// `taken` tells whether `tokens` is at most `capacity`.
pub open spec fn fresh_consumed(capacity: u32, rate: u32, after: TokenBucket, tokens: u32, now: u64, taken: bool) -> bool {
    &&& after.spec_capacity() == capacity
    &&& after.rate() == rate
    &&& after.refilled_at() == now
    &&& after.window() == now
    &&& taken == (tokens <= capacity)
    &&& taken ==> after.spec_tokens() == capacity - tokens && after.requests() == 1
    &&& !taken ==> after.spec_tokens() == capacity && after.requests() == 0
}

/// Whether `after`, stored under `key`, is what a request for `tokens` at
/// `now` leaves of the bucket under `key` in `before`, or of a fresh bucket
/// of `capacity` and `rate` where there was none; `allowed` tells whether
/// the request went through.
pub open spec fn allowed_at(
    before: Map<Seq<char>, TokenBucket>,
    key: Seq<char>,
    capacity: u32,
    rate: u32,
    after: TokenBucket,
    tokens: u32,
    now: u64,
    allowed: bool,
) -> bool {
    if before.contains_key(key) {
        consumed(before[key], after, tokens, now, allowed)
    } else {
        fresh_consumed(capacity, rate, after, tokens, now, allowed)
    }
}

impl TokenBucket {
    /// Tokens the bucket holds at most.
    pub closed spec fn spec_capacity(&self) -> u32 {
        self.capacity
    }

    /// Tokens held.
    pub closed spec fn spec_tokens(&self) -> u32 {
        self.tokens
    }

    /// Tokens earned per second.
    pub closed spec fn rate(&self) -> u32 {
        self.refill_rate
    }

    /// When tokens were last added.
    pub closed spec fn refilled_at(&self) -> u64 {
        self.last_refill
    }

    /// When the current counting window began.
    pub closed spec fn window(&self) -> u64 {
        self.window_start
    }

    /// Requests let through in the current window.
    pub closed spec fn requests(&self) -> u32 {
        self.requests_in_window
    }

    /// A full bucket at `now`.
    pub fn new_at(capacity: u32, refill_rate: u32, now: u64) -> (b: Self)
        ensures
            b.spec_capacity() == capacity,
            b.spec_tokens() == capacity,
            b.rate() == refill_rate,
            b.refilled_at() == now,
            b.window() == now,
            b.requests() == 0,
    {
        TokenBucket {
            capacity,
            tokens: capacity,
            refill_rate,
            last_refill: now,
            window_start: now,
            requests_in_window: 0,
        }
    }

    /// A full bucket now.
    pub fn new(capacity: u32, refill_rate: u32) -> (b: Self)
        ensures
            b.spec_capacity() == capacity,
            b.spec_tokens() == capacity,
            b.rate() == refill_rate,
            b.requests() == 0,
            b.refilled_at() == b.window(),
    {
        Self::new_at(capacity, refill_rate, crate::platform::now_millis())
    }

    /// Adds the tokens earned since the last refill at `now` (whole tokens
    /// only; the bucket keeps at most its capacity and the time of the last
    /// refill moves only when a token was earned), and starts a new counting
    /// window once a minute has passed.
    pub fn refill_at(&mut self, now: u64)
        ensures
            ({
                let add = earned(elapsed_between(old(self).refilled_at(), now), old(self).rate() as nat);
                &&& add > 0 ==> final(self).spec_tokens() == crate::resilience::at_most(
                    (old(self).spec_tokens() + add) as nat,
                    old(self).spec_capacity() as nat,
                ) && final(self).refilled_at() == now
                &&& add == 0 ==> final(self).spec_tokens() == old(self).spec_tokens() && final(self).refilled_at()
                    == old(self).refilled_at()
            }),
            elapsed_between(old(self).window(), now) >= RATE_WINDOW_MS ==> final(self).window() == now
                && final(self).requests() == 0,
            elapsed_between(old(self).window(), now) < RATE_WINDOW_MS ==> final(self).window() == old(self).window()
                && final(self).requests() == old(self).requests(),
            final(self).spec_capacity() == old(self).spec_capacity(),
            final(self).rate() == old(self).rate(),
    {
        let elapsed: u64 = if now >= self.last_refill {
            now - self.last_refill
        } else {
            0
        };
        let e128: u128 = elapsed as u128;
        let r128: u128 = self.refill_rate as u128;
        proof {
            assert(e128 * r128 <= 0xffff_ffff_ffff_ffffu128 * 0xffff_ffffu128) by (nonlinear_arith)
                requires
                    e128 <= 0xffff_ffff_ffff_ffffu128,
                    r128 <= 0xffff_ffffu128,
            ;
        }
        let raw: u128 = e128 * r128 / 1000;
        proof {
            assert(elapsed as u128 * self.refill_rate as u128 <= 0xffff_ffff_ffff_ffffu128 * 0xffff_ffffu128) by (
            nonlinear_arith)
                requires
                    elapsed <= 0xffff_ffff_ffff_ffffu64,
                    self.refill_rate <= 0xffff_ffffu32,
            ;
        }
        let add: u64 = if raw > u32::MAX as u128 {
            u32::MAX as u64
        } else {
            raw as u64
        };
        if add > 0 {
            let sum: u64 = self.tokens as u64 + add;
            self.tokens = if sum < self.capacity as u64 {
                sum as u32
            } else {
                self.capacity
            };
            self.last_refill = now;
        }
        let since: u64 = if now >= self.window_start {
            now - self.window_start
        } else {
            0
        };
        if since >= RATE_WINDOW_MS {
            self.window_start = now;
            self.requests_in_window = 0;
        }
    }

    /// Refills at `now`, then takes `tokens` if the bucket holds as many,
    /// counting the request.  Returns whether they were taken.
    pub fn try_consume_at(&mut self, tokens: u32, now: u64) -> (taken: bool)
        requires
            old(self).requests() < u32::MAX,
        ensures
            consumed(*old(self), *final(self), tokens, now, taken),
    {
        self.refill_at(now);
        if self.tokens >= tokens {
            self.tokens = self.tokens - tokens;
            self.requests_in_window = self.requests_in_window + 1;
            true
        } else {
            false
        }
    }

    /// Takes `tokens` now if the bucket holds as many after refilling.
    pub fn try_consume(&mut self, tokens: u32) -> (taken: bool)
        requires
            old(self).requests() < u32::MAX,
        ensures
            exists|now: u64| #[trigger] consumed(*old(self), *final(self), tokens, now, taken),
    {
        let now = crate::platform::now_millis();
        let taken = self.try_consume_at(tokens, now);
        proof {
            assert(consumed(*old(self), *self, tokens, now, taken));
        }
        taken
    }

    /// Requests let through in the current minute.
    pub fn get_requests_per_minute(&self) -> (n: u32)
        ensures
            n == self.requests(),
    {
        self.requests_in_window
    }

    /// The figures of the bucket.
    pub fn stats(&self) -> (s: RateLimitStats)
        ensures
            s == (RateLimitStats {
                capacity: self.spec_capacity(),
                available_tokens: self.spec_tokens(),
                refill_rate: self.rate(),
                requests_per_minute: self.requests(),
            }),
    {
        RateLimitStats {
            capacity: self.capacity,
            available_tokens: self.tokens,
            refill_rate: self.refill_rate,
            requests_per_minute: self.requests_in_window,
        }
    }
}

/// Refilling only adds tokens: a bucket within its capacity that already
/// holds the tokens asked for lets the request through, whatever the time.
pub proof fn lemma_enough_tokens_taken(before: TokenBucket, after: TokenBucket, tokens: u32, now: u64, taken: bool)
    requires
        consumed(before, after, tokens, now, taken),
        before.spec_tokens() <= before.spec_capacity(),
        before.spec_tokens() >= tokens,
    ensures
        taken,
{
}

/// Waiting earns whole tokens at the bucket's rate: `earned` is the number
/// of whole tokens that `elapsed` milliseconds at `rate` tokens per second
/// make, held at the largest `u32`.
pub proof fn lemma_earned_is_whole_tokens(elapsed: nat, rate: nat)
    ensures
        earned(elapsed, rate) <= u32::MAX,
        earned(elapsed, rate) * 1000 <= elapsed * rate,
        earned(elapsed, rate) == u32::MAX || elapsed * rate < (earned(elapsed, rate) + 1) * 1000,
{
    let x = elapsed * rate;
    vstd::arithmetic::div_mod::lemma_fundamental_div_mod(x as int, 1000);
    vstd::arithmetic::div_mod::lemma_mod_bound(x as int, 1000);
}

/// A bucket that has waited long enough to earn `tokens` at its rate since
/// its last refill lets a request for them through, when it can hold that
/// many, however empty it was.
pub proof fn lemma_waiting_earns_tokens(before: TokenBucket, after: TokenBucket, tokens: u32, now: u64, taken: bool)
    requires
        consumed(before, after, tokens, now, taken),
        before.refilled_at() <= now,
        tokens <= before.spec_capacity(),
        (now - before.refilled_at()) * before.rate() >= tokens * 1000,
    ensures
        taken,
{
    let e = elapsed_between(before.refilled_at(), now);
    let r = before.rate() as nat;
    vstd::arithmetic::div_mod::lemma_div_is_ordered((tokens * 1000) as int, (e * r) as int, 1000);
    vstd::arithmetic::div_mod::lemma_div_multiples_vanish(tokens as int, 1000);
    assert(earned(e, r) >= tokens);
}

/// A bucket never hands out more than it held and earned: what it holds
/// after a request, together with what the request took, is at most what
/// it held before plus the tokens its rate makes over the time since its
/// last refill.
pub proof fn lemma_no_more_than_earned(before: TokenBucket, after: TokenBucket, tokens: u32, now: u64, taken: bool)
    requires
        consumed(before, after, tokens, now, taken),
    ensures
        (after.spec_tokens() + (if taken { tokens as nat } else { 0nat })) * 1000 <= before.spec_tokens() * 1000
            + elapsed_between(before.refilled_at(), now) * before.rate(),
{
    lemma_earned_is_whole_tokens(elapsed_between(before.refilled_at(), now), before.rate() as nat);
}

/// Refilling twice earns no more than refilling once over the whole time:
/// the time of the last refill moves on with every token earned, so no
/// stretch of time is counted twice.
pub proof fn lemma_refills_do_not_double_count(b0: TokenBucket, b1: TokenBucket, b2: TokenBucket, t1: u64, t2: u64, k1: bool, k2: bool)
    requires
        consumed(b0, b1, 0, t1, k1),
        consumed(b1, b2, 0, t2, k2),
        b0.refilled_at() <= t1 <= t2,
    ensures
        b2.spec_tokens() * 1000 <= b0.spec_tokens() * 1000 + (t2 - b0.refilled_at()) * b0.rate(),
{
    lemma_no_more_than_earned(b0, b1, 0, t1, k1);
    lemma_no_more_than_earned(b1, b2, 0, t2, k2);
    let r = b0.rate() as int;
    let a = t1 - b0.refilled_at();
    let b = t2 - t1;
    assert(a * r + b * r == (a + b) * r) by (nonlinear_arith);
    assert(0 <= b * r) by (nonlinear_arith)
        requires
            0 <= b,
            0 <= r,
    ;
    assert(a * r <= (a + b) * r) by (nonlinear_arith)
        requires
            0 <= b,
            0 <= r,
            0 <= a,
    ;
}

/// A bucket is never over-full: a bucket that starts within its capacity
/// stays within it after a refill.
pub proof fn lemma_refill_keeps_capacity(before: TokenBucket, after: TokenBucket, now: u64)
    requires
        before.spec_tokens() <= before.spec_capacity(),
        after.spec_capacity() == before.spec_capacity(),
        ({
            let add = earned(elapsed_between(before.refilled_at(), now), before.rate() as nat);
            &&& add > 0 ==> after.spec_tokens() == crate::resilience::at_most(
                (before.spec_tokens() + add) as nat,
                before.spec_capacity() as nat,
            )
            &&& add == 0 ==> after.spec_tokens() == before.spec_tokens()
        }),
    ensures
        after.spec_tokens() <= after.spec_capacity(),
{
}

/// Figures of a rate-limit bucket.
#[derive(Debug, Clone, Copy, PartialEq, Eq, Structural)]
pub struct RateLimitStats {
    pub capacity: u32,
    pub available_tokens: u32,
    pub refill_rate: u32,
    pub requests_per_minute: u32,
}

/// The figures of bucket `b`.
pub open spec fn stats_of(b: TokenBucket) -> RateLimitStats {
    RateLimitStats {
        capacity: b.spec_capacity(),
        available_tokens: b.spec_tokens(),
        refill_rate: b.rate(),
        requests_per_minute: b.requests(),
    }
}

/// Token buckets by key, in a concurrent map.
pub type BucketMap = DashMap<String, TokenBucket>;

/// What a map of buckets holds, by key.
pub uninterp spec fn bucket_entries(m: BucketMap) -> Map<Seq<char>, TokenBucket>;

/// No buckets.
pub open spec fn no_buckets() -> Map<Seq<char>, TokenBucket> {
    Map::empty()
}

/// Whether `v` lists each bucket of `buckets` once, as its key and figures.
pub open spec fn lists_stats(v: Seq<(String, RateLimitStats)>, buckets: Map<Seq<char>, TokenBucket>) -> bool {
    &&& v.len() == buckets.len()
    &&& forall|i: int, j: int| 0 <= i < j < v.len() ==> v[i].0@ != v[j].0@
    &&& forall|i: int| 0 <= i < v.len() ==> buckets.contains_key(#[trigger] v[i].0@) && v[i].1 == stats_of(
        buckets[v[i].0@],
    )
    &&& forall|k: Seq<char>| #[trigger] buckets.contains_key(k) ==> exists|i: int| 0 <= i < v.len() && v[i].0@ == k
}

/// An empty map, from `DashMap::new`.
#[verifier::external_body]
fn buckets_new() -> (m: BucketMap)
    ensures
        bucket_entries(m) == no_buckets(),
{
    DashMap::new()
}

/// `DashMap::get`: a copy of the bucket under `key`, if any.
#[verifier::external_body]
fn buckets_get(m: &BucketMap, key: &String) -> (r: Option<TokenBucket>)
    ensures
        r is Some == bucket_entries(*m).contains_key(key@),
        r matches Some(b) ==> b == bucket_entries(*m)[key@],
{
    match m.get(key) {
        Some(b) => Some(*b.value()),
        None => None,
    }
}

/// `DashMap::insert`: stores `bucket` under `key`, in place of one already
/// there.
#[verifier::external_body]
fn buckets_insert(m: &mut BucketMap, key: String, bucket: TokenBucket)
    ensures
        bucket_entries(*final(m)) == bucket_entries(*old(m)).insert(key@, bucket),
{
    m.insert(key, bucket);
}

/// `DashMap::iter`: each bucket once, as its key and figures.
#[verifier::external_body]
fn buckets_listed(m: &BucketMap) -> (v: Vec<(String, RateLimitStats)>)
    ensures
        lists_stats(v@, bucket_entries(*m)),
{
    m.iter().map(|e| (e.key().clone(), e.value().stats())).collect()
}

/// Token buckets by key.
pub struct RateLimiter {
    buckets: BucketMap,
}

impl RateLimiter {
    /// The buckets by key.
    pub closed spec fn buckets(&self) -> Map<Seq<char>, TokenBucket> {
        bucket_entries(self.buckets)
    }

    /// Finitely many buckets.
    pub closed spec fn well_formed(&self) -> bool {
        self.buckets().dom().finite()
    }

    /// No bucket.
    pub fn new() -> (r: Self)
        ensures
            r.well_formed(),
            r.buckets() == no_buckets(),
    {
        RateLimiter { buckets: buckets_new() }
    }

    /// Whether a request for `tokens_requested` tokens under `key` is
    /// allowed at `now`.  The first request of a key makes its bucket, full,
    /// with `capacity` and `refill_rate`; later requests use that bucket
    /// whatever they pass.  The bucket is refilled and, if the request is
    /// allowed, drawn from, as `TokenBucket::try_consume_at` does.
    pub fn is_allowed_at(&mut self, key: &str, capacity: u32, refill_rate: u32, tokens_requested: u32, now: u64) -> (allowed: bool)
        requires
            old(self).well_formed(),
            old(self).buckets().contains_key(key@) ==> old(self).buckets()[key@].requests() < u32::MAX,
        ensures
            final(self).well_formed(),
            final(self).buckets() == old(self).buckets().insert(key@, final(self).buckets()[key@]),
            allowed_at(
                old(self).buckets(),
                key@,
                capacity,
                refill_rate,
                final(self).buckets()[key@],
                tokens_requested,
                now,
                allowed,
            ),
    {
        let k = String::from_str(key);
        let mut bucket = match buckets_get(&self.buckets, &k) {
            Some(b) => b,
            None => TokenBucket::new_at(capacity, refill_rate, now),
        };
        let ghost start = bucket;
        let allowed = bucket.try_consume_at(tokens_requested, now);
        proof {
            assert(elapsed_between(now, now) == 0);
            assert(0 * (refill_rate as nat) == 0);
        }
        buckets_insert(&mut self.buckets, k, bucket);
        allowed
    }

    /// Whether a request is allowed now.
    pub fn is_allowed(&mut self, key: &str, capacity: u32, refill_rate: u32, tokens_requested: u32) -> (allowed: bool)
        requires
            old(self).well_formed(),
            old(self).buckets().contains_key(key@) ==> old(self).buckets()[key@].requests() < u32::MAX,
        ensures
            final(self).well_formed(),
            final(self).buckets() == old(self).buckets().insert(key@, final(self).buckets()[key@]),
            exists|now: u64|
                #[trigger] allowed_at(
                    old(self).buckets(),
                    key@,
                    capacity,
                    refill_rate,
                    final(self).buckets()[key@],
                    tokens_requested,
                    now,
                    allowed,
                ),
    {
        let now = crate::platform::now_millis();
        self.is_allowed_at(key, capacity, refill_rate, tokens_requested, now)
    }

    /// The figures of each bucket, each once, in no particular order.
    pub fn get_stats(&self) -> (v: Vec<(String, RateLimitStats)>)
        ensures
            lists_stats(v@, self.buckets()),
    {
        buckets_listed(&self.buckets)
    }
}

/// A named counter that never goes below zero.
pub struct AsyncSafeCounter {
    value: u64,
    name: String,
}

impl AsyncSafeCounter {
    /// The count.
    pub closed spec fn count(&self) -> u64 {
        self.value
    }

    /// A counter at zero.
    pub fn new(name: String) -> (c: Self)
        ensures
            c.count() == 0,
    {
        AsyncSafeCounter { value: 0, name }
    }

    /// The name the counter was made with.
    pub closed spec fn spec_name(&self) -> Seq<char> {
        self.name@
    }

    /// The counter's name.
    pub fn name(&self) -> (n: &String)
        ensures
            n@ == self.spec_name(),
    {
        &self.name
    }

    /// Adds one and returns the new count.
    pub fn increment(&mut self) -> (v: u64)
        requires
            old(self).count() < u64::MAX,
        ensures
            v == old(self).count() + 1,
            final(self).count() == v,
    {
        self.value = self.value + 1;
        self.value
    }

    /// Takes one away, stopping at zero, and returns the new count.
    pub fn decrement(&mut self) -> (v: u64)
        ensures
            v == if old(self).count() > 0 { (old(self).count() - 1) as u64 } else { 0 },
            final(self).count() == v,
    {
        self.value = if self.value > 0 {
            self.value - 1
        } else {
            0
        };
        self.value
    }

    /// The count.
    pub fn get(&self) -> (v: u64)
        ensures
            v == self.count(),
    {
        self.value
    }

    /// Sets the count.
    pub fn set(&mut self, new_value: u64)
        ensures
            final(self).count() == new_value,
    {
        self.value = new_value;
    }
}

/// Whether `u` is in `s`.
fn contains_id(s: &Vec<u128>, u: u128) -> (b: bool)
    ensures
        b == s@.contains(u),
{
    let mut i: usize = 0;
    while i < s.len()
        invariant
            i <= s@.len(),
            forall|j: int| 0 <= j < i ==> s@[j] != u,
        decreases s@.len() - i,
    {
        if s[i] == u {
            proof {
                assert(s@[i as int] == u);
            }
            return true;
        }
        i = i + 1;
    }
    false
}

/// What a list holds after a push.
proof fn lemma_contains_push(s: Seq<u128>, x: u128, b: u128)
    ensures
        s.push(x).contains(b) <==> (s.contains(b) || b == x),
{
    if s.push(x).contains(b) {
        let j = choose|j: int| 0 <= j < s.push(x).len() && s.push(x)[j] == b;
        if j < s.len() {
            assert(s[j] == b);
        }
    }
    if s.contains(b) {
        let j = choose|j: int| 0 <= j < s.len() && s[j] == b;
        assert(s.push(x)[j] == b);
    }
    if b == x {
        assert(s.push(x)[s.len() as int] == b);
    }
}

/// What is known of a thread of work.
#[derive(Debug, Clone)]
pub struct ThreadInfo {
    pub thread_id: u128,
    pub waiting_for: Option<u128>,
    pub holding_locks: Vec<String>,
    pub started_at: u64,
}

/// Whether `a` waits for `b` in the graph.
pub open spec fn waits_for(g: Seq<(u128, Vec<u128>)>, a: u128, b: u128) -> bool {
    has_id(g, a) && value_at_id(g, a)@.contains(b)
}

/// Every id named in the graph: waiters and those waited for.
pub open spec fn mentioned(g: Seq<(u128, Vec<u128>)>) -> Set<u128> {
    Set::new(|u: u128| has_id(g, u) || exists|a: u128| #[trigger] waits_for(g, a, u))
}

/// Whether `path` is a closed walk of waits: each thread on it waits for
/// the next, and the last waits for the first.
pub open spec fn closed_walk(g: Seq<(u128, Vec<u128>)>, path: Seq<u128>) -> bool {
    &&& path.len() > 0
    &&& forall|k: int| 0 <= k < path.len() - 1 ==> #[trigger] waits_for(g, path[k], path[k + 1])
    &&& waits_for(g, path.last(), path[0])
}

/// Whether each thread of `s` waits for the next.
pub open spec fn walk(g: Seq<(u128, Vec<u128>)>, s: Seq<u128>) -> bool {
    forall|k: int| 0 <= k < s.len() - 1 ==> #[trigger] waits_for(g, s[k], s[k + 1])
}

/// Whether no thread waits, through others, for itself.
pub open spec fn acyclic(g: Seq<(u128, Vec<u128>)>) -> bool {
    forall|path: Seq<u128>| !#[trigger] closed_walk(g, path)
}

/// Whether every thread that a thread of `fin` waits for comes before it
/// in `fin`.
pub open spec fn ordered_finish(g: Seq<(u128, Vec<u128>)>, fin: Seq<u128>) -> bool {
    forall|i: int, v: u128|
        0 <= i < fin.len() && #[trigger] waits_for(g, fin[i], v) ==> exists|j: int| 0 <= j < i && fin[j] == v
}

/// Whether the visited threads are those still being searched and those
/// done, and none is both.
pub open spec fn coloring(visited: Seq<u128>, rec: Seq<u128>, fin: Seq<u128>) -> bool {
    &&& forall|x: u128| #[trigger] visited.contains(x) <==> (rec.contains(x) || fin.contains(x))
    &&& forall|x: u128| #[trigger] rec.contains(x) ==> !fin.contains(x)
}

/// Following a closed walk from its first thread, `n` steps on, reaches
/// a thread of the walk placed at least `n` places before the start in an
/// ordered `fin`.
proof fn lemma_walk_descends(g: Seq<(u128, Vec<u128>)>, fin: Seq<u128>, path: Seq<u128>, i0: int, n: nat) -> (r: (int, int))
    requires
        ordered_finish(g, fin),
        closed_walk(g, path),
        0 <= i0 < fin.len(),
        fin[i0] == path[0],
    ensures
        0 <= r.0 < path.len(),
        0 <= r.1 < fin.len(),
        fin[r.1] == path[r.0],
        r.1 <= i0 - n,
    decreases n,
{
    if n == 0 {
        (0, i0)
    } else {
        let (pos, i) = lemma_walk_descends(g, fin, path, i0, (n - 1) as nat);
        let next: int = if pos + 1 < path.len() { pos + 1 } else { 0 };
        if pos + 1 < path.len() {
            assert(waits_for(g, path[pos], path[pos + 1]));
        } else {
            assert(path.last() == path[pos]);
        }
        assert(waits_for(g, fin[i], path[next]));
        let j = choose|j: int| 0 <= j < i && fin[j] == path[next];
        (next, j)
    }
}

/// A graph whose waiters all appear in an ordered `fin` has no cycle.
proof fn lemma_ordered_finish_acyclic(g: Seq<(u128, Vec<u128>)>, fin: Seq<u128>)
    requires
        ordered_finish(g, fin),
        forall|j: int| 0 <= j < g.len() ==> #[trigger] fin.contains(g[j].0),
    ensures
        acyclic(g),
{
    assert forall|path: Seq<u128>| !#[trigger] closed_walk(g, path) by {
        if closed_walk(g, path) {
            assert(waits_for(g, path.last(), path[0]));
            if path.len() > 1 {
                let k: int = 0;
                assert(0 <= k < path.len() - 1);
                assert(waits_for(g, path[k], path[k + 1]));
            } else {
                assert(path.last() == path[0]);
            }
            assert(has_id(g, path[0]));
            let p = choose|p: int| 0 <= p < g.len() && g[p].0 == path[0];
            assert(fin.contains(g[p].0));
            let i0 = choose|i: int| 0 <= i < fin.len() && fin[i] == path[0];
            let (pos, i) = lemma_walk_descends(g, fin, path, i0, (i0 + 1) as nat);
        }
    }
}

/// Finds wait-for cycles among threads of work.
pub struct DeadlockDetector {
    wait_graph: IdTable<Vec<u128>>,
    active_threads: IdTable<ThreadInfo>,
}

impl DeadlockDetector {
    /// Who waits for whom, by waiter, in order of first wait.
    pub closed spec fn graph(&self) -> Seq<(u128, Vec<u128>)> {
        self.wait_graph.entries()
    }

    /// Known threads.
    pub closed spec fn threads(&self) -> Seq<(u128, ThreadInfo)> {
        self.active_threads.entries()
    }

    /// One entry per waiter and per thread.
    pub closed spec fn well_formed(&self) -> bool {
        self.wait_graph.well_formed() && self.active_threads.well_formed()
    }

    /// No wait.
    pub fn new() -> (d: Self)
        ensures
            d.well_formed(),
            d.graph().len() == 0,
            d.threads().len() == 0,
    {
        DeadlockDetector { wait_graph: IdTable::new(), active_threads: IdTable::new() }
    }

    /// Records a thread to track.
    pub fn register_thread(&mut self, info: ThreadInfo)
        requires
            old(self).well_formed(),
        ensures
            final(self).well_formed(),
            final(self).threads() == id_upserted(old(self).threads(), info.thread_id, info),
            final(self).graph() == old(self).graph(),
    {
        self.active_threads.insert(info.thread_id, info);
    }

    /// Records that `waiter` waits for `waiting_for`.
    pub fn register_wait(&mut self, waiter: u128, waiting_for: u128)
        requires
            old(self).well_formed(),
        ensures
            final(self).well_formed(),
            waits_for(final(self).graph(), waiter, waiting_for),
            has_id(old(self).graph(), waiter) ==> value_at_id(final(self).graph(), waiter)@ == value_at_id(
                old(self).graph(),
                waiter,
            )@.push(waiting_for),
            !has_id(old(self).graph(), waiter) ==> value_at_id(final(self).graph(), waiter)@ == seq![waiting_for],
            forall|a: u128, b: u128| a != waiter ==> #[trigger] waits_for(final(self).graph(), a, b) == waits_for(
                old(self).graph(),
                a,
                b,
            ),
    {
        let mut list: Vec<u128> = match self.wait_graph.find(waiter) {
            Some(i) => {
                let e = self.wait_graph.entry_at(i);
                let mut c: Vec<u128> = Vec::new();
                let mut k: usize = 0;
                while k < e.1.len()
                    invariant
                        k <= e.1@.len(),
                        c@ == e.1@.take(k as int),
                    decreases e.1@.len() - k,
                {
                    c.push(e.1[k]);
                    proof {
                        assert(c@ =~= e.1@.take(k as int + 1));
                    }
                    k = k + 1;
                }
                proof {
                    assert(e.1@.take(e.1@.len() as int) =~= e.1@);
                }
                c
            },
            None => Vec::new(),
        };
        let ghost before = list@;
        list.push(waiting_for);
        proof {
            assert(list@[before.len() as int] == waiting_for);
            crate::ids::lemma_id_upserted_unique(self.wait_graph.entries(), waiter, list);
        }
        self.wait_graph.insert(waiter, list);
        match self.active_threads.find(waiter) {
            Some(i) => {
                let t = self.active_threads.value_mut_at(i);
                t.waiting_for = Some(waiting_for);
            },
            None => {},
        }
    }

    /// Forgets that `waiter` waits for `waiting_for`; a waiter left waiting
    /// for no one leaves the graph.
    pub fn remove_wait(&mut self, waiter: u128, waiting_for: u128)
        requires
            old(self).well_formed(),
        ensures
            final(self).well_formed(),
            !waits_for(final(self).graph(), waiter, waiting_for),
            forall|b: u128| b != waiting_for ==> #[trigger] waits_for(final(self).graph(), waiter, b) == waits_for(
                old(self).graph(),
                waiter,
                b,
            ),
            forall|a: u128, b: u128| a != waiter ==> #[trigger] waits_for(final(self).graph(), a, b) == waits_for(
                old(self).graph(),
                a,
                b,
            ),
    {
        match self.wait_graph.find(waiter) {
            None => {},
            Some(i) => {
                let ghost old_list = self.wait_graph.entries()[i as int].1@;
                let e = self.wait_graph.entry_at(i);
                let mut kept: Vec<u128> = Vec::new();
                let mut k: usize = 0;
                while k < e.1.len()
                    invariant
                        k <= e.1@.len(),
                        e.1@ == old_list,
                        forall|b: u128| #[trigger] kept@.contains(b) <==> (b != waiting_for && e.1@.take(k as int).contains(b)),
                    decreases e.1@.len() - k,
                {
                    let x = e.1[k];
                    proof {
                        assert(e.1@.take(k as int + 1) =~= e.1@.take(k as int).push(x));
                    }
                    if x != waiting_for {
                        let ghost kb = kept@;
                        kept.push(x);
                        proof {
                            assert forall|b: u128| #[trigger] kept@.contains(b) <==> (b != waiting_for && e.1@.take(
                                k as int + 1,
                            ).contains(b)) by {
                                lemma_contains_push(kb, x, b);
                                lemma_contains_push(e.1@.take(k as int), x, b);
                            }
                        }
                    } else {
                        proof {
                            assert forall|b: u128| #[trigger] kept@.contains(b) <==> (b != waiting_for && e.1@.take(
                                k as int + 1,
                            ).contains(b)) by {
                                lemma_contains_push(e.1@.take(k as int), x, b);
                            }
                        }
                    }
                    k = k + 1;
                }
                proof {
                    assert(e.1@.take(e.1@.len() as int) =~= e.1@);
                    crate::ids::lemma_id_position(self.wait_graph.entries(), waiter, i as int);
                }
                let ghost old_graph = self.wait_graph.entries();
                proof {
                    assert(value_at_id(old_graph, waiter) == e.1);
                }
                if kept.len() == 0 {
                    let _ = self.wait_graph.remove_at(i);
                    proof {
                        crate::ids::lemma_without_id_unique(old_graph, waiter);
                        assert forall|b: u128| b != waiting_for implies !waits_for(old_graph, waiter, b) by {
                            if old_list.contains(b) {
                                assert(kept@.contains(b));
                            }
                        }
                    }
                } else {
                    let ghost kv = kept;
                    proof {
                        crate::ids::lemma_id_upserted_unique(self.wait_graph.entries(), waiter, kept);
                    }
                    self.wait_graph.insert(waiter, kept);
                    proof {
                        assert(value_at_id(self.wait_graph.entries(), waiter) == kv);
                        assert forall|b: u128| b != waiting_for implies #[trigger] waits_for(self.wait_graph.entries(), waiter, b)
                            == waits_for(old_graph, waiter, b) by {
                            assert(kv@.contains(b) <==> (b != waiting_for && old_list.take(old_list.len() as int).contains(b)));
                        }
                        assert(!kv@.contains(waiting_for));
                    }
                }
            },
        }
        match self.active_threads.find(waiter) {
            Some(i) => {
                let t = self.active_threads.value_mut_at(i);
                t.waiting_for = None;
            },
            None => {},
        }
    }
}

/// Whether `s` has `u` as a member, as a set would.
fn push_new(s: &mut Vec<u128>, u: u128)
    requires
        old(s)@.no_duplicates(),
    ensures
        final(s)@.no_duplicates(),
        final(s)@.contains(u),
        forall|x: u128| #[trigger] final(s)@.contains(x) <==> (old(s)@.contains(x) || x == u),
        !old(s)@.contains(u) ==> final(s)@ == old(s)@.push(u),
{
    if !contains_id(s, u) {
        let ghost before = s@;
        s.push(u);
        proof {
            assert forall|x: u128| #[trigger] s@.contains(x) <==> (before.contains(x) || x == u) by {
                lemma_contains_push(before, u, x);
            }
            assert forall|i: int, j: int| 0 <= i < s@.len() && 0 <= j < s@.len() && i != j implies s@[i] != s@[j] by {
                if i < before.len() && j < before.len() {
                } else if i == before.len() {
                    assert(before[j] == s@[j]);
                } else {
                    assert(before[i] == s@[i]);
                }
            }
        }
    }
}

impl DeadlockDetector {
    /// Every id named in the graph, once each.
    fn all_nodes(&self) -> (nodes: Vec<u128>)
        requires
            self.well_formed(),
        ensures
            nodes@.no_duplicates(),
            forall|i: int| 0 <= i < self.graph().len() ==> #[trigger] nodes@.contains(self.graph()[i].0),
            forall|a: u128, b: u128| #[trigger] waits_for(self.graph(), a, b) ==> nodes@.contains(b),
    {
        let mut nodes: Vec<u128> = Vec::new();
        let mut i: usize = 0;
        while i < self.wait_graph.len()
            invariant
                i <= self.graph().len(),
                self.well_formed(),
                nodes@.no_duplicates(),
                forall|j: int| 0 <= j < i ==> #[trigger] nodes@.contains(self.graph()[j].0),
                forall|j: int, k: int| 0 <= j < i && 0 <= k < self.graph()[j].1@.len() ==> nodes@.contains(
                    #[trigger] self.graph()[j].1@[k],
                ),
            decreases self.graph().len() - i,
        {
            let e = self.wait_graph.entry_at(i);
            push_new(&mut nodes, e.0);
            let mut k: usize = 0;
            while k < e.1.len()
                invariant
                    k <= e.1@.len(),
                    i < self.graph().len(),
                    *e == self.graph()[i as int],
                    nodes@.no_duplicates(),
                    nodes@.contains(e.0),
                    forall|j: int| 0 <= j < i ==> #[trigger] nodes@.contains(self.graph()[j].0),
                    forall|j: int, m: int| 0 <= j < i && 0 <= m < self.graph()[j].1@.len() ==> nodes@.contains(
                        #[trigger] self.graph()[j].1@[m],
                    ),
                    forall|m: int| 0 <= m < k ==> nodes@.contains(#[trigger] e.1@[m]),
                decreases e.1@.len() - k,
            {
                push_new(&mut nodes, e.1[k]);
                k = k + 1;
            }
            i = i + 1;
        }
        proof {
            assert forall|a: u128, b: u128| #[trigger] waits_for(self.graph(), a, b) implies nodes@.contains(b) by {
                let p = crate::ids::id_position(self.graph(), a);
                let m = choose|m: int| 0 <= m < value_at_id(self.graph(), a)@.len() && value_at_id(self.graph(), a)@[m] == b;
                assert(self.graph()[p].1@[m] == b);
            }
        }
        nodes
    }

    /// Depth-first search from `node` for a wait on a thread still being
    /// searched.  Returns the waiter and the waited-for thread of the first
    /// such wait found.
    fn dfs_cycle_detection(
        &self,
        nodes: &Vec<u128>,
        node: u128,
        visited: &mut Vec<u128>,
        rec_stack: &mut Vec<u128>,
        Ghost(fin0): Ghost<Seq<u128>>,
        Ghost(tracking): Ghost<bool>,
    ) -> (r: (Option<(u128, u128)>, Ghost<Seq<u128>>))
        requires
            self.well_formed(),
            nodes@.no_duplicates(),
            forall|a: u128, b: u128| #[trigger] waits_for(self.graph(), a, b) ==> nodes@.contains(b),
            nodes@.contains(node),
            old(visited)@.no_duplicates(),
            forall|x: u128| #[trigger] old(visited)@.contains(x) ==> nodes@.contains(x),
            !old(visited)@.contains(node),
            old(rec_stack)@.no_duplicates(),
            forall|x: u128| #[trigger] old(rec_stack)@.contains(x) ==> old(visited)@.contains(x),
            tracking ==> ordered_finish(self.graph(), fin0) && coloring(old(visited)@, old(rec_stack)@, fin0),
            tracking ==> walk(self.graph(), old(rec_stack)@),
            tracking && old(rec_stack)@.len() > 0 ==> waits_for(self.graph(), old(rec_stack)@.last(), node),
        ensures
            final(visited)@.no_duplicates(),
            forall|x: u128| #[trigger] final(visited)@.contains(x) ==> nodes@.contains(x),
            forall|x: u128| #[trigger] old(visited)@.contains(x) ==> final(visited)@.contains(x),
            final(visited)@.contains(node),
            final(rec_stack)@.no_duplicates(),
            forall|x: u128| #[trigger] final(rec_stack)@.contains(x) ==> final(visited)@.contains(x),
            r.0 matches Some(p) ==> waits_for(self.graph(), p.0, p.1),
            tracking && r.0 is None ==> {
                let fin = r.1@;
                &&& ordered_finish(self.graph(), fin)
                &&& coloring(final(visited)@, final(rec_stack)@, fin)
                &&& fin.contains(node)
                &&& forall|x: u128| #[trigger] fin0.contains(x) ==> fin.contains(x)
                &&& forall|x: u128| #[trigger] final(rec_stack)@.contains(x) <==> old(rec_stack)@.contains(x)
                &&& final(rec_stack)@ == old(rec_stack)@
            },
            tracking && r.0 is Some ==> !acyclic(self.graph()),
        decreases nodes@.len() - old(visited)@.len(),
    {
        proof {
            nodes@.unique_seq_to_set();
            old(visited)@.unique_seq_to_set();
            assert(old(visited)@.to_set().subset_of(nodes@.to_set()));
            vstd::set_lib::lemma_len_subset(old(visited)@.to_set(), nodes@.to_set());
        }
        let ghost rec0 = rec_stack@;
        push_new(visited, node);
        push_new(rec_stack, node);
        let ghost mut fin = fin0;
        proof {
            if tracking {
                assert(!rec0.contains(node));
                assert(!fin0.contains(node));
                assert(rec_stack@ == rec0.push(node));
                assert forall|k: int| 0 <= k < rec_stack@.len() - 1 implies #[trigger] waits_for(
                    self.graph(),
                    rec_stack@[k],
                    rec_stack@[k + 1],
                ) by {
                    if k + 1 < rec0.len() {
                        assert(waits_for(self.graph(), rec0[k], rec0[k + 1]));
                    } else {
                        assert(rec0.last() == rec_stack@[k]);
                    }
                }
                assert forall|x: u128| #[trigger] visited@.contains(x) <==> (rec_stack@.contains(x) || fin.contains(x)) by {
                    if x != node {
                        assert(visited@.contains(x) == old(visited)@.contains(x));
                        assert(rec_stack@.contains(x) == rec0.contains(x));
                    }
                }
                assert forall|x: u128| #[trigger] rec_stack@.contains(x) implies !fin.contains(x) by {
                    if x != node {
                        assert(rec0.contains(x));
                    }
                }
            }
        }
        match self.wait_graph.find(node) {
            None => {
                proof {
                    assert forall|v: u128| !#[trigger] waits_for(self.graph(), node, v) by {}
                }
            },
            Some(i) => {
                proof {
                    crate::ids::lemma_id_position(self.graph(), node, i as int);
                }
                let e = self.wait_graph.entry_at(i);
                let mut k: usize = 0;
                while k < e.1.len()
                    invariant
                        k <= e.1@.len(),
                        *e == self.graph()[i as int],
                        value_at_id(self.graph(), node) == e.1,
                        has_id(self.graph(), node),
                        self.well_formed(),
                        nodes@.no_duplicates(),
                        forall|a: u128, b: u128| #[trigger] waits_for(self.graph(), a, b) ==> nodes@.contains(b),
                        visited@.no_duplicates(),
                        forall|x: u128| #[trigger] visited@.contains(x) ==> nodes@.contains(x),
                        forall|x: u128| #[trigger] old(visited)@.contains(x) ==> visited@.contains(x),
                        old(visited)@.no_duplicates(),
                        !old(visited)@.contains(node),
                        visited@.contains(node),
                        rec_stack@.no_duplicates(),
                        forall|x: u128| #[trigger] rec_stack@.contains(x) ==> visited@.contains(x),
                        tracking ==> ordered_finish(self.graph(), fin) && coloring(visited@, rec_stack@, fin),
                        tracking ==> !fin.contains(node),
                        tracking ==> forall|x: u128| #[trigger] rec_stack@.contains(x) <==> (rec0.contains(x) || x == node),
                        tracking ==> forall|m: int| 0 <= m < k ==> #[trigger] fin.contains(e.1@[m]),
                        tracking ==> forall|x: u128| #[trigger] fin0.contains(x) ==> fin.contains(x),
                        tracking ==> rec_stack@ == rec0.push(node) && walk(self.graph(), rec_stack@),
                        !rec0.contains(node),
                    decreases e.1@.len() - k,
                {
                    let neighbor = e.1[k];
                    proof {
                        assert(e.1@[k as int] == neighbor);
                        assert(waits_for(self.graph(), node, neighbor));
                    }
                    if !contains_id(visited, neighbor) {
                        proof {
                            assert(visited@.len() > old(visited)@.len()) by {
                                old(visited)@.unique_seq_to_set();
                                visited@.unique_seq_to_set();
                                assert(old(visited)@.to_set().subset_of(visited@.to_set()));
                                assert(!old(visited)@.to_set().contains(node));
                                assert(visited@.to_set().contains(node));
                                vstd::set_lib::lemma_len_subset(old(visited)@.to_set(), visited@.to_set().remove(node));
                            }
                            nodes@.unique_seq_to_set();
                            visited@.unique_seq_to_set();
                            assert(visited@.to_set().subset_of(nodes@.to_set()));
                            vstd::set_lib::lemma_len_subset(visited@.to_set(), nodes@.to_set());
                        }
                        let ghost fin_before = fin;
                        let (found, Ghost(fin2)) = self.dfs_cycle_detection(
                            nodes,
                            neighbor,
                            visited,
                            rec_stack,
                            Ghost(fin),
                            Ghost(tracking),
                        );
                        if found.is_some() {
                            return (found, Ghost(fin2));
                        }
                        proof {
                            fin = fin2;
                            if tracking {
                                assert(rec_stack@.contains(node));
                                assert(!fin.contains(node));
                                assert forall|m: int| 0 <= m < k + 1 implies #[trigger] fin.contains(e.1@[m]) by {
                                    if m < k {
                                        assert(fin_before.contains(e.1@[m]));
                                    }
                                }
                            }
                        }
                    } else if contains_id(rec_stack, neighbor) {
                        proof {
                            if tracking {
                                let rs = rec_stack@;
                                let p = choose|p: int| 0 <= p < rs.len() && rs[p] == neighbor;
                                let path = rs.subrange(p, rs.len() as int);
                                assert(rs.last() == node);
                                assert(path.last() == node);
                                assert forall|k: int| 0 <= k < path.len() - 1 implies #[trigger] waits_for(
                                    self.graph(),
                                    path[k],
                                    path[k + 1],
                                ) by {
                                    assert(path[k] == rs[p + k] && path[k + 1] == rs[p + k + 1]);
                                    assert(waits_for(self.graph(), rs[p + k], rs[p + k + 1]));
                                }
                                assert(closed_walk(self.graph(), path));
                            }
                        }
                        return (Some((node, neighbor)), Ghost(fin));
                    } else {
                        proof {
                            if tracking {
                                assert(fin.contains(neighbor));
                                assert forall|m: int| 0 <= m < k + 1 implies #[trigger] fin.contains(e.1@[m]) by {}
                            }
                        }
                    }
                    k = k + 1;
                }
                proof {
                    if tracking {
                        assert forall|v: u128| #[trigger] waits_for(self.graph(), node, v) implies fin.contains(v) by {
                            let m = choose|m: int| 0 <= m < e.1@.len() && e.1@[m] == v;
                            assert(fin.contains(e.1@[m]));
                        }
                    }
                }
            },
        }
        let ghost fin_done = fin;
        let ghost rec_done = rec_stack@;
        remove_id(rec_stack, node);
        proof {
            fin = fin_done.push(node);
            if tracking {
                assert forall|x: u128| #[trigger] fin_done.contains(x) implies fin.contains(x) by {
                    let j = choose|j: int| 0 <= j < fin_done.len() && fin_done[j] == x;
                    assert(fin[j] == x);
                }
                assert(fin[fin_done.len() as int] == node);
                assert forall|ii: int, v: u128|
                    0 <= ii < fin.len() && #[trigger] waits_for(self.graph(), fin[ii], v) implies exists|j: int|
                        0 <= j < ii && fin[j] == v by {
                    if ii < fin_done.len() {
                        assert(fin[ii] == fin_done[ii]);
                        let j = choose|j: int| 0 <= j < ii && fin_done[j] == v;
                        assert(fin[j] == v);
                    } else {
                        assert(fin[ii] == node);
                        assert(waits_for(self.graph(), node, v));
                        assert(fin_done.contains(v));
                        let j = choose|j: int| 0 <= j < fin_done.len() && fin_done[j] == v;
                        assert(fin[j] == v);
                    }
                }
                assert forall|x: u128| #[trigger] visited@.contains(x) <==> (rec_stack@.contains(x) || fin.contains(x)) by {
                    if fin.contains(x) && x != node {
                        let j = choose|j: int| 0 <= j < fin.len() && fin[j] == x;
                        assert(fin_done[j] == x);
                    }
                    if fin_done.contains(x) {
                        assert(fin.contains(x));
                    }
                }
                assert forall|x: u128| #[trigger] rec_stack@.contains(x) ==> !fin.contains(x) by {
                    if rec_stack@.contains(x) && fin.contains(x) {
                        let j = choose|j: int| 0 <= j < fin.len() && fin[j] == x;
                        if j < fin_done.len() {
                            assert(fin_done[j] == x);
                            assert(fin_done.contains(x));
                        }
                    }
                }
            }
        }
        (None, Ghost(fin))
    }

    /// Wait-for cycles found by depth-first search from each waiter in
    /// turn, each reported as the wait that closes it: the waiter and the
    /// thread it waits for.  The search marks threads across waiters and
    /// reports at most one wait per waiter it starts from.  Nothing is
    /// reported exactly when no thread waits, through others, for itself.
    pub fn detect_deadlocks(&self) -> (cycles: Vec<Vec<u128>>)
        requires
            self.well_formed(),
        ensures
            cycles@.len() <= self.graph().len(),
            forall|i: int| 0 <= i < cycles@.len() ==> (#[trigger] cycles@[i])@.len() == 2 && waits_for(
                self.graph(),
                cycles@[i]@[0],
                cycles@[i]@[1],
            ),
            cycles@.len() == 0 <==> acyclic(self.graph()),
    {
        let nodes = self.all_nodes();
        let mut visited: Vec<u128> = Vec::new();
        let mut rec_stack: Vec<u128> = Vec::new();
        let mut deadlocks: Vec<Vec<u128>> = Vec::new();
        let ghost mut fin: Seq<u128> = Seq::empty();
        let mut i: usize = 0;
        while i < self.wait_graph.len()
            invariant
                i <= self.graph().len(),
                self.well_formed(),
                nodes@.no_duplicates(),
                forall|j: int| 0 <= j < self.graph().len() ==> #[trigger] nodes@.contains(self.graph()[j].0),
                forall|a: u128, b: u128| #[trigger] waits_for(self.graph(), a, b) ==> nodes@.contains(b),
                visited@.no_duplicates(),
                forall|x: u128| #[trigger] visited@.contains(x) ==> nodes@.contains(x),
                rec_stack@.no_duplicates(),
                forall|x: u128| #[trigger] rec_stack@.contains(x) ==> visited@.contains(x),
                deadlocks@.len() <= i,
                forall|j: int| 0 <= j < deadlocks@.len() ==> (#[trigger] deadlocks@[j])@.len() == 2 && waits_for(
                    self.graph(),
                    deadlocks@[j]@[0],
                    deadlocks@[j]@[1],
                ),
                deadlocks@.len() == 0 ==> ordered_finish(self.graph(), fin) && coloring(visited@, rec_stack@, fin),
                deadlocks@.len() == 0 ==> forall|x: u128| !#[trigger] rec_stack@.contains(x),
                deadlocks@.len() == 0 ==> rec_stack@.len() == 0,
                deadlocks@.len() > 0 ==> !acyclic(self.graph()),
                deadlocks@.len() == 0 ==> forall|j: int| 0 <= j < i ==> #[trigger] fin.contains(self.graph()[j].0),
            decreases self.graph().len() - i,
        {
            let node = self.wait_graph.entry_at(i).0;
            proof {
                assert(nodes@.contains(self.graph()[i as int].0));
            }
            if !contains_id(&visited, node) {
                let ghost fin_before = fin;
                let (found, Ghost(fin2)) = self.dfs_cycle_detection(
                    &nodes,
                    node,
                    &mut visited,
                    &mut rec_stack,
                    Ghost(fin),
                    Ghost(deadlocks@.len() == 0),
                );
                match found {
                    Some(p) => {
                        let mut c: Vec<u128> = Vec::new();
                        c.push(p.0);
                        c.push(p.1);
                        deadlocks.push(c);
                    },
                    None => {
                        proof {
                            if deadlocks@.len() == 0 {
                                fin = fin2;
                                assert forall|j: int| 0 <= j < i + 1 implies #[trigger] fin.contains(self.graph()[j].0) by {
                                    if j < i {
                                        assert(fin_before.contains(self.graph()[j].0));
                                    }
                                }
                            }
                        }
                    },
                }
            } else {
                proof {
                    if deadlocks@.len() == 0 {
                        assert(fin.contains(node));
                    }
                }
            }
            i = i + 1;
        }
        proof {
            if deadlocks@.len() == 0 {
                lemma_ordered_finish_acyclic(self.graph(), fin);
            }
        }
        deadlocks
    }
}

/// Takes `u` out of a list that holds it at most once.
fn remove_id(s: &mut Vec<u128>, u: u128)
    requires
        old(s)@.no_duplicates(),
    ensures
        final(s)@.no_duplicates(),
        !final(s)@.contains(u),
        forall|x: u128| x != u ==> (#[trigger] final(s)@.contains(x) <==> old(s)@.contains(x)),
        old(s)@.len() > 0 && old(s)@.last() == u ==> final(s)@ == old(s)@.drop_last(),
{
    let mut i: usize = 0;
    while i < s.len()
        invariant
            i <= s@.len(),
            s@ == old(s)@,
            old(s)@.no_duplicates(),
            forall|j: int| 0 <= j < i ==> s@[j] != u,
        decreases s@.len() - i,
    {
        if s[i] == u {
            let ghost before = s@;
            s.remove(i);
            proof {
                assert forall|x: u128| x != u implies (#[trigger] s@.contains(x) <==> before.contains(x)) by {
                    if before.contains(x) {
                        let j = choose|j: int| 0 <= j < before.len() && before[j] == x;
                        if j < i {
                            assert(s@[j] == x);
                        } else {
                            assert(j != i);
                            assert(s@[j - 1] == x);
                        }
                    }
                    if s@.contains(x) {
                        let j = choose|j: int| 0 <= j < s@.len() && s@[j] == x;
                        if j < i {
                            assert(before[j] == x);
                        } else {
                            assert(before[j + 1] == x);
                        }
                    }
                }
                assert(!s@.contains(u)) by {
                    if s@.contains(u) {
                        let j = choose|j: int| 0 <= j < s@.len() && s@[j] == u;
                        if j < i {
                            assert(before[j] == u);
                        } else {
                            assert(before[j + 1] == u);
                            assert(before[i as int] == u);
                        }
                    }
                }
                assert forall|a: int, b: int| 0 <= a < s@.len() && 0 <= b < s@.len() && a != b implies s@[a] != s@[b] by {
                    let aa = if a < i { a } else { a + 1 };
                    let bb = if b < i { b } else { b + 1 };
                    assert(s@[a] == before[aa] && s@[b] == before[bb]);
                }
                if before.last() == u {
                    assert(before[before.len() - 1] == before[i as int]);
                    assert(s@ =~= before.drop_last());
                }
            }
            return;
        }
        i = i + 1;
    }
}

} // verus!
