//! Resilience patterns: bulkheads that bound concurrent work, backoff and
//! retry decisions, and a small service mesh that picks healthy endpoints.
//!
//! Durations are milliseconds.  Rates and thresholds are whole percents.
//! Running the guarded operations (awaiting, sleeping, waiting for a
//! permit) is the caller's part; the decisions around them are here.

use crate::errors::{error_display, AppError};
use crate::keyed::{has_key, key_position, upserted, value_of, KeyedTable};
use crate::text::{contains_text, decimal, lowercase};
use vstd::prelude::*;

verus! {

/// Settings of a bulkhead pool.
#[derive(Debug, Clone, Copy, PartialEq, Eq, Structural)]
pub struct BulkheadConfig {
    pub max_concurrent_requests: usize,
    pub queue_size: usize,
    /// Milliseconds to wait for a permit.
    pub timeout: u64,
    /// Utilization, in percent, from which requests are refused.
    pub rejection_threshold: u64,
}

impl BulkheadConfig {
    /// Ten concurrent requests, a queue of 100, 30 s to get a permit,
    /// refusal from 80% utilization.
    pub fn default_config() -> (c: Self)
        ensures
            c == (BulkheadConfig { max_concurrent_requests: 10, queue_size: 100, timeout: 30000, rejection_threshold: 80 }),
    {
        BulkheadConfig { max_concurrent_requests: 10, queue_size: 100, timeout: 30000, rejection_threshold: 80 }
    }
}

/// Counters of a bulkhead pool; durations in milliseconds.
#[derive(Debug, Clone, Copy, PartialEq, Eq, Structural)]
pub struct BulkheadStats {
    pub active_requests: usize,
    pub total_requests: usize,
    pub completed_requests: usize,
    pub failed_requests: usize,
    pub rejected_requests: usize,
    pub total_duration: u64,
    pub average_duration: u64,
}

impl BulkheadStats {
    /// All counters at zero.
    pub fn zero() -> (s: Self)
        ensures
            s == (BulkheadStats {
                active_requests: 0,
                total_requests: 0,
                completed_requests: 0,
                failed_requests: 0,
                rejected_requests: 0,
                total_duration: 0,
                average_duration: 0,
            }),
    {
        BulkheadStats {
            active_requests: 0,
            total_requests: 0,
            completed_requests: 0,
            failed_requests: 0,
            rejected_requests: 0,
            total_duration: 0,
            average_duration: 0,
        }
    }

    /// Sets the average duration to the total duration over the finished
    /// requests, their number taken as a `u32`; with none finished the
    /// average stays.
    pub fn update_average_duration(&mut self)
        requires
            old(self).completed_requests + old(self).failed_requests <= usize::MAX,
            old(self).completed_requests + old(self).failed_requests > 0 ==> ((old(self).completed_requests
                + old(self).failed_requests) as u32) != 0,
        ensures
            old(self).completed_requests + old(self).failed_requests == 0 ==> *final(self) == *old(self),
            old(self).completed_requests + old(self).failed_requests > 0 ==> *final(self) == (BulkheadStats {
                average_duration: (old(self).total_duration / (((old(self).completed_requests
                    + old(self).failed_requests) as u32) as u64)) as u64,
                ..*old(self)
            }),
    {
        let total_processed = self.completed_requests + self.failed_requests;
        if total_processed > 0 {
            let n = total_processed as u32;
            self.average_duration = self.total_duration / (n as u64);
        }
    }

    /// Share of finished requests that completed, in whole percent; 0
    /// with none finished.
    pub fn success_rate(&self) -> (p: u64)
        requires
            self.completed_requests + self.failed_requests <= usize::MAX,
        ensures
            self.completed_requests + self.failed_requests == 0 ==> p == 0,
            self.completed_requests + self.failed_requests > 0 ==> p == self.completed_requests * 100 / ((
            self.completed_requests + self.failed_requests) as int),
    {
        let total = self.completed_requests + self.failed_requests;
        if total == 0 {
            0
        } else {
            proof {
                assert(self.completed_requests * 100 / (total as int) <= 100) by (nonlinear_arith)
                    requires
                        self.completed_requests <= total,
                        total > 0,
                ;
            }
            (self.completed_requests as u128 * 100 / total as u128) as u64
        }
    }

    /// Share of requests refused, in whole percent of all requests let
    /// through; 0 with none let through.
    pub fn rejection_rate(&self) -> (p: u128)
        ensures
            self.total_requests == 0 ==> p == 0,
            self.total_requests > 0 ==> p == self.rejected_requests * 100 / (self.total_requests as int),
    {
        if self.total_requests == 0 {
            0
        } else {
            proof {
                assert(self.rejected_requests * 100 / self.total_requests as int <= self.rejected_requests * 100) by (
                nonlinear_arith)
                    requires
                        self.total_requests > 0,
                ;
            }
            self.rejected_requests as u128 * 100 / self.total_requests as u128
        }
    }
}

/// Whether a pool with `active` running requests out of `max` refuses a
/// new one at threshold `threshold` percent.  An empty pool of no capacity
/// has no defined utilization and refuses nothing.
pub open spec fn refuses(active: nat, max: nat, threshold: nat) -> bool {
    if max == 0 {
        active > 0
    } else {
        active * 100 >= threshold * max
    }
}

/// A pool of some capacity refuses a new request exactly when its
/// utilization, in whole percent, has reached the rejection threshold.
pub proof fn lemma_threshold_decides_admission(active: nat, max: nat, threshold: nat)
    requires
        max > 0,
    ensures
        refuses(active, max, threshold) <==> active * 100 / max >= threshold,
        refuses(0, max, threshold) <==> threshold == 0,
{
    let x = (active * 100) as int;
    let m = max as int;
    let t = threshold as int;
    vstd::arithmetic::div_mod::lemma_fundamental_div_mod(x, m);
    vstd::arithmetic::div_mod::lemma_mod_bound(x, m);
    let q = x / m;
    assert(t > 0 ==> t * m > 0) by (nonlinear_arith)
        requires
            m > 0,
            t >= 0,
    ;
    if x >= t * m {
        assert(q >= t) by (nonlinear_arith)
            requires
                x == m * q + x % m,
                0 <= x % m < m,
                x >= t * m,
                m > 0,
        ;
    } else {
        assert(q < t) by (nonlinear_arith)
            requires
                x == m * q + x % m,
                0 <= x % m < m,
                x < t * m,
                m > 0,
        ;
    }
}

/// A pool of no capacity has no utilization: it refuses a request exactly
/// when a request is running.
pub proof fn lemma_no_capacity_refuses_when_busy(active: nat, threshold: nat)
    ensures
        refuses(active, 0, threshold) <==> active > 0,
{
}

/// A bounded pool of concurrent work.
pub struct ResourcePool {
    config: BulkheadConfig,
    stats: BulkheadStats,
}

impl ResourcePool {
    /// The settings.
    pub closed spec fn settings(&self) -> BulkheadConfig {
        self.config
    }

    /// The counters.
    pub closed spec fn counters(&self) -> BulkheadStats {
        self.stats
    }

    /// A pool with no request yet.
    pub fn new(config: BulkheadConfig) -> (p: Self)
        ensures
            p.settings() == config,
            p.counters() == BulkheadStats::zero_spec(),
    {
        ResourcePool { config, stats: BulkheadStats::zero() }
    }

    /// The counters.
    pub fn get_stats(&self) -> (s: BulkheadStats)
        ensures
            s == self.counters(),
    {
        self.stats
    }

    /// Decides whether a request may wait for a permit: a pool at or above
    /// its rejection threshold refuses it with `ExternalServiceError` and
    /// counts the refusal.
    pub fn try_admit(&mut self) -> (r: Result<(), AppError>)
        requires
            old(self).counters().rejected_requests < usize::MAX,
        ensures
            final(self).settings() == old(self).settings(),
            refuses(
                old(self).counters().active_requests as nat,
                old(self).settings().max_concurrent_requests as nat,
                old(self).settings().rejection_threshold as nat,
            ) ==> {
                &&& (r matches Err(AppError::ExternalServiceError(m)) && m@
                    == "Resource pool at capacity, request rejected"@)
                &&& final(self).counters() == (BulkheadStats {
                    rejected_requests: (old(self).counters().rejected_requests + 1) as usize,
                    ..old(self).counters()
                })
            },
            !refuses(
                old(self).counters().active_requests as nat,
                old(self).settings().max_concurrent_requests as nat,
                old(self).settings().rejection_threshold as nat,
            ) ==> r is Ok && final(self).counters() == old(self).counters(),
    {
        let active = self.stats.active_requests as u128;
        let max = self.config.max_concurrent_requests as u128;
        proof {
            assert(self.config.rejection_threshold as u128 * max <= 0xffff_ffff_ffff_ffffu128 * 0xffff_ffff_ffff_ffffu128) by (nonlinear_arith)
                requires
                    self.config.rejection_threshold <= 0xffff_ffff_ffff_ffffu64,
                    max <= 0xffff_ffff_ffff_ffffu128,
            ;
        }
        let refused = if max == 0 {
            active > 0
        } else {
            active * 100 >= self.config.rejection_threshold as u128 * max
        };
        if refused {
            self.stats.rejected_requests = self.stats.rejected_requests + 1;
            Err(AppError::ExternalServiceError(String::from_str("Resource pool at capacity, request rejected")))
        } else {
            Ok(())
        }
    }

    /// Counts a request that got its permit and starts.
    pub fn start_request(&mut self)
        requires
            old(self).counters().active_requests < usize::MAX,
            old(self).counters().total_requests < usize::MAX,
        ensures
            final(self).settings() == old(self).settings(),
            final(self).counters() == (BulkheadStats {
                active_requests: (old(self).counters().active_requests + 1) as usize,
                total_requests: (old(self).counters().total_requests + 1) as usize,
                ..old(self).counters()
            }),
    {
        self.stats.active_requests = self.stats.active_requests + 1;
        self.stats.total_requests = self.stats.total_requests + 1;
    }

    /// Counts a request that finished after `duration` milliseconds, as
    /// completed or failed, and updates the average duration.
    pub fn finish_request(&mut self, succeeded: bool, duration: u64)
        requires
            old(self).counters().completed_requests + old(self).counters().failed_requests < usize::MAX,
            old(self).counters().completed_requests + old(self).counters().failed_requests + 1 <= u32::MAX,
            old(self).counters().total_duration + duration <= u64::MAX,
        ensures
            final(self).settings() == old(self).settings(),
            ({
                let s = old(self).counters();
                let completed: usize = if succeeded { (s.completed_requests + 1) as usize } else { s.completed_requests };
                let failed: usize = if succeeded { s.failed_requests } else { (s.failed_requests + 1) as usize };
                let total = (s.total_duration + duration) as u64;
                final(self).counters() == BulkheadStats {
                    active_requests: if s.active_requests > 0 { (s.active_requests - 1) as usize } else { 0 },
                    completed_requests: completed,
                    failed_requests: failed,
                    total_duration: total,
                    average_duration: (total / ((completed + failed) as u64)) as u64,
                    ..s
                }
            }),
    {
        self.stats.active_requests = if self.stats.active_requests > 0 {
            self.stats.active_requests - 1
        } else {
            0
        };
        if succeeded {
            self.stats.completed_requests = self.stats.completed_requests + 1;
        } else {
            self.stats.failed_requests = self.stats.failed_requests + 1;
        }
        self.stats.total_duration = self.stats.total_duration + duration;
        self.stats.update_average_duration();
    }
}

impl BulkheadStats {
    /// All counters at zero, as a value.
    pub open spec fn zero_spec() -> BulkheadStats {
        BulkheadStats {
            active_requests: 0,
            total_requests: 0,
            completed_requests: 0,
            failed_requests: 0,
            rejected_requests: 0,
            total_duration: 0,
            average_duration: 0,
        }
    }
}

/// Named bulkhead pools.
pub struct BulkheadManager {
    pools: KeyedTable<ResourcePool>,
}

impl BulkheadManager {
    /// The pools by name.
    pub closed spec fn pools(&self) -> Seq<(String, ResourcePool)> {
        self.pools.entries()
    }

    /// One pool per name.
    pub closed spec fn well_formed(&self) -> bool {
        self.pools.well_formed()
    }

    /// No pool.
    pub fn new() -> (m: Self)
        ensures
            m.well_formed(),
            m.pools().len() == 0,
    {
        BulkheadManager { pools: KeyedTable::new() }
    }

    /// Makes a fresh pool `name` with `config`, replacing one of that name.
    pub fn create_pool(&mut self, name: String, config: BulkheadConfig) -> (r: Result<(), AppError>)
        requires
            old(self).well_formed(),
        ensures
            r is Ok,
            final(self).well_formed(),
            has_key(final(self).pools(), name@),
            value_of(final(self).pools(), name@).settings() == config,
            value_of(final(self).pools(), name@).counters() == BulkheadStats::zero_spec(),
    {
        let p = ResourcePool::new(config);
        proof {
            crate::keyed::lemma_upserted_unique(self.pools.entries(), name, p);
        }
        self.pools.insert(name, p);
        Ok(())
    }

    /// The error for a missing pool.
    fn missing(name: &String) -> (e: AppError)
        ensures
            e matches AppError::DependencyNotFound { service } && service@ == "Bulkhead pool not found: "@ + name@,
    {
        let mut m = String::from_str("Bulkhead pool not found: ");
        m.append(name.as_str());
        AppError::DependencyNotFound { service: m }
    }

    /// Pool `name`; an unknown pool is refused with `DependencyNotFound`.
    pub fn get_pool(&self, name: &String) -> (r: Result<&ResourcePool, AppError>)
        requires
            self.well_formed(),
        ensures
            has_key(self.pools(), name@) ==> (r matches Ok(p) && *p == value_of(self.pools(), name@)),
            !has_key(self.pools(), name@) ==> (r matches Err(AppError::DependencyNotFound { service }) && service@
                == "Bulkhead pool not found: "@ + name@),
    {
        match self.pools.get(name) {
            Some(p) => Ok(p),
            None => Err(Self::missing(name)),
        }
    }

    /// The counters of pool `name`; an unknown pool is refused with
    /// `DependencyNotFound`.
    pub fn get_pool_stats(&self, name: &String) -> (r: Result<BulkheadStats, AppError>)
        requires
            self.well_formed(),
        ensures
            has_key(self.pools(), name@) ==> r == Ok::<BulkheadStats, AppError>(
                value_of(self.pools(), name@).counters(),
            ),
            !has_key(self.pools(), name@) ==> (r matches Err(AppError::DependencyNotFound { service }) && service@
                == "Bulkhead pool not found: "@ + name@),
    {
        match self.pools.get(name) {
            Some(p) => Ok(p.get_stats()),
            None => Err(Self::missing(name)),
        }
    }

    /// Applies the admission check of pool `name`.
    pub fn try_admit(&mut self, name: &String) -> (r: Result<(), AppError>)
        requires
            old(self).well_formed(),
            has_key(old(self).pools(), name@) ==> value_of(old(self).pools(), name@).counters().rejected_requests
                < usize::MAX,
        ensures
            final(self).well_formed(),
            !has_key(old(self).pools(), name@) ==> (r matches Err(AppError::DependencyNotFound { service }) && service@
                == "Bulkhead pool not found: "@ + name@) && final(self).pools() == old(self).pools(),
            has_key(old(self).pools(), name@) ==> {
                let p = value_of(old(self).pools(), name@);
                &&& has_key(final(self).pools(), name@)
                &&& (r is Ok <==> !refuses(
                    p.counters().active_requests as nat,
                    p.settings().max_concurrent_requests as nat,
                    p.settings().rejection_threshold as nat,
                ))
            },
    {
        match self.pools.find(name) {
            None => Err(Self::missing(name)),
            Some(i) => {
                let p = self.pools.value_mut_at(i);
                let r = p.try_admit();
                proof {
                    crate::keyed::lemma_key_position(self.pools.entries(), name@, i as int);
                }
                r
            },
        }
    }

    /// Counts a request of pool `name` that got its permit and starts; an
    /// unknown pool is refused with `DependencyNotFound`.
    pub fn start_request(&mut self, name: &String) -> (r: Result<(), AppError>)
        requires
            old(self).well_formed(),
            has_key(old(self).pools(), name@) ==> value_of(old(self).pools(), name@).counters().active_requests
                < usize::MAX && value_of(old(self).pools(), name@).counters().total_requests < usize::MAX,
        ensures
            final(self).well_formed(),
            !has_key(old(self).pools(), name@) ==> (r matches Err(AppError::DependencyNotFound { service }) && service@
                == "Bulkhead pool not found: "@ + name@) && final(self).pools() == old(self).pools(),
            has_key(old(self).pools(), name@) ==> {
                let pos = key_position(old(self).pools(), name@);
                let before = old(self).pools()[pos].1;
                let after = final(self).pools()[pos].1;
                &&& r is Ok
                &&& final(self).pools() == old(self).pools().update(pos, (old(self).pools()[pos].0, after))
                &&& after.settings() == before.settings()
                &&& after.counters() == (BulkheadStats {
                    active_requests: (before.counters().active_requests + 1) as usize,
                    total_requests: (before.counters().total_requests + 1) as usize,
                    ..before.counters()
                })
            },
    {
        match self.pools.find(name) {
            None => Err(Self::missing(name)),
            Some(i) => {
                proof {
                    crate::keyed::lemma_key_position(self.pools.entries(), name@, i as int);
                }
                let p = self.pools.value_mut_at(i);
                p.start_request();
                Ok(())
            },
        }
    }

    /// Counts a request of pool `name` that finished after `duration`
    /// milliseconds, as completed or failed; an unknown pool is refused
    /// with `DependencyNotFound`.
    pub fn finish_request(&mut self, name: &String, succeeded: bool, duration: u64) -> (r: Result<(), AppError>)
        requires
            old(self).well_formed(),
            has_key(old(self).pools(), name@) ==> {
                let c = value_of(old(self).pools(), name@).counters();
                &&& c.completed_requests + c.failed_requests < usize::MAX
                &&& c.completed_requests + c.failed_requests + 1 <= u32::MAX
                &&& c.total_duration + duration <= u64::MAX
            },
        ensures
            final(self).well_formed(),
            !has_key(old(self).pools(), name@) ==> (r matches Err(AppError::DependencyNotFound { service }) && service@
                == "Bulkhead pool not found: "@ + name@) && final(self).pools() == old(self).pools(),
            has_key(old(self).pools(), name@) ==> {
                let pos = key_position(old(self).pools(), name@);
                let before = old(self).pools()[pos].1;
                let after = final(self).pools()[pos].1;
                let s = before.counters();
                let completed: usize = if succeeded { (s.completed_requests + 1) as usize } else { s.completed_requests };
                let failed: usize = if succeeded { s.failed_requests } else { (s.failed_requests + 1) as usize };
                let total = (s.total_duration + duration) as u64;
                &&& r is Ok
                &&& final(self).pools() == old(self).pools().update(pos, (old(self).pools()[pos].0, after))
                &&& after.settings() == before.settings()
                &&& after.counters() == (BulkheadStats {
                    active_requests: if s.active_requests > 0 { (s.active_requests - 1) as usize } else { 0 },
                    completed_requests: completed,
                    failed_requests: failed,
                    total_duration: total,
                    average_duration: (total / ((completed + failed) as u64)) as u64,
                    ..s
                })
            },
    {
        match self.pools.find(name) {
            None => Err(Self::missing(name)),
            Some(i) => {
                proof {
                    crate::keyed::lemma_key_position(self.pools.entries(), name@, i as int);
                }
                let p = self.pools.value_mut_at(i);
                p.finish_request(succeeded, duration);
                Ok(())
            },
        }
    }

    /// The pool names, in order of creation.
    pub fn list_pools(&self) -> (v: Vec<String>)
        ensures
            v@.len() == self.pools().len(),
            forall|i: int| 0 <= i < v@.len() ==> #[trigger] v@[i] == self.pools()[i].0,
    {
        let mut out: Vec<String> = Vec::new();
        let mut i: usize = 0;
        while i < self.pools.len()
            invariant
                i <= self.pools().len(),
                out@.len() == i,
                forall|j: int| 0 <= j < i ==> #[trigger] out@[j] == self.pools()[j].0,
            decreases self.pools().len() - i,
        {
            out.push(self.pools.entry_at(i).0.clone());
            i = i + 1;
        }
        out
    }
}

/// How the delay between attempts grows; milliseconds.
#[derive(Debug, Clone, Copy, PartialEq, Eq, Structural)]
pub enum BackoffStrategy {
    Fixed(u64),
    Linear { base: u64, increment: u64 },
    Exponential { base: u64, multiplier: u64, max: u64 },
    /// As exponential, lengthened by a random share of up to
    /// `jitter_factor` percent.
    ExponentialWithJitter { base: u64, multiplier: u64, max: u64, jitter_factor: u64 },
}

/// `n`, held at `max`.
pub open spec fn at_most(n: nat, max: nat) -> nat {
    if n <= max {
        n
    } else {
        max
    }
}

/// Exponential delay of attempt `attempt`, held at `max`.
pub open spec fn exponential_delay(base: nat, multiplier: nat, max: nat, attempt: nat) -> nat {
    at_most(base * crate::idempotent_jobs::power(multiplier, attempt), max)
}

/// The delay for `attempt` lengthened by a draw `u` of 0..1000
/// thousandths of `jitter_factor` percent, held at `max`.
pub open spec fn jittered_delay(base_delay: nat, jitter_factor: nat, u: nat, max: nat) -> nat {
    at_most(base_delay + base_delay * jitter_factor * u / 100000, max)
}

/// No exponential delay, with or without jitter, exceeds the maximum.
pub proof fn lemma_backoff_never_exceeds_max(base: nat, multiplier: nat, max: nat, attempt: nat, jitter_factor: nat, u: nat)
    ensures
        exponential_delay(base, multiplier, max, attempt) <= max,
        jittered_delay(exponential_delay(base, multiplier, max, attempt), jitter_factor, u, max) <= max,
{
}

/// `min(base * multiplier^attempt, max)` without overflow.
pub fn exponential_delay_ms(base: u64, multiplier: u64, max: u64, attempt: u32) -> (d: u64)
    ensures
        d == exponential_delay(base as nat, multiplier as nat, max as nat, attempt as nat),
{
    let ghost p = crate::idempotent_jobs::power(multiplier as nat, attempt as nat);
    if base == 0 {
        proof {
            assert(0 * p == 0) by (nonlinear_arith);
        }
        return 0;
    }
    let cap = max / base;
    if cap == u64::MAX {
        let q = crate::idempotent_jobs::capped_power(multiplier, attempt, u64::MAX);
        proof {
            assert(base == 1) by (nonlinear_arith)
                requires
                    max / base == u64::MAX,
                    base >= 1,
                    max <= u64::MAX,
            ;
            assert(max == u64::MAX) by (nonlinear_arith)
                requires
                    max / base == u64::MAX,
                    base == 1,
            ;
        }
        return q;
    }
    let q = crate::idempotent_jobs::capped_power(multiplier, attempt, cap + 1);
    if q > cap {
        proof {
            assert(base * p > max) by (nonlinear_arith)
                requires
                    p >= cap + 1,
                    cap == max / base,
                    base >= 1,
            ;
        }
        max
    } else {
        proof {
            assert(q == p);
            assert(base * p <= max) by (nonlinear_arith)
                requires
                    p <= cap,
                    cap == max / base,
                    base >= 1,
            ;
        }
        base * q
    }
}

/// The exponential delay lengthened by draw `u` (thousandths, below
/// 1000) of `jitter_factor` percent, held at `max`.
pub fn jittered_delay_ms(base_delay: u64, jitter_factor: u64, u: u64, max: u64) -> (d: u64)
    requires
        u < 1000,
    ensures
        d == jittered_delay(base_delay as nat, jitter_factor as nat, u as nat, max as nat),
{
    let bd = base_delay as u128;
    let j = jitter_factor as u128;
    proof {
        assert(bd * j <= 0xffff_ffff_ffff_ffffu128 * 0xffff_ffff_ffff_ffffu128) by (nonlinear_arith)
            requires
                bd <= 0xffff_ffff_ffff_ffffu128,
                j <= 0xffff_ffff_ffff_ffffu128,
        ;
    }
    let p = bd * j;
    match p.checked_mul(u as u128) {
        None => {
            proof {
                assert(p == bd * jitter_factor);
                let prod = bd * jitter_factor * u;
                assert(prod == p * u);
                assert(p * u > u128::MAX);
                assert(prod / 100000 > u64::MAX) by (nonlinear_arith)
                    requires
                        prod > u128::MAX,
                ;
            }
            max
        },
        Some(q) => {
            proof {
                assert(p == bd * jitter_factor);
                assert(q == bd * jitter_factor * u);
            }
            let extra: u128 = q / 100000;
            proof {
                assert(extra <= u128::MAX / 100000) by (nonlinear_arith)
                    requires
                        extra == q / 100000,
                        q <= u128::MAX,
                ;
            }
            let total: u128 = bd + extra;
            if total <= max as u128 {
                total as u64
            } else {
                max
            }
        },
    }
}

impl BackoffStrategy {
    /// Delay before retrying after attempt `attempt` (counted from 0), for
    /// strategies without chance.
    pub open spec fn delay_spec(self, attempt: nat) -> nat {
        match self {
            BackoffStrategy::Fixed(d) => d as nat,
            BackoffStrategy::Linear { base, increment } => (base + increment * attempt) as nat,
            BackoffStrategy::Exponential { base, multiplier, max } => exponential_delay(
                base as nat,
                multiplier as nat,
                max as nat,
                attempt,
            ),
            BackoffStrategy::ExponentialWithJitter { base, multiplier, max, .. } => exponential_delay(
                base as nat,
                multiplier as nat,
                max as nat,
                attempt,
            ),
        }
    }

    /// Delay in milliseconds before retrying after attempt `attempt`:
    /// fixed; base plus `attempt` increments; base times
    /// `multiplier^attempt` held at the maximum; or that lengthened by a
    /// random share of up to the jitter factor, held at the maximum.
    pub fn calculate_delay(&self, attempt: u32) -> (d: u64)
        requires
            self is Linear ==> self->Linear_base + self->Linear_increment * attempt <= u64::MAX,
        ensures
            !(self is ExponentialWithJitter) ==> d == self.delay_spec(attempt as nat),
            self matches BackoffStrategy::ExponentialWithJitter { base, multiplier, max, jitter_factor } ==> exists|
                u: nat,
            |
                u < 1000 && d == #[trigger] jittered_delay(
                    exponential_delay(base as nat, multiplier as nat, max as nat, attempt as nat),
                    jitter_factor as nat,
                    u,
                    max as nat,
                ),
    {
        match self {
            BackoffStrategy::Fixed(d) => *d,
            BackoffStrategy::Linear { base, increment } => {
                proof {
                    assert(*increment * attempt >= 0) by (nonlinear_arith);
                }
                *base + *increment * (attempt as u64)
            },
            BackoffStrategy::Exponential { base, multiplier, max } => exponential_delay_ms(
                *base,
                *multiplier,
                *max,
                attempt,
            ),
            BackoffStrategy::ExponentialWithJitter { base, multiplier, max, jitter_factor } => {
                let bd = exponential_delay_ms(*base, *multiplier, *max, attempt);
                let u = crate::platform::random_index(1000) as u64;
                jittered_delay_ms(bd, *jitter_factor, u, *max)
            },
        }
    }

    /// 100 ms doubled at each attempt up to 30 s, with up to 10% jitter.
    pub fn default_strategy() -> (s: Self)
        ensures
            s == (BackoffStrategy::ExponentialWithJitter { base: 100, multiplier: 2, max: 30000, jitter_factor: 10 }),
    {
        BackoffStrategy::ExponentialWithJitter { base: 100, multiplier: 2, max: 30000, jitter_factor: 10 }
    }
}

/// Decides whether a failed operation is worth another attempt.
pub trait RetryCondition {
    /// Whether errors like `error` are retried.
    spec fn retries(&self, error: AppError) -> bool;

    /// Whether `error` is worth another attempt.
    fn should_retry(&self, error: &AppError) -> (b: bool)
        ensures
            b == self.retries(*error),
    ;
}

/// Retries failures of outside services, the database and the server.
pub struct TransientErrorCondition;

impl RetryCondition for TransientErrorCondition {
    open spec fn retries(&self, error: AppError) -> bool {
        error is ExternalServiceError || error is DatabaseError || error is InternalServerError
    }

    fn should_retry(&self, error: &AppError) -> (b: bool) {
        match error {
            AppError::ExternalServiceError(_) | AppError::DatabaseError(_) | AppError::InternalServerError(_) => true,
            _ => false,
        }
    }
}

/// Retries errors whose text mentions a timeout, in any case.
pub struct TimeoutErrorCondition;

impl RetryCondition for TimeoutErrorCondition {
    open spec fn retries(&self, error: AppError) -> bool {
        contains_text(lowercase(error_display(error)), "timeout"@)
    }

    fn should_retry(&self, error: &AppError) -> (b: bool) {
        let text = crate::errors::error_string(error);
        proof {
            reveal_strlit("timeout");
            reveal_strlit("TIMEOUT");
        }
        crate::text::contains_ignoring_case(text.as_str(), "timeout", "TIMEOUT")
    }
}

/// The conditions a retry manager can hold.
#[derive(Debug, Clone, Copy, PartialEq, Eq, Structural)]
pub enum RetryConditionKind {
    TransientErrors,
    TimeoutErrors,
}

/// Whether a condition of kind `k` retries `error`.
pub open spec fn kind_retries(k: RetryConditionKind, error: AppError) -> bool {
    match k {
        RetryConditionKind::TransientErrors => TransientErrorCondition.retries(error),
        RetryConditionKind::TimeoutErrors => TimeoutErrorCondition.retries(error),
    }
}

impl RetryConditionKind {
    /// Whether this condition retries `error`.
    pub fn should_retry(&self, error: &AppError) -> (b: bool)
        ensures
            b == kind_retries(*self, *error),
    {
        match self {
            RetryConditionKind::TransientErrors => TransientErrorCondition.should_retry(error),
            RetryConditionKind::TimeoutErrors => TimeoutErrorCondition.should_retry(error),
        }
    }
}

/// Retries with backoff, for the errors its conditions accept.
pub struct RetryManager {
    strategy: BackoffStrategy,
    max_attempts: u32,
    retry_conditions: Vec<RetryConditionKind>,
}

impl RetryManager {
    /// The backoff.
    pub closed spec fn backoff(&self) -> BackoffStrategy {
        self.strategy
    }

    /// Attempts allowed.
    pub closed spec fn attempts(&self) -> u32 {
        self.max_attempts
    }

    /// The conditions, in the order they were added.
    pub closed spec fn conditions(&self) -> Seq<RetryConditionKind> {
        self.retry_conditions@
    }

    /// Whether some condition retries `error`.
    pub open spec fn accepts(&self, error: AppError) -> bool {
        exists|i: int| 0 <= i < self.conditions().len() && #[trigger] kind_retries(self.conditions()[i], error)
    }

    /// A manager with `strategy`, `max_attempts` attempts and no condition.
    pub fn new(strategy: BackoffStrategy, max_attempts: u32) -> (m: Self)
        ensures
            m.backoff() == strategy,
            m.attempts() == max_attempts,
            m.conditions().len() == 0,
    {
        RetryManager { strategy, max_attempts, retry_conditions: Vec::new() }
    }

    /// The manager with one more condition.
    pub fn with_condition(self, condition: RetryConditionKind) -> (m: Self)
        ensures
            m.backoff() == self.backoff(),
            m.attempts() == self.attempts(),
            m.conditions() == self.conditions().push(condition),
    {
        let mut m = self;
        m.retry_conditions.push(condition);
        m
    }

    /// The manager that also retries transient errors: failures of outside
    /// services, of the database and of the server.
    pub fn with_transient_errors(self) -> (m: Self)
        ensures
            m.backoff() == self.backoff(),
            m.attempts() == self.attempts(),
            m.conditions() == self.conditions().push(RetryConditionKind::TransientErrors),
    {
        self.with_condition(RetryConditionKind::TransientErrors)
    }

    /// The manager that also retries errors whose text mentions a timeout.
    pub fn with_timeout_errors(self) -> (m: Self)
        ensures
            m.backoff() == self.backoff(),
            m.attempts() == self.attempts(),
            m.conditions() == self.conditions().push(RetryConditionKind::TimeoutErrors),
    {
        self.with_condition(RetryConditionKind::TimeoutErrors)
    }

    /// Whether attempt `attempt` (counted from 0) that failed with `error`
    /// is retried: never at the last attempt; otherwise always without
    /// conditions, else when some condition accepts the error.
    pub fn should_retry(&self, error: &AppError, attempt: u32) -> (b: bool)
        requires
            self.attempts() > 0,
        ensures
            b == (attempt < self.attempts() - 1 && (self.conditions().len() == 0 || self.accepts(*error))),
    {
        if attempt >= self.max_attempts - 1 {
            return false;
        }
        if self.retry_conditions.len() == 0 {
            return true;
        }
        let mut i: usize = 0;
        while i < self.retry_conditions.len()
            invariant
                i <= self.retry_conditions@.len(),
                forall|j: int| 0 <= j < i ==> !(#[trigger] kind_retries(self.retry_conditions@[j], *error)),
                attempt < self.attempts() - 1,
            decreases self.retry_conditions@.len() - i,
        {
            if self.retry_conditions[i].should_retry(error) {
                proof {
                    assert(kind_retries(self.conditions()[i as int], *error));
                }
                return true;
            }
            i = i + 1;
        }
        false
    }

    /// What follows a failure of attempt `attempt` with `error`: the delay
    /// before the next attempt, or nothing when the error is final.
    pub fn retry_delay_after(&self, error: &AppError, attempt: u32) -> (d: Option<u64>)
        requires
            self.attempts() > 0,
            self.backoff() is Linear ==> self.backoff()->Linear_base + self.backoff()->Linear_increment * attempt
                <= u64::MAX,
        ensures
            d is Some <==> (attempt < self.attempts() - 1 && (self.conditions().len() == 0 || self.accepts(*error))),
            d is Some && !(self.backoff() is ExponentialWithJitter) ==> d->0 == self.backoff().delay_spec(
                attempt as nat,
            ),
    {
        if self.should_retry(error, attempt) {
            Some(self.strategy.calculate_delay(attempt))
        } else {
            None
        }
    }
}

/// Finding services.
#[derive(Debug, Clone)]
pub struct ServiceDiscoveryConfig {
    pub registry_url: Option<String>,
    /// Milliseconds between refreshes.
    pub refresh_interval: u64,
    /// Milliseconds a cached answer lives.
    pub cache_ttl: u64,
}

impl ServiceDiscoveryConfig {
    /// No registry, refresh every 30 s, cache for 5 min.
    pub fn default_config() -> (c: Self)
        ensures
            c.registry_url is None,
            c.refresh_interval == 30000,
            c.cache_ttl == 300000,
    {
        ServiceDiscoveryConfig { registry_url: None, refresh_interval: 30000, cache_ttl: 300000 }
    }
}

/// How an endpoint is chosen among healthy ones.
#[derive(Debug, Clone, Copy, PartialEq, Eq, Structural)]
pub enum LoadBalancingStrategy {
    RoundRobin,
    LeastConnections,
    WeightedRoundRobin,
    Random,
}

/// Balancing between endpoints.
#[derive(Debug, Clone, Copy, PartialEq, Eq, Structural)]
pub struct LoadBalancingConfig {
    pub strategy: LoadBalancingStrategy,
    pub health_check_enabled: bool,
}

impl LoadBalancingConfig {
    /// Round robin over healthy endpoints.
    pub fn default_config() -> (c: Self)
        ensures
            c == (LoadBalancingConfig { strategy: LoadBalancingStrategy::RoundRobin, health_check_enabled: true }),
    {
        LoadBalancingConfig { strategy: LoadBalancingStrategy::RoundRobin, health_check_enabled: true }
    }
}

/// Checking endpoints; durations in milliseconds.
#[derive(Debug, Clone, Copy, PartialEq, Eq, Structural)]
pub struct HealthCheckConfig {
    pub enabled: bool,
    pub interval: u64,
    pub timeout: u64,
    pub unhealthy_threshold: u32,
    pub healthy_threshold: u32,
}

impl HealthCheckConfig {
    /// Checks every 10 s with a 5 s timeout; unhealthy after 3 failures,
    /// healthy after 2 successes.
    pub fn default_config() -> (c: Self)
        ensures
            c == (HealthCheckConfig {
                enabled: true,
                interval: 10000,
                timeout: 5000,
                unhealthy_threshold: 3,
                healthy_threshold: 2,
            }),
    {
        HealthCheckConfig { enabled: true, interval: 10000, timeout: 5000, unhealthy_threshold: 3, healthy_threshold: 2 }
    }
}

/// Transport security.
#[derive(Debug, Clone)]
pub struct SecurityConfig {
    pub tls_enabled: bool,
    pub mutual_tls: bool,
    pub certificate_path: Option<String>,
    pub key_path: Option<String>,
}

impl SecurityConfig {
    /// No TLS.
    pub fn default_config() -> (c: Self)
        ensures
            !c.tls_enabled,
            !c.mutual_tls,
            c.certificate_path is None,
            c.key_path is None,
    {
        SecurityConfig { tls_enabled: false, mutual_tls: false, certificate_path: None, key_path: None }
    }
}

/// Settings of the service mesh.
#[derive(Debug, Clone)]
pub struct ServiceMeshConfig {
    pub service_discovery: ServiceDiscoveryConfig,
    pub load_balancing: LoadBalancingConfig,
    pub health_check: HealthCheckConfig,
    pub security: SecurityConfig,
}

impl ServiceMeshConfig {
    /// Each part at its default.
    pub fn default_config() -> (c: Self)
        ensures
            c.service_discovery.registry_url is None,
            c.service_discovery.refresh_interval == 30000,
            c.service_discovery.cache_ttl == 300000,
            c.load_balancing == (LoadBalancingConfig { strategy: LoadBalancingStrategy::RoundRobin, health_check_enabled: true }),
            c.health_check == (HealthCheckConfig {
                enabled: true,
                interval: 10000,
                timeout: 5000,
                unhealthy_threshold: 3,
                healthy_threshold: 2,
            }),
            !c.security.tls_enabled,
            !c.security.mutual_tls,
    {
        ServiceMeshConfig {
            service_discovery: ServiceDiscoveryConfig::default_config(),
            load_balancing: LoadBalancingConfig::default_config(),
            health_check: HealthCheckConfig::default_config(),
            security: SecurityConfig::default_config(),
        }
    }
}

/// An address a service answers on.
pub struct ServiceEndpoint {
    pub host: String,
    pub port: u16,
    pub weight: u32,
    pub metadata: KeyedTable<String>,
}

/// Whether two endpoints have the same address, weight and metadata.
pub open spec fn same_endpoint(a: ServiceEndpoint, b: ServiceEndpoint) -> bool {
    a.host@ == b.host@ && a.port == b.port && a.weight == b.weight && a.metadata.entries() == b.metadata.entries()
}

/// The key of an endpoint's health: host, a colon, and port.
pub open spec fn endpoint_key(e: ServiceEndpoint) -> Seq<char> {
    e.host@ + ":"@ + decimal(e.port as nat)
}

impl ServiceEndpoint {
    /// An endpoint of weight 1 without metadata.
    pub fn new(host: String, port: u16) -> (e: Self)
        ensures
            e.host == host,
            e.port == port,
            e.weight == 1,
            e.metadata.well_formed(),
            e.metadata.entries().len() == 0,
    {
        ServiceEndpoint { host, port, weight: 1, metadata: KeyedTable::new() }
    }

    /// The endpoint with weight `weight`.
    pub fn with_weight(self, weight: u32) -> (e: Self)
        ensures
            e.weight == weight,
            e.host == self.host,
            e.port == self.port,
            e.metadata == self.metadata,
    {
        let mut e = self;
        e.weight = weight;
        e
    }

    /// The endpoint with `value` under `key` in its metadata.
    pub fn with_metadata(self, key: String, value: String) -> (e: Self)
        requires
            self.metadata.well_formed(),
        ensures
            e.metadata.well_formed(),
            e.metadata.entries() == upserted(self.metadata.entries(), key, value),
            e.host == self.host,
            e.port == self.port,
            e.weight == self.weight,
    {
        let mut e = self;
        e.metadata.insert(key, value);
        e
    }

    /// "http://host:port".
    pub fn url(&self) -> (u: String)
        ensures
            u@ == "http://"@ + self.host@ + ":"@ + decimal(self.port as nat),
    {
        let mut u = String::from_str("http://");
        u.append(self.host.as_str());
        u.append(":");
        let p = crate::text::decimal_string(self.port as u64);
        u.append(p.as_str());
        u
    }

    /// "host:port", the key of the endpoint's health.
    pub fn health_key(&self) -> (k: String)
        ensures
            k@ == endpoint_key(*self),
    {
        let mut k = self.host.clone();
        k.append(":");
        let p = crate::text::decimal_string(self.port as u64);
        k.append(p.as_str());
        k
    }

    /// An equal copy.
    pub fn duplicate(&self) -> (e: Self)
        ensures
            same_endpoint(e, *self),
            e.metadata.well_formed() == self.metadata.well_formed(),
    {
        ServiceEndpoint {
            host: self.host.clone(),
            port: self.port,
            weight: self.weight,
            metadata: self.metadata.duplicate(),
        }
    }
}

/// Copies a list of endpoints.
pub fn copy_endpoints(v: &Vec<ServiceEndpoint>) -> (r: Vec<ServiceEndpoint>)
    ensures
        r@.len() == v@.len(),
        forall|i: int| 0 <= i < v@.len() ==> #[trigger] same_endpoint(r@[i], v@[i]),
{
    let mut out: Vec<ServiceEndpoint> = Vec::new();
    let mut i: usize = 0;
    while i < v.len()
        invariant
            i <= v@.len(),
            out@.len() == i,
            forall|j: int| 0 <= j < i ==> #[trigger] same_endpoint(out@[j], v@[j]),
        decreases v@.len() - i,
    {
        out.push(v[i].duplicate());
        i = i + 1;
    }
    out
}

/// What is known of an endpoint's health.
#[derive(Debug, Clone, Copy, PartialEq, Eq, Structural)]
pub struct EndpointHealth {
    pub is_healthy: bool,
    pub consecutive_failures: u32,
    pub consecutive_successes: u32,
    pub last_check: u64,
}

/// Whether the checker lets endpoint `e` through: unchecked endpoints
/// count as healthy.
pub open spec fn passes(health: Seq<(String, EndpointHealth)>, e: ServiceEndpoint) -> bool {
    !has_key(health, endpoint_key(e)) || value_of(health, endpoint_key(e)).is_healthy
}

/// Tracks the health of endpoints.
pub struct HealthChecker {
    config: HealthCheckConfig,
    endpoint_health: KeyedTable<EndpointHealth>,
}

impl HealthChecker {
    /// The settings.
    pub closed spec fn settings(&self) -> HealthCheckConfig {
        self.config
    }

    /// Health by "host:port".
    pub closed spec fn health(&self) -> Seq<(String, EndpointHealth)> {
        self.endpoint_health.entries()
    }

    /// One entry per endpoint.
    pub closed spec fn well_formed(&self) -> bool {
        self.endpoint_health.well_formed()
    }

    /// A checker that has checked nothing.
    pub fn new(config: HealthCheckConfig) -> (h: Self)
        ensures
            h.well_formed(),
            h.settings() == config,
            h.health().len() == 0,
    {
        HealthChecker { config, endpoint_health: KeyedTable::new() }
    }

    /// The endpoints that pass: all of them with checks off; otherwise
    /// those not found unhealthy, in order.
    pub fn filter_healthy_endpoints(&self, endpoints: Vec<ServiceEndpoint>) -> (r: Vec<ServiceEndpoint>)
        requires
            self.well_formed(),
        ensures
            !self.settings().enabled ==> r@ == endpoints@,
            self.settings().enabled ==> r@ == endpoints@.filter(|e: ServiceEndpoint| passes(self.health(), e)),
    {
        if !self.config.enabled {
            return endpoints;
        }
        let ghost all = endpoints@;
        proof {
            assert(endpoints.len() == endpoints@.len());
        }
        let ghost keep = |e: ServiceEndpoint| passes(self.health(), e);
        let mut out: Vec<ServiceEndpoint> = Vec::new();
        let mut rest = endpoints;
        let mut i: usize = 0;
        while rest.len() > 0
            invariant
                rest@ == all.skip(i as int),
                i <= all.len(),
                all.len() <= usize::MAX,
                out@ == all.take(i as int).filter(keep),
                keep == (|e: ServiceEndpoint| passes(self.health(), e)),
                self.well_formed(),
            decreases rest@.len(),
        {
            let ghost before = rest@;
            let e = rest.remove(0);
            proof {
                assert(before[0] == all[i as int]);
                assert(all.take(i as int + 1).drop_last() =~= all.take(i as int));
                reveal(Seq::filter);
                assert(rest@ =~= all.skip(i as int + 1));
            }
            let key = e.health_key();
            let ok = match self.endpoint_health.get(&key) {
                Some(h) => h.is_healthy,
                None => true,
            };
            let ghost ob = out@;
            if ok {
                out.push(e);
            }
            proof {
                assert(all.take(i as int + 1).last() == all[i as int]);
                assert(out@ =~= all.take(i as int + 1).filter(keep));
            }
            i = i + 1;
        }
        proof {
            assert(all.take(i as int) =~= all);
        }
        out
    }

    /// Records at `now` the outcome of a probe of `endpoint`: a success
    /// counts one more success and clears the failures, and the endpoint is
    /// healthy once the successes reach the healthy threshold; a failure
    /// counts one more failure and clears the successes, and the endpoint
    /// stays healthy while the failures are below the unhealthy threshold.
    /// An endpoint never checked starts healthy with no count.  Returns
    /// whether the endpoint is now healthy.
    pub fn check_endpoint_health_at(&mut self, endpoint: &ServiceEndpoint, is_healthy: bool, now: u64) -> (r: bool)
        requires
            old(self).well_formed(),
            has_key(old(self).health(), endpoint_key(*endpoint)) ==> {
                let h = value_of(old(self).health(), endpoint_key(*endpoint));
                h.consecutive_successes < u32::MAX && h.consecutive_failures < u32::MAX
            },
        ensures
            final(self).well_formed(),
            final(self).settings() == old(self).settings(),
            r == probed(old(self).known_health(*endpoint, now), is_healthy, old(self).settings(), now).is_healthy,
            exists|k: String|
                k@ == endpoint_key(*endpoint) && final(self).health() == #[trigger] upserted(
                    old(self).health(),
                    k,
                    probed(old(self).known_health(*endpoint, now), is_healthy, old(self).settings(), now),
                ),
    {
        let key = endpoint.health_key();
        let h0 = match self.endpoint_health.get(&key) {
            Some(h) => *h,
            None => EndpointHealth { is_healthy: true, consecutive_failures: 0, consecutive_successes: 0, last_check: now },
        };
        let h1 = if is_healthy {
            let s = h0.consecutive_successes + 1;
            EndpointHealth {
                is_healthy: s >= self.config.healthy_threshold,
                consecutive_failures: 0,
                consecutive_successes: s,
                last_check: now,
            }
        } else {
            let f = h0.consecutive_failures + 1;
            EndpointHealth {
                is_healthy: f < self.config.unhealthy_threshold,
                consecutive_failures: f,
                consecutive_successes: 0,
                last_check: now,
            }
        };
        let r = h1.is_healthy;
        let ghost kg = key;
        self.endpoint_health.insert(key, h1);
        proof {
            assert(h1 == probed(old(self).known_health(*endpoint, now), is_healthy, old(self).settings(), now));
            assert(self.health() == upserted(
                old(self).health(),
                kg,
                probed(old(self).known_health(*endpoint, now), is_healthy, old(self).settings(), now),
            ));
        }
        r
    }

    /// What is known of `endpoint` before a probe at `now`: its record, or
    /// a healthy start.
    pub open spec fn known_health(&self, endpoint: ServiceEndpoint, now: u64) -> EndpointHealth {
        if has_key(self.health(), endpoint_key(endpoint)) {
            value_of(self.health(), endpoint_key(endpoint))
        } else {
            EndpointHealth { is_healthy: true, consecutive_failures: 0, consecutive_successes: 0, last_check: now }
        }
    }
}

/// The health of an endpoint after a probe at `now`.
pub open spec fn probed(h: EndpointHealth, ok: bool, config: HealthCheckConfig, now: u64) -> EndpointHealth {
    if ok {
        EndpointHealth {
            is_healthy: h.consecutive_successes + 1 >= config.healthy_threshold,
            consecutive_failures: 0,
            consecutive_successes: (h.consecutive_successes + 1) as u32,
            last_check: now,
        }
    } else {
        EndpointHealth {
            is_healthy: h.consecutive_failures + 1 < config.unhealthy_threshold,
            consecutive_failures: (h.consecutive_failures + 1) as u32,
            consecutive_successes: 0,
            last_check: now,
        }
    }
}

/// Whether two lists of endpoints agree one by one.
pub open spec fn same_endpoints(a: Seq<ServiceEndpoint>, b: Seq<ServiceEndpoint>) -> bool {
    a.len() == b.len() && forall|i: int| 0 <= i < a.len() ==> #[trigger] same_endpoint(a[i], b[i])
}

/// The endpoints of `v` that pass `health`, or all of them when `check`
/// is off.
pub open spec fn selected_endpoints(v: Seq<ServiceEndpoint>, check: bool, health: Seq<(String, EndpointHealth)>) -> Seq<ServiceEndpoint> {
    if check {
        v.filter(|e: ServiceEndpoint| passes(health, e))
    } else {
        v
    }
}

/// Endpoints of services and the choice among them.
pub struct ServiceMeshManager {
    config: ServiceMeshConfig,
    service_registry: KeyedTable<Vec<ServiceEndpoint>>,
    health_checker: HealthChecker,
}

impl ServiceMeshManager {
    /// The settings.
    pub closed spec fn settings(&self) -> ServiceMeshConfig {
        self.config
    }

    /// Registered endpoints by service.
    pub closed spec fn registry(&self) -> Seq<(String, Vec<ServiceEndpoint>)> {
        self.service_registry.entries()
    }

    /// The health checker.
    pub closed spec fn checker(&self) -> HealthChecker {
        self.health_checker
    }

    /// One entry per service.
    pub closed spec fn well_formed(&self) -> bool {
        self.service_registry.well_formed() && self.health_checker.well_formed()
    }

    /// The endpoints of `name` that discovery answers: those registered
    /// (none for an unknown service), less those found unhealthy when
    /// balancing and the checker both check health.
    pub open spec fn discoverable(&self, name: Seq<char>) -> Seq<ServiceEndpoint> {
        selected_endpoints(
            if has_key(self.registry(), name) {
                value_of(self.registry(), name)@
            } else {
                Seq::empty()
            },
            self.settings().load_balancing.health_check_enabled && self.checker().settings().enabled,
            self.checker().health(),
        )
    }

    /// A mesh with no service, checking health as configured.
    pub fn new(config: ServiceMeshConfig) -> (m: Self)
        ensures
            m.well_formed(),
            m.settings() == config,
            m.registry().len() == 0,
            m.checker().settings() == config.health_check,
            m.checker().health().len() == 0,
    {
        let hc = config.health_check;
        ServiceMeshManager { config, service_registry: KeyedTable::new(), health_checker: HealthChecker::new(hc) }
    }

    /// Registers `endpoints` as those of `service_name`, replacing any
    /// earlier list.
    pub fn register_service(&mut self, service_name: String, endpoints: Vec<ServiceEndpoint>) -> (r: Result<(), AppError>)
        requires
            old(self).well_formed(),
        ensures
            r is Ok,
            final(self).well_formed(),
            final(self).registry() == upserted(old(self).registry(), service_name, endpoints),
            final(self).settings() == old(self).settings(),
            final(self).checker() == old(self).checker(),
    {
        self.service_registry.insert(service_name, endpoints);
        Ok(())
    }

    /// Copies of the endpoints of `v` that pass the health checker, or of
    /// all of them when `check` is off.
    fn passing_endpoints(&self, v: &Vec<ServiceEndpoint>, check: bool) -> (r: Vec<ServiceEndpoint>)
        requires
            self.well_formed(),
        ensures
            same_endpoints(r@, selected_endpoints(v@, check, self.checker().health())),
    {
        let ghost keep = |e: ServiceEndpoint| passes(self.checker().health(), e);
        let ghost sel_of = |s: Seq<ServiceEndpoint>| if check { s.filter(keep) } else { s };
        let mut out: Vec<ServiceEndpoint> = Vec::new();
        let mut i: usize = 0;
        while i < v.len()
            invariant
                i <= v@.len(),
                self.well_formed(),
                keep == (|e: ServiceEndpoint| passes(self.checker().health(), e)),
                sel_of == (|s: Seq<ServiceEndpoint>| if check { s.filter(keep) } else { s }),
                out@.len() == sel_of(v@.take(i as int)).len(),
                forall|j: int| 0 <= j < out@.len() ==> #[trigger] same_endpoint(out@[j], sel_of(v@.take(i as int))[j]),
            decreases v@.len() - i,
        {
            let ghost pre = v@.take(i as int);
            let ghost nxt = v@.take(i as int + 1);
            proof {
                assert(nxt.drop_last() =~= pre);
                assert(nxt.last() == v@[i as int]);
                reveal(Seq::filter);
                assert(nxt.filter(keep) == if keep(v@[i as int]) { pre.filter(keep).push(v@[i as int]) } else { pre.filter(keep) });
            }
            let e = &v[i];
            let ok = if !check {
                true
            } else {
                let key = e.health_key();
                match self.health_checker.endpoint_health.get(&key) {
                    Some(h) => h.is_healthy,
                    None => true,
                }
            };
            proof {
                if check {
                    assert(ok == keep(v@[i as int]));
                }
            }
            if ok {
                let c = e.duplicate();
                out.push(c);
            }
            proof {
                assert forall|j: int| 0 <= j < out@.len() implies #[trigger] same_endpoint(out@[j], sel_of(nxt)[j]) by {
                    if j < sel_of(pre).len() {
                        assert(sel_of(nxt)[j] == sel_of(pre)[j]);
                    }
                }
            }
            i = i + 1;
        }
        proof {
            assert(v@.take(v@.len() as int) =~= v@);
        }
        out
    }

    /// The registered endpoints of `service_name` (none for an unknown
    /// service) that pass the health checker when balancing checks health
    /// and the checker is on.
    pub fn discover_service(&self, service_name: &String) -> (r: Result<Vec<ServiceEndpoint>, AppError>)
        requires
            self.well_formed(),
        ensures
            r matches Ok(v) && same_endpoints(v@, self.discoverable(service_name@)),
    {
        let check = self.config.load_balancing.health_check_enabled && self.health_checker.config.enabled;
        match self.service_registry.get(service_name) {
            Some(v) => {
                let out = self.passing_endpoints(v, check);
                proof {
                    assert(has_key(self.registry(), service_name@));
                    assert(*v == value_of(self.registry(), service_name@));
                    assert(check == (self.settings().load_balancing.health_check_enabled && self.checker().settings().enabled));
                }
                Ok(out)
            },
            None => {
                let empty: Vec<ServiceEndpoint> = Vec::new();
                proof {
                    assert(Seq::<ServiceEndpoint>::empty().filter(|e: ServiceEndpoint| passes(self.checker().health(), e))
                        =~= Seq::<ServiceEndpoint>::empty());
                }
                Ok(empty)
            },
        }
    }

    /// Chooses an endpoint of `service_name` among those discovered: at
    /// random for round robin and random balancing, the first for the
    /// others.  No endpoint is refused with `ExternalServiceError`.
    pub fn select_endpoint(&self, service_name: &String) -> (r: Result<ServiceEndpoint, AppError>)
        requires
            self.well_formed(),
        ensures
            self.discoverable(service_name@).len() == 0 ==> (r matches Err(AppError::ExternalServiceError(m)) && m@
                == "No healthy endpoints available for service: "@ + service_name@),
            self.discoverable(service_name@).len() > 0 ==> (r matches Ok(e) && exists|i: int|
                0 <= i < self.discoverable(service_name@).len() && #[trigger] same_endpoint(e, self.discoverable(service_name@)[i])
                    && ((self.settings().load_balancing.strategy == LoadBalancingStrategy::LeastConnections
                    || self.settings().load_balancing.strategy == LoadBalancingStrategy::WeightedRoundRobin) ==> i == 0)),
    {
        let endpoints = match self.discover_service(service_name) {
            Ok(v) => v,
            Err(e) => {
                return Err(e);
            },
        };
        if endpoints.len() == 0 {
            let mut m = String::from_str("No healthy endpoints available for service: ");
            m.append(service_name.as_str());
            return Err(AppError::ExternalServiceError(m));
        }
        let index = match self.config.load_balancing.strategy {
            LoadBalancingStrategy::RoundRobin | LoadBalancingStrategy::Random => crate::platform::random_index(
                endpoints.len(),
            ),
            LoadBalancingStrategy::LeastConnections | LoadBalancingStrategy::WeightedRoundRobin => 0,
        };
        let chosen = endpoints[index].duplicate();
        proof {
            assert(same_endpoint(endpoints@[index as int], self.discoverable(service_name@)[index as int]));
            assert(same_endpoint(chosen, self.discoverable(service_name@)[index as int]));
            assert((self.settings().load_balancing.strategy == LoadBalancingStrategy::LeastConnections
                || self.settings().load_balancing.strategy == LoadBalancingStrategy::WeightedRoundRobin) ==> index == 0);
        }
        let r: Result<ServiceEndpoint, AppError> = Ok(chosen);
        proof {
            assert(r->Ok_0 == chosen);
        }
        r
    }
}

} // verus!
