//! The bookkeeping of a dependency-injection container: which services are
//! registered with which lifetime, which singletons exist, and which services
//! are being resolved, so that a cycle is caught.  Services are known by a
//! number the caller gives each type; the instances themselves and the
//! factories that build them stay with the caller.

use vstd::prelude::*;
use crate::errors::AppError;
use crate::ids::{has_id, id_upserted, value_at_id, IdTable};

verus! {

/// How long an instance of a service lives.
#[derive(Debug, Clone, Copy, PartialEq, Eq, Structural, Hash)]
pub enum ServiceLifetime {
    /// One instance for the whole application.
    Singleton,
    /// A new instance on every resolution.
    Transient,
    /// One instance per scope.
    Scoped,
}

/// What the container knows of a registered service.
#[derive(Debug, Clone)]
pub struct ServiceInfo {
    pub service_name: String,
    pub lifetime: ServiceLifetime,
    pub dependencies_count: usize,
}

/// Whether `a` and `b` hold the same values.
pub open spec fn same_info(a: ServiceInfo, b: ServiceInfo) -> bool {
    &&& a.service_name@ == b.service_name@
    &&& a.lifetime == b.lifetime
    &&& a.dependencies_count == b.dependencies_count
}

impl ServiceInfo {
    /// An equal copy.
    pub fn duplicate(&self) -> (r: Self)
        ensures
            same_info(r, *self),
    {
        ServiceInfo {
            service_name: self.service_name.clone(),
            lifetime: self.lifetime,
            dependencies_count: self.dependencies_count,
        }
    }
}

/// What the caller does next to resolve a service.
#[derive(Debug, Clone, Copy, PartialEq, Eq, Structural)]
pub enum ResolutionStep {
    /// Hand out the singleton instance already built.
    UseSingleton,
    /// Build the singleton instance, then record it.
    CreateSingleton,
    /// Build a new instance.
    CreateTransient,
    /// Hand out the live instance of this scope, or build and keep one.
    Scoped(u128),
}

/// Why a service cannot be resolved.
#[derive(Debug, Clone, PartialEq, Eq)]
pub enum ResolveRefusal {
    /// The service is already being resolved: these services, in the order
    /// their resolution began, form the chain.
    Circular(Vec<u128>),
    /// No service of this number is registered.
    NotRegistered(u128),
    /// A scoped service was asked for outside a scope.
    ScopeRequired,
}

impl ResolveRefusal {
    /// The container error for a refusal whose message needs no type name.
    pub fn scope_error() -> (e: AppError)
        ensures
            e matches AppError::DependencyNotFound { service } && service@ == "Scope ID required for scoped service"@,
    {
        AppError::DependencyNotFound { service: String::from_str("Scope ID required for scoped service") }
    }
}

/// The registrations, singletons and resolutions in progress.
pub struct ServiceContainer {
    registrations: IdTable<ServiceInfo>,
    singletons: Vec<u128>,
    circular_detection: Vec<u128>,
}

impl ServiceContainer {
    /// Registered services by number.
    pub closed spec fn registered(&self) -> Seq<(u128, ServiceInfo)> {
        self.registrations.entries()
    }

    /// Services whose singleton instance exists.
    pub closed spec fn built(&self) -> Seq<u128> {
        self.singletons@
    }

    /// Services being resolved, outermost first.
    pub closed spec fn resolving(&self) -> Seq<u128> {
        self.circular_detection@
    }

    /// One registration per service.
    pub closed spec fn well_formed(&self) -> bool {
        self.registrations.well_formed()
    }

    /// Nothing registered, built or being resolved.
    pub fn new() -> (c: Self)
        ensures
            c.well_formed(),
            c.registered().len() == 0,
            c.built().len() == 0,
            c.resolving().len() == 0,
    {
        ServiceContainer { registrations: IdTable::new(), singletons: Vec::new(), circular_detection: Vec::new() }
    }

    /// Registers service `service_type`, in place of an earlier
    /// registration of it.
    pub fn register(
        &mut self,
        service_type: u128,
        lifetime: ServiceLifetime,
        service_name: &str,
        dependencies_count: usize,
    ) -> (r: Result<(), AppError>)
        requires
            old(self).well_formed(),
        ensures
            r is Ok,
            final(self).well_formed(),
            final(self).registered() == id_upserted(
                old(self).registered(),
                service_type,
                value_at_id(final(self).registered(), service_type),
            ),
            has_id(final(self).registered(), service_type),
            value_at_id(final(self).registered(), service_type).service_name@ == service_name@,
            value_at_id(final(self).registered(), service_type).lifetime == lifetime,
            value_at_id(final(self).registered(), service_type).dependencies_count == dependencies_count,
            final(self).built() == old(self).built(),
            final(self).resolving() == old(self).resolving(),
    {
        let info = ServiceInfo { service_name: String::from_str(service_name), lifetime, dependencies_count };
        proof {
            crate::ids::lemma_id_upserted_unique(self.registrations.entries(), service_type, info);
        }
        self.registrations.insert(service_type, info);
        Ok(())
    }

    /// Begins resolving service `service_type`, inside scope `scope_id` if
    /// one is given.  A service already being resolved is refused as a
    /// cycle, an unregistered one as unknown, and a scoped one outside a
    /// scope as needing one; a refusal leaves the container as it was.
    /// Otherwise the service joins those being resolved and the step to
    /// take is returned; the caller ends the resolution with
    /// `finish_resolution` whatever the step gives.
    pub fn begin_resolution(&mut self, service_type: u128, scope_id: Option<u128>) -> (r: Result<
        ResolutionStep,
        ResolveRefusal,
    >)
        requires
            old(self).well_formed(),
        ensures
            final(self).well_formed(),
            final(self).registered() == old(self).registered(),
            final(self).built() == old(self).built(),
            old(self).resolving().contains(service_type) ==> (r matches Err(ResolveRefusal::Circular(chain))
                && chain@ == old(self).resolving()),
            !old(self).resolving().contains(service_type) && !has_id(old(self).registered(), service_type) ==> r
                == Err::<ResolutionStep, ResolveRefusal>(ResolveRefusal::NotRegistered(service_type)),
            !old(self).resolving().contains(service_type) && has_id(old(self).registered(), service_type) ==> ({
                let lifetime = value_at_id(old(self).registered(), service_type).lifetime;
                match lifetime {
                    ServiceLifetime::Singleton => if old(self).built().contains(service_type) {
                        r == Ok::<ResolutionStep, ResolveRefusal>(ResolutionStep::UseSingleton)
                    } else {
                        r == Ok::<ResolutionStep, ResolveRefusal>(ResolutionStep::CreateSingleton)
                    },
                    ServiceLifetime::Transient => r == Ok::<ResolutionStep, ResolveRefusal>(
                        ResolutionStep::CreateTransient,
                    ),
                    ServiceLifetime::Scoped => match scope_id {
                        Some(s) => r == Ok::<ResolutionStep, ResolveRefusal>(ResolutionStep::Scoped(s)),
                        None => r == Err::<ResolutionStep, ResolveRefusal>(ResolveRefusal::ScopeRequired),
                    },
                }
            }),
            r is Ok ==> final(self).resolving() == old(self).resolving().push(service_type),
            r is Err ==> final(self).resolving() == old(self).resolving(),
    {
        let mut i: usize = 0;
        while i < self.circular_detection.len()
            invariant
                i <= self.circular_detection@.len(),
                forall|j: int| 0 <= j < i ==> self.circular_detection@[j] != service_type,
                self.registrations == old(self).registrations,
                self.singletons == old(self).singletons,
                self.circular_detection == old(self).circular_detection,
                old(self).well_formed(),
            decreases self.circular_detection@.len() - i,
        {
            if self.circular_detection[i] == service_type {
                proof {
                    assert(self.circular_detection@[i as int] == service_type);
                }
                return Err(ResolveRefusal::Circular(self.circular_detection.clone()));
            }
            i = i + 1;
        }
        let lifetime = match self.registrations.get(service_type) {
            Some(info) => info.lifetime,
            None => {
                return Err(ResolveRefusal::NotRegistered(service_type));
            },
        };
        let step = match lifetime {
            ServiceLifetime::Singleton => {
                let mut found = false;
                let mut k: usize = 0;
                while k < self.singletons.len()
                    invariant
                        k <= self.singletons@.len(),
                        found == exists|j: int| 0 <= j < k && #[trigger] self.singletons@[j] == service_type,
                    decreases self.singletons@.len() - k,
                {
                    if self.singletons[k] == service_type {
                        found = true;
                    }
                    k = k + 1;
                }
                proof {
                    if found {
                        let j = choose|j: int| 0 <= j < k && #[trigger] self.singletons@[j] == service_type;
                        assert(self.singletons@[j] == service_type);
                    }
                    assert(found == self.singletons@.contains(service_type));
                }
                if found {
                    ResolutionStep::UseSingleton
                } else {
                    ResolutionStep::CreateSingleton
                }
            },
            ServiceLifetime::Transient => ResolutionStep::CreateTransient,
            ServiceLifetime::Scoped => match scope_id {
                Some(s) => ResolutionStep::Scoped(s),
                None => {
                    return Err(ResolveRefusal::ScopeRequired);
                },
            },
        };
        self.circular_detection.push(service_type);
        Ok(step)
    }

    /// Records that the singleton of `service_type` was built.
    pub fn record_singleton(&mut self, service_type: u128)
        requires
            old(self).well_formed(),
        ensures
            final(self).well_formed(),
            final(self).registered() == old(self).registered(),
            final(self).resolving() == old(self).resolving(),
            final(self).built() == if old(self).built().contains(service_type) {
                old(self).built()
            } else {
                old(self).built().push(service_type)
            },
    {
        let mut k: usize = 0;
        while k < self.singletons.len()
            invariant
                k <= self.singletons@.len(),
                forall|j: int| 0 <= j < k ==> self.singletons@[j] != service_type,
                self.registrations == old(self).registrations,
                self.singletons == old(self).singletons,
                self.circular_detection == old(self).circular_detection,
                old(self).well_formed(),
            decreases self.singletons@.len() - k,
        {
            if self.singletons[k] == service_type {
                proof {
                    assert(self.singletons@[k as int] == service_type);
                }
                return;
            }
            k = k + 1;
        }
        self.singletons.push(service_type);
    }

    /// Ends the resolution of `service_type`: it no longer counts as being
    /// resolved.
    pub fn finish_resolution(&mut self, service_type: u128)
        requires
            old(self).well_formed(),
        ensures
            final(self).well_formed(),
            final(self).registered() == old(self).registered(),
            final(self).built() == old(self).built(),
            final(self).resolving() == old(self).resolving().filter(|t: u128| t != service_type),
    {
        let ghost keep = |t: u128| t != service_type;
        let ghost orig = self.circular_detection@;
        let mut kept: Vec<u128> = Vec::new();
        let mut i: usize = 0;
        while i < self.circular_detection.len()
            invariant
                i <= orig.len(),
                self.circular_detection@ == orig,
                keep == (|t: u128| t != service_type),
                kept@ == orig.take(i as int).filter(keep),
            decreases orig.len() - i,
        {
            let t = self.circular_detection[i];
            proof {
                assert(orig.take(i + 1) =~= orig.take(i as int).push(orig[i as int]));
                crate::concurrency::lemma_filter_snoc(orig.take(i as int), orig[i as int], keep);
            }
            if t != service_type {
                kept.push(t);
            }
            i = i + 1;
        }
        proof {
            assert(orig.take(orig.len() as int) =~= orig);
        }
        self.circular_detection = kept;
    }

    /// What is registered for `service_type`, if anything.
    pub fn get_registration_info(&self, service_type: u128) -> (r: Result<Option<ServiceInfo>, AppError>)
        requires
            self.well_formed(),
        ensures
            r matches Ok(o) && (o is Some == has_id(self.registered(), service_type)) && (o matches Some(info)
                ==> same_info(info, value_at_id(self.registered(), service_type))),
    {
        match self.registrations.get(service_type) {
            Some(info) => Ok(Some(info.duplicate())),
            None => Ok(None),
        }
    }

    /// What is registered, service by service.
    pub fn list_services(&self) -> (r: Result<Vec<ServiceInfo>, AppError>)
        requires
            self.well_formed(),
        ensures
            r matches Ok(v) && v@.len() == self.registered().len() && (forall|i: int|
                0 <= i < v@.len() ==> same_info(#[trigger] v@[i], self.registered()[i].1)),
    {
        let mut v: Vec<ServiceInfo> = Vec::new();
        let n = self.registrations.len();
        let mut i: usize = 0;
        while i < n
            invariant
                n == self.registered().len(),
                i <= n,
                v@.len() == i,
                forall|j: int| 0 <= j < i ==> same_info(#[trigger] v@[j], self.registered()[j].1),
            decreases n - i,
        {
            let e = self.registrations.entry_at(i);
            v.push(e.1.duplicate());
            i = i + 1;
        }
        Ok(v)
    }
}

impl Default for ServiceContainer {
    fn default() -> (c: Self)
        ensures
            c.well_formed(),
            c.registered().len() == 0,
            c.built().len() == 0,
            c.resolving().len() == 0,
    {
        Self::new()
    }
}

/// A scope for scoped services.
#[derive(Debug, Clone, Copy, PartialEq, Eq, Structural)]
pub struct ServiceScope {
    pub scope_id: u128,
    /// Milliseconds since the Unix epoch.
    pub created_at: u64,
}

impl ServiceScope {
    /// A scope `scope_id` begun at `now`.
    pub fn new_at(scope_id: u128, now: u64) -> (s: Self)
        ensures
            s.scope_id == scope_id,
            s.created_at == now,
    {
        ServiceScope { scope_id, created_at: now }
    }

    /// A scope begun now under a fresh identifier.
    pub fn new() -> (s: Self) {
        let id = crate::platform::new_identifier();
        let now = crate::platform::now_millis();
        Self::new_at(id, now)
    }

    /// Milliseconds from the scope's beginning to `now`, 0 for a time
    /// before it.
    pub fn duration_at(&self, now: u64) -> (d: u64)
        ensures
            d == if now >= self.created_at { now - self.created_at } else { 0 },
    {
        if now >= self.created_at {
            now - self.created_at
        } else {
            0
        }
    }
}

/// Filtering out a value that a sequence does not hold gives the sequence.
proof fn lemma_filter_absent(s: Seq<u128>, t: u128)
    requires
        !s.contains(t),
    ensures
        s.filter(|x: u128| x != t) == s,
    decreases s.len(),
{
    if s.len() > 0 {
        let f = |x: u128| x != t;
        let init = s.drop_last();
        assert(!init.contains(t)) by {
            if init.contains(t) {
                let i = choose|i: int| 0 <= i < init.len() && init[i] == t;
                assert(s[i] == t);
            }
        }
        lemma_filter_absent(init, t);
        assert(init.push(s.last()) =~= s);
        crate::concurrency::lemma_filter_snoc(init, s.last(), f);
    } else {
        assert(s.filter(|x: u128| x != t) =~= s);
    }
}

/// Ending a resolution that began on a service not already being resolved
/// gives back the chain of resolutions as it was before.
pub proof fn lemma_finish_undoes_begin(chain: Seq<u128>, service_type: u128)
    requires
        !chain.contains(service_type),
    ensures
        chain.push(service_type).filter(|t: u128| t != service_type) == chain,
{
    lemma_filter_absent(chain, service_type);
    crate::concurrency::lemma_filter_snoc(chain, service_type, |t: u128| t != service_type);
}

/// Once its singleton is recorded, a service counts as built, so the next
/// resolution hands out that instance.
pub proof fn lemma_recorded_singleton_is_reused(built: Seq<u128>, service_type: u128)
    ensures
        (if built.contains(service_type) {
            built
        } else {
            built.push(service_type)
        }).contains(service_type),
{
    if !built.contains(service_type) {
        assert(built.push(service_type)[built.len() as int] == service_type);
    }
}

} // verus!
