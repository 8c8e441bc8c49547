//! The limiter as it is configured and put in front of a service.
//!
//! A layer owns the registry, the map from credential to permit pool. Every service
//! wrapped by one layer, and every copy of such a service, works on that one registry.

use crate::primitives::{
    build_registry, duration_nanos, initial_permits, new_semaphore, registry_idle, time_to_idle,
    MAX_IDLE_NANOS, MAX_PERMITS,
};
use http::HeaderValue;
use moka::future::Cache;
use std::sync::Arc;
use std::time::Duration;
use tokio::sync::Semaphore;
use vstd::pervasive::cloned;
use vstd::prelude::*;

verus! {

/// The number of permits in a pool where nothing else is asked for. It stays just
/// under the hundred parallel requests at which the downstream provider starts to push
/// back.
pub const DEFAULT_CAPACITY: usize = 99;

/// Whether a registry can be built with this idle window and pools with this capacity.
pub open spec fn is_configurable(idle_ttl: Duration, capacity: usize) -> bool {
    duration_nanos(idle_ttl) <= MAX_IDLE_NANOS && capacity <= MAX_PERMITS
}

/// A new, unused permit pool.
pub fn new_pool(capacity: usize) -> (pool: Arc<Semaphore>)
    requires
        capacity <= MAX_PERMITS,
    ensures
        initial_permits(*pool) == capacity,
{
    Arc::new(new_semaphore(capacity))
}

/// A number of permits that a pool can be created with.
#[derive(Clone, Copy, Debug)]
struct PoolSize {
    permits: usize,
}

/// Puts the limiter in front of services.
#[derive(Clone, Debug)]
pub struct AccessTokenRateLimitLayer {
    per_token_semaphores: Cache<HeaderValue, Arc<Semaphore>>,
    capacity: PoolSize,
}

/// A service with the limiter in front of it.
#[derive(Clone)]
pub struct AccessTokenRateLimit<T> {
    inner: T,
    per_token_semaphores: Cache<HeaderValue, Arc<Semaphore>>,
    capacity: PoolSize,
}

impl PoolSize {
    #[verifier::type_invariant]
    spec fn bounded(self) -> bool {
        self.permits <= MAX_PERMITS
    }

    fn get(&self) -> (permits: usize)
        ensures
            permits == self.permits,
            permits <= MAX_PERMITS,
    {
        proof {
            use_type_invariant(self);
        }
        self.permits
    }
}

impl AccessTokenRateLimitLayer {
    /// The registry of this layer.
    pub closed spec fn registry_of(&self) -> Cache<HeaderValue, Arc<Semaphore>> {
        self.per_token_semaphores
    }

    /// The number of permits in each pool.
    pub closed spec fn capacity_of(&self) -> usize {
        self.capacity.permits
    }

    /// The idle window after which the registry forgets a credential.
    pub open spec fn idle_window(&self) -> Option<Duration> {
        time_to_idle(self.registry_of())
    }

    /// A layer whose registry forgets a credential that has not been used for
    /// `idle_ttl`, with pools of the default capacity.
    pub fn new(idle_ttl: Duration) -> (layer: AccessTokenRateLimitLayer)
        requires
            duration_nanos(idle_ttl) <= MAX_IDLE_NANOS,
        ensures
            layer.idle_window() == Some(idle_ttl),
            layer.capacity_of() == DEFAULT_CAPACITY,
    {
        AccessTokenRateLimitLayer::with_capacity(idle_ttl, DEFAULT_CAPACITY)
    }

    /// A layer like that of `new`, with pools of `capacity` permits each.
    pub fn with_capacity(idle_ttl: Duration, capacity: usize) -> (layer: AccessTokenRateLimitLayer)
        requires
            is_configurable(idle_ttl, capacity),
        ensures
            layer.idle_window() == Some(idle_ttl),
            layer.capacity_of() == capacity,
    {
        AccessTokenRateLimitLayer {
            per_token_semaphores: build_registry(idle_ttl),
            capacity: PoolSize { permits: capacity },
        }
    }

    /// A layer as `with_capacity` makes it, or nothing where the idle window or the
    /// capacity is larger than the registry and the pools can take.
    pub fn try_with_capacity(idle_ttl: Duration, capacity: usize) -> (layer: Option<
        AccessTokenRateLimitLayer,
    >)
        ensures
            layer is Some <==> is_configurable(idle_ttl, capacity),
            layer matches Some(l) ==> l.idle_window() == Some(idle_ttl) && l.capacity_of()
                == capacity,
    {
        if idle_ttl.as_nanos() <= MAX_IDLE_NANOS && capacity <= MAX_PERMITS {
            Some(AccessTokenRateLimitLayer::with_capacity(idle_ttl, capacity))
        } else {
            None
        }
    }

    /// A layer as `new` makes it, or nothing where the idle window is longer than the
    /// registry can take.
    pub fn try_new(idle_ttl: Duration) -> (layer: Option<AccessTokenRateLimitLayer>)
        ensures
            layer is Some <==> duration_nanos(idle_ttl) <= MAX_IDLE_NANOS,
            layer matches Some(l) ==> l.idle_window() == Some(idle_ttl) && l.capacity_of()
                == DEFAULT_CAPACITY,
    {
        if idle_ttl.as_nanos() <= MAX_IDLE_NANOS {
            Some(AccessTokenRateLimitLayer::new(idle_ttl))
        } else {
            None
        }
    }

    /// Wraps a service. The wrapped service works on the registry of this layer.
    pub fn layer<S>(&self, service: S) -> (limited: AccessTokenRateLimit<S>)
        ensures
            limited.inner_of() == service,
            limited.registry_of() == self.registry_of(),
            limited.capacity_of() == self.capacity_of(),
    {
        AccessTokenRateLimit {
            inner: service,
            per_token_semaphores: self.per_token_semaphores.clone(),
            capacity: self.capacity,
        }
    }

    /// The idle window after which the registry forgets a credential.
    pub fn idle_ttl(&self) -> (idle: Option<Duration>)
        ensures
            idle == self.idle_window(),
    {
        registry_idle(&self.per_token_semaphores)
    }

    /// The number of permits in each pool.
    #[verifier::when_used_as_spec(capacity_of)]
    pub fn capacity(&self) -> (capacity: usize)
        ensures
            capacity == self.capacity_of(),
            capacity <= MAX_PERMITS,
    {
        self.capacity.get()
    }
}

impl<T> AccessTokenRateLimit<T> {
    /// The wrapped service.
    pub closed spec fn inner_of(&self) -> T {
        self.inner
    }

    /// The registry that this service works on.
    pub closed spec fn registry_of(&self) -> Cache<HeaderValue, Arc<Semaphore>> {
        self.per_token_semaphores
    }

    /// The number of permits in each pool.
    pub closed spec fn capacity_of(&self) -> usize {
        self.capacity.permits
    }

    /// The wrapped service.
    pub fn inner(&self) -> (inner: &T)
        ensures
            *inner == self.inner_of(),
    {
        &self.inner
    }

    /// The registry that this service works on.
    pub fn registry(&self) -> (registry: &Cache<HeaderValue, Arc<Semaphore>>)
        ensures
            *registry == self.registry_of(),
    {
        &self.per_token_semaphores
    }

    /// The number of permits in each pool.
    #[verifier::when_used_as_spec(capacity_of)]
    pub fn capacity(&self) -> (capacity: usize)
        ensures
            capacity == self.capacity_of(),
            capacity <= MAX_PERMITS,
    {
        self.capacity.get()
    }

    /// A new, unused pool for a credential that the registry does not hold.
    pub fn new_pool(&self) -> (pool: Arc<Semaphore>)
        ensures
            initial_permits(*pool) == self.capacity_of(),
    {
        new_pool(self.capacity())
    }

    /// The wrapped service, for the caller to ask whether it is ready. Readiness is the
    /// wrapped service's own business: asking for it takes no permit.
    pub fn inner_mut(&mut self) -> (inner: &mut T)
        ensures
            *inner == old(self).inner_of(),
            final(self).inner_of() == *final(inner),
            final(self).registry_of() == old(self).registry_of(),
            final(self).capacity_of() == old(self).capacity_of(),
    {
        &mut self.inner
    }
}

impl<T: Clone> AccessTokenRateLimit<T> {
    /// Hands out the wrapped service for one call and keeps a copy of it for the calls
    /// to come. The one handed out is the one that was last asked for its readiness.
    pub fn take_service(&mut self) -> (ready: T)
        ensures
            ready == old(self).inner_of(),
            cloned(old(self).inner_of(), final(self).inner_of()),
            final(self).registry_of() == old(self).registry_of(),
            final(self).capacity_of() == old(self).capacity_of(),
    {
        let mut ready = self.inner.clone();
        std::mem::swap(&mut ready, &mut self.inner);
        ready
    }
}

} // verus!
