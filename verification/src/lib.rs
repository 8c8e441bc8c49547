//! Per-credential limiting of concurrent requests to a downstream service.
//!
//! A request that carries a credential takes a permit from the pool of that credential
//! before it goes downstream and gives it back when the downstream service has
//! answered. Each pool has a fixed number of permits, so no credential has more than
//! that many requests downstream at once, and a credential that is not used for a
//! while loses its pool. A request without a credential is passed on as it is.
//!
//! - `layer` configures the limiter and wraps a service in it.
//! - `passage` is the state machine that takes one request through the limiter.
//! - `system` describes the limiter as a whole, with the registry and the pools.
//! - `laws` states what the limiter guarantees.
//! - `primitives` holds what is taken on trust of the crates underneath.

pub mod laws;
pub mod layer;
pub mod passage;
pub mod primitives;
pub mod system;

pub use crate::layer::{AccessTokenRateLimit, AccessTokenRateLimitLayer};
