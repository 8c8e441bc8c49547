//! The outside primitives the limiter stands on, and everything that is taken on trust
//! of them. Nothing in this module is proved: each item says what it assumes of the
//! outside function it names.

use http::{HeaderMap, HeaderValue};
use moka::future::Cache;
use std::sync::Arc;
use std::time::Duration;
use tokio::sync::{OwnedSemaphorePermit, Semaphore};
use vstd::prelude::*;

verus! {

/// The counting semaphore that gates one permit pool. A value of it stands for the
/// semaphore's identity: its free slots change under shared references and have no
/// place in a contract.
#[verifier::external_type_specification]
#[verifier::external_body]
pub struct ExSemaphore(Semaphore);

/// One held slot of a semaphore. Dropping it gives the slot back; nothing in this
/// library drops one.
#[verifier::external_type_specification]
#[verifier::external_body]
pub struct ExOwnedSemaphorePermit(OwnedSemaphorePermit);

/// The value of one header line.
#[verifier::external_type_specification]
#[verifier::external_body]
pub struct ExHeaderValue(HeaderValue);

/// The header lines of a request.
#[verifier::external_type_specification]
#[verifier::external_body]
#[verifier::reject_recursive_types(T)]
pub struct ExHeaderMap<T>(HeaderMap<T>);

/// The concurrent map with idle expiry that backs the registry. A value of it is a
/// handle: clones share one store, whose entries come and go under shared references.
#[verifier::external_type_specification]
#[verifier::external_body]
#[verifier::reject_recursive_types(K)]
#[verifier::reject_recursive_types(V)]
#[verifier::reject_recursive_types(S)]
pub struct ExCache<K, V, S>(Cache<K, V, S>);

/// The length of a duration in nanoseconds, as `Duration::as_nanos` gives it.
pub uninterp spec fn duration_nanos(duration: Duration) -> nat;

/// The bytes of a header value, as `HeaderValue::as_bytes` gives them.
pub uninterp spec fn header_bytes(value: HeaderValue) -> Seq<u8>;

/// The first line among the headers that goes by the name, if there is one. Names of
/// headers do not tell capital letters from small ones.
pub uninterp spec fn header_of(headers: HeaderMap<HeaderValue>, name: Seq<char>) -> Option<
    HeaderValue,
>;

/// The number of free slots a semaphore was created with.
pub uninterp spec fn initial_permits(semaphore: Semaphore) -> nat;

/// The idle window a registry was built with: an entry that is neither read nor
/// written for this long expires.
pub uninterp spec fn time_to_idle(registry: Cache<HeaderValue, Arc<Semaphore>>) -> Option<Duration>;

/// The longest idle window the registry accepts: a thousand years of 365 days.
pub const MAX_IDLE_NANOS: u128 = 31_536_000_000_000_000_000;

/// The most permits a semaphore can be created with, `Semaphore::MAX_PERMITS`.
pub const MAX_PERMITS: usize = usize::MAX / 8;

/// `Duration::as_nanos`: the whole duration in nanoseconds.
pub assume_specification[ Duration::as_nanos ](duration: &Duration) -> (nanos: u128)
    ensures
        nanos == duration_nanos(*duration),
;

/// `HeaderValue::is_empty`: whether the value has no bytes at all.
pub assume_specification[ HeaderValue::is_empty ](value: &HeaderValue) -> (empty: bool)
    ensures
        empty == (header_bytes(*value).len() == 0),
;

/// `HeaderMap::get` with the name of a header as text, and a copy of what it finds:
/// the first value stored under that name, or nothing where no line goes by the name
/// or the text is no name for a header.
#[verifier::external_body]
pub(crate) fn first_value(headers: &HeaderMap<HeaderValue>, name: &str) -> (value: Option<
    HeaderValue,
>)
    ensures
        value == header_of(*headers, name@),
{
    headers.get(name).map(|v| v.to_owned())
}

/// `Semaphore::new`: a semaphore that starts with `permits` free slots. The outside
/// function panics above `Semaphore::MAX_PERMITS`, which is `usize::MAX >> 3`.
#[verifier::external_body]
pub(crate) fn new_semaphore(permits: usize) -> (semaphore: Semaphore)
    requires
        permits <= MAX_PERMITS,
    ensures
        initial_permits(semaphore) == permits,
{
    Semaphore::new(permits)
}

/// `Cache::builder().time_to_idle(..).build()`: an empty registry whose entries expire
/// once they have gone unused for `idle_ttl`. `build` panics on a window longer than a
/// thousand years.
#[verifier::external_body]
pub(crate) fn build_registry(idle_ttl: Duration) -> (registry: Cache<
    HeaderValue,
    Arc<Semaphore>,
>)
    requires
        duration_nanos(idle_ttl) <= MAX_IDLE_NANOS,
    ensures
        time_to_idle(registry) == Some(idle_ttl),
{
    Cache::builder().time_to_idle(idle_ttl).build()
}

/// `Cache::policy().time_to_idle()`: the idle window the registry was built with, which
/// cannot be changed afterwards.
#[verifier::external_body]
pub(crate) fn registry_idle(registry: &Cache<HeaderValue, Arc<Semaphore>>) -> (idle: Option<
    Duration,
>)
    ensures
        idle == time_to_idle(*registry),
{
    registry.policy().time_to_idle()
}

/// `Cache::clone`: another handle to the same store. Nothing is copied: both handles
/// see the same entries from then on.
pub assume_specification<K, V, S>[ <Cache<K, V, S> as Clone>::clone ](
    registry: &Cache<K, V, S>,
) -> (shared: Cache<K, V, S>)
    ensures
        shared == *registry,
;

} // verus!
