//! What the limiter guarantees, stated of every state that it can reach.

use crate::passage::{is_credential, Action, Event, Passage};
use crate::system::{
    lemma_reached_is_coherent, lemma_without_renewal_one_pool_each, Limiter, Move,
};
use http::HeaderValue;
use std::sync::Arc;
use tokio::sync::{OwnedSemaphorePermit, Semaphore};
use vstd::prelude::*;

verus! {

/// A passage only moves forward. The event that it expects takes it further, and any
/// other event leaves it where it is.
pub proof fn law_passage_only_moves_forward(passage: Passage, event: Event)
    ensures
        passage.expects(event) ==> passage.after(event).phase_of().rank()
            > passage.phase_of().rank(),
        !passage.expects(event) ==> passage.after(event) == passage,
{
}

/// A request under a credential is downstream exactly while it holds a permit. It is
/// sent downstream by the grant of a permit and by nothing else, and the downstream
/// answer, whatever it is, is what ends the hold: with it the passage hands out the
/// permit it held.
pub proof fn law_permit_is_held_from_grant_to_answer(passage: Passage, event: Event)
    ensures
        passage.after(event).pending_action() == Action::Forward <==> passage.after(
            event,
        ).is_downstream(),
        passage.after(event).credential() is Some && passage.after(event).is_downstream()
            <==> passage.after(event).holds_permit(),
        !passage.holds_permit() && passage.after(event).holds_permit() ==> passage is WaitPermit
            && event is Permit,
        passage.holds_permit() && !passage.after(event).holds_permit() ==> event is Forwarded
            && passage.after(event) is Done,
        passage matches Passage::Forward { permit, .. } ==> (!passage.after(
            event,
        ).holds_permit() ==> passage.released(event) == Some(permit)),
{
}

/// No permit is lost in a passage and none is made up. A permit that the passage
/// holds, and a permit that comes with an event, is afterwards either held by the
/// passage or handed out; and a permit that is handed out was held by the passage or
/// came with the event.
pub proof fn law_no_permit_is_lost(passage: Passage, event: Event)
    ensures
        passage matches Passage::Forward { permit, .. } ==> passage.released(event) == Some(
            permit,
        ) || (passage.after(event) matches Passage::Forward { permit: kept, .. } && kept
            == permit),
        event matches Event::Permit(permit) ==> passage.released(event) == Some(permit) || (
        passage.after(event) matches Passage::Forward { permit: kept, .. } && kept == permit),
        passage.released(event) matches Some(permit) ==> event == Event::Permit(permit) || (
        passage matches Passage::Forward { permit: held, .. } && held == permit),
{
}

/// A request without a credential is not limited. It goes downstream at once, whatever
/// the pools are doing, and returns when the downstream service has answered; neither
/// its coming nor its going touches the registry or any pool.
pub proof fn law_request_without_credential_is_not_limited(
    s: Limiter,
    id: nat,
    credential: Option<HeaderValue>,
)
    requires
        !is_credential(credential),
        s.enabled(Move::Arrive { id, header: credential }),
    ensures
        ({
            let arrived = s.apply(Move::Arrive { id, header: credential });
            let answered = arrived.apply(Move::Answer { id });
            &&& arrived.passages[id] == Passage::Bypass
            &&& arrived.passages[id].pending_action() == Action::Forward
            &&& arrived.registry == s.registry
            &&& arrived.pools == s.pools
            &&& arrived.enabled(Move::Answer { id })
            &&& answered.passages[id] == Passage::Done
            &&& answered.passages[id].pending_action() == Action::Return
            &&& answered.registry == s.registry
            &&& answered.pools == s.pools
        }),
{
}

/// The permits that a pool has out are exactly the requests that are inside the
/// downstream service on its strength: nothing is counted twice and nothing is lost.
pub proof fn law_outstanding_permits_are_requests_downstream(
    capacity: nat,
    idle: nat,
    moves: Seq<Move>,
    pool: Semaphore,
)
    requires
        Limiter::fresh(capacity, idle).admits(moves),
    ensures
        ({
            let s = Limiter::fresh(capacity, idle).after_all(moves);
            &&& s.forwarding(pool).finite()
            &&& s.pools.dom().contains(pool) ==> s.pools[pool].holders == s.forwarding(pool)
                && s.pools[pool].outstanding() == s.forwarding(pool).len()
                && s.pools[pool].capacity == capacity
            &&& !s.pools.dom().contains(pool) ==> s.forwarding(pool).len() == 0
        }),
{
    let s = Limiter::fresh(capacity, idle).after_all(moves);
    lemma_reached_is_coherent(capacity, idle, moves);
    if s.pools.dom().contains(pool) {
        assert(s.pool_coherent(pool));
        assert(s.pools[pool].holders =~= s.forwarding(pool));
    } else {
        assert forall|id: nat| !s.forwarding(pool).contains(id) by {
            if s.holds(id, pool) {
                assert(s.passage_coherent(id));
            }
        }
        assert(s.forwarding(pool) =~= Set::empty());
    }
}

/// At no time are more requests inside the downstream service on the strength of one
/// pool than the pool has permits.
pub proof fn law_pool_is_never_overbooked(
    capacity: nat,
    idle: nat,
    moves: Seq<Move>,
    pool: Semaphore,
)
    requires
        Limiter::fresh(capacity, idle).admits(moves),
    ensures
        Limiter::fresh(capacity, idle).after_all(moves).forwarding(pool).finite(),
        Limiter::fresh(capacity, idle).after_all(moves).forwarding(pool).len() <= capacity,
{
    let s = Limiter::fresh(capacity, idle).after_all(moves);
    lemma_reached_is_coherent(capacity, idle, moves);
    law_outstanding_permits_are_requests_downstream(capacity, idle, moves, pool);
    if s.pools.dom().contains(pool) {
        assert(s.pool_coherent(pool));
    }
}

/// Where the requests that are downstream under a credential all have their permits
/// from one pool, there are no more of them than a pool has permits.
pub proof fn lemma_requests_of_one_pool_are_bounded(
    capacity: nat,
    idle: nat,
    moves: Seq<Move>,
    credential: Seq<u8>,
    pool: Semaphore,
)
    requires
        Limiter::fresh(capacity, idle).admits(moves),
        ({
            let s = Limiter::fresh(capacity, idle).after_all(moves);
            forall|id: nat| #[trigger]
                s.forwarding_under(credential).contains(id) ==> s.holds(id, pool)
        }),
    ensures
        Limiter::fresh(capacity, idle).after_all(moves).forwarding_under(credential).finite(),
        Limiter::fresh(capacity, idle).after_all(moves).forwarding_under(credential).len()
            <= capacity,
{
    let s = Limiter::fresh(capacity, idle).after_all(moves);
    law_pool_is_never_overbooked(capacity, idle, moves, pool);
    assert forall|id: nat| s.forwarding_under(credential).contains(id) implies s.forwarding(
        pool,
    ).contains(id) by {
        assert(s.holds(id, pool));
    }
    vstd::set_lib::lemma_len_subset(s.forwarding_under(credential), s.forwarding(pool));
}

/// As long as no credential is used again after its entry has expired, at no time are
/// more requests under one credential inside the downstream service than a pool has
/// permits. (Where a credential is used again after its entry has expired while some
/// of its requests are still downstream, the requests that come after get a new pool,
/// and the bound holds of each pool by itself.)
pub proof fn law_credential_is_never_overbooked(
    capacity: nat,
    idle: nat,
    moves: Seq<Move>,
    credential: Seq<u8>,
)
    requires
        Limiter::fresh(capacity, idle).admits_without_renewal(moves),
    ensures
        Limiter::fresh(capacity, idle).after_all(moves).forwarding_under(credential).finite(),
        Limiter::fresh(capacity, idle).after_all(moves).forwarding_under(credential).len()
            <= capacity,
{
    let s = Limiter::fresh(capacity, idle).after_all(moves);
    lemma_without_renewal_one_pool_each(capacity, idle, moves);
    if exists|id: nat| s.forwarding_under(credential).contains(id) {
        let first = choose|id: nat| s.forwarding_under(credential).contains(id);
        let pool = s.passages[first].pool_of()->0;
        assert(s.passage_coherent(first));
        assert forall|id: nat| #[trigger]
            s.forwarding_under(credential).contains(id) implies s.holds(id, pool) by {
            assert(s.passage_coherent(id));
            let other = s.passages[id].pool_of()->0;
            assert(s.pools.dom().contains(other) && s.pools.dom().contains(pool));
        }
        lemma_requests_of_one_pool_are_bounded(capacity, idle, moves, credential, pool);
    } else {
        assert(s.forwarding_under(credential) =~= Set::empty());
    }
}

/// A request that waits on a pool is granted a permit if and only if fewer requests
/// are downstream on the strength of that pool than it has permits. So a pool admits
/// requests up to its capacity without delay, and the one after that waits.
pub proof fn law_pool_admits_while_it_has_room(
    capacity: nat,
    idle: nat,
    moves: Seq<Move>,
    id: nat,
    permit: OwnedSemaphorePermit,
    pool: Semaphore,
)
    requires
        Limiter::fresh(capacity, idle).admits(moves),
        Limiter::fresh(capacity, idle).after_all(moves).waits_on(id, pool),
    ensures
        ({
            let s = Limiter::fresh(capacity, idle).after_all(moves);
            s.enabled(Move::Grant { id, permit }) <==> s.forwarding(pool).len() < capacity
        }),
{
    let s = Limiter::fresh(capacity, idle).after_all(moves);
    lemma_reached_is_coherent(capacity, idle, moves);
    law_outstanding_permits_are_requests_downstream(capacity, idle, moves, pool);
    assert(s.passage_coherent(id));
}

/// A request that waits on a full pool goes on as soon as one of the requests that
/// hold its permits has been answered or has been dropped, and not before.
pub proof fn law_full_pool_waits_for_a_release(
    capacity: nat,
    idle: nat,
    moves: Seq<Move>,
    id: nat,
    permit: OwnedSemaphorePermit,
    holder: nat,
    pool: Semaphore,
)
    requires
        Limiter::fresh(capacity, idle).admits(moves),
        Limiter::fresh(capacity, idle).after_all(moves).waits_on(id, pool),
        Limiter::fresh(capacity, idle).after_all(moves).holds(holder, pool),
        Limiter::fresh(capacity, idle).after_all(moves).forwarding(pool).len() == capacity,
    ensures
        ({
            let s = Limiter::fresh(capacity, idle).after_all(moves);
            &&& !s.enabled(Move::Grant { id, permit })
            &&& s.enabled(Move::Answer { id: holder })
            &&& s.apply(Move::Answer { id: holder }).enabled(Move::Grant { id, permit })
            &&& s.enabled(Move::Cancel { id: holder })
            &&& s.apply(Move::Cancel { id: holder }).enabled(Move::Grant { id, permit })
        }),
{
    let s = Limiter::fresh(capacity, idle).after_all(moves);
    lemma_reached_is_coherent(capacity, idle, moves);
    law_outstanding_permits_are_requests_downstream(capacity, idle, moves, pool);
    assert(s.passage_coherent(id));
    assert(s.pool_coherent(pool));
    assert(s.pools[pool].holders.contains(holder));
}

/// Requests under different credentials do not get in each other's way. Whatever is
/// done under another credential, or under none, a waiting request keeps its place,
/// its pool keeps its count, and whether it can be granted a permit stays as it was:
/// that depends on its own pool alone, however full another pool may be.
pub proof fn law_credentials_do_not_interfere(
    capacity: nat,
    idle: nat,
    moves: Seq<Move>,
    other: Move,
    id: nat,
    permit: OwnedSemaphorePermit,
    pool: Semaphore,
)
    requires
        Limiter::fresh(capacity, idle).admits(moves),
        Limiter::fresh(capacity, idle).after_all(moves).waits_on(id, pool),
        Limiter::fresh(capacity, idle).after_all(moves).enabled(other),
        Limiter::fresh(capacity, idle).after_all(moves).credential_of(other) != Limiter::fresh(
            capacity,
            idle,
        ).after_all(moves).passages[id].credential(),
    ensures
        ({
            let s = Limiter::fresh(capacity, idle).after_all(moves);
            let t = s.apply(other);
            &&& t.waits_on(id, pool)
            &&& t.passages[id] == s.passages[id]
            &&& t.pools.dom().contains(pool)
            &&& t.pools[pool] == s.pools[pool]
            &&& t.forwarding(pool) == s.forwarding(pool)
            &&& t.enabled(Move::Grant { id, permit }) == s.enabled(Move::Grant { id, permit })
            &&& s.enabled(Move::Grant { id, permit }) == s.has_free_permit(pool)
        }),
{
    let s = Limiter::fresh(capacity, idle).after_all(moves);
    let t = s.apply(other);
    lemma_reached_is_coherent(capacity, idle, moves);
    assert(s.passage_coherent(id));
    match other {
        Move::Arrive { id: a, header } => {},
        Move::Lookup { id: a, pool: p } => {
            assert(a != id);
        },
        Move::Grant { id: a, permit: q } => {
            assert(a != id);
            assert(s.passage_coherent(a));
        },
        Move::Answer { id: a } => {
            assert(a != id);
            if s.passages[a] is Forward {
                assert(s.passage_coherent(a));
            }
        },
        Move::Cancel { id: a } => {
            assert(a != id);
            if s.passages[a] is Forward {
                assert(s.passage_coherent(a));
            }
        },
        Move::Elapse { by } => {},
        Move::Evict { credential } => {},
    }
    assert(t.passages[id] == s.passages[id]);
    assert(t.pools[pool] == s.pools[pool]);
    assert forall|r: nat| t.holds(r, pool) == s.holds(r, pool) by {
        assert(s.pool_coherent(pool));
        if s.passages.dom().contains(r) {
            assert(s.passage_coherent(r));
        }
    }
    assert(t.forwarding(pool) =~= s.forwarding(pool));
}

/// Permits do not leak. Once every request that held a permit of a pool has been
/// answered, with a response or with an error, or has been dropped, the pool has no
/// permit out.
pub proof fn law_permits_do_not_leak(capacity: nat, idle: nat, moves: Seq<Move>, pool: Semaphore)
    requires
        Limiter::fresh(capacity, idle).admits(moves),
        Limiter::fresh(capacity, idle).after_all(moves).pools.dom().contains(pool),
        forall|id: nat| !#[trigger] Limiter::fresh(capacity, idle).after_all(moves).holds(id, pool),
    ensures
        Limiter::fresh(capacity, idle).after_all(moves).pools[pool].outstanding() == 0,
{
    let s = Limiter::fresh(capacity, idle).after_all(moves);
    law_outstanding_permits_are_requests_downstream(capacity, idle, moves, pool);
    assert(s.forwarding(pool) =~= Set::empty());
}

/// A request that is dropped while it waits for a permit has not used one up: the
/// pools are as they were.
pub proof fn law_cancelled_waiter_takes_no_permit(s: Limiter, id: nat)
    requires
        s.passages.dom().contains(id),
        !s.passages[id].holds_permit(),
    ensures
        s.enabled(Move::Cancel { id }),
        s.apply(Move::Cancel { id }).pools == s.pools,
        s.apply(Move::Cancel { id }).registry == s.registry,
{
}

/// A credential that went unused for the length of the idle window starts afresh,
/// whether the registry still holds its expired entry or has swept it out. The next
/// request under it gets a new pool with no permit out and the full capacity, however
/// full the pool before it was; every pool made before stays as it is, with the
/// requests that still hold its permits. (So does a credential that is new to the
/// registry.)
pub proof fn law_idle_credential_starts_afresh(
    capacity: nat,
    idle: nat,
    moves: Seq<Move>,
    id: nat,
    pool: Arc<Semaphore>,
    permit: OwnedSemaphorePermit,
)
    requires
        Limiter::fresh(capacity, idle).admits(moves),
        Limiter::fresh(capacity, idle).after_all(moves).enabled(Move::Lookup { id, pool }),
        ({
            let s = Limiter::fresh(capacity, idle).after_all(moves);
            !s.live(s.passages[id].credential()->0)
        }),
    ensures
        ({
            let s = Limiter::fresh(capacity, idle).after_all(moves);
            let credential = s.passages[id].credential()->0;
            let t = s.apply(Move::Lookup { id, pool });
            &&& !s.pools.dom().contains(*pool)
            &&& s.registry.dom().contains(credential) ==> *pool != s.registry[credential].pool
            &&& t.registry[credential].pool == *pool
            &&& t.registry[credential].last_access == s.now
            &&& t.waits_on(id, *pool)
            &&& t.pools[*pool].outstanding() == 0
            &&& t.pools[*pool].capacity == capacity
            &&& t.forwarding(*pool).len() == 0
            &&& capacity > 0 ==> t.enabled(Move::Grant { id, permit })
            &&& forall|before: Semaphore| #[trigger]
                s.pools.dom().contains(before) ==> before != *pool && t.pools.dom().contains(
                    before,
                ) && t.pools[before] == s.pools[before]
        }),
{
    let s = Limiter::fresh(capacity, idle).after_all(moves);
    let credential = s.passages[id].credential()->0;
    let t = s.apply(Move::Lookup { id, pool });
    lemma_reached_is_coherent(capacity, idle, moves);
    if s.registry.dom().contains(credential) {
        assert(s.entry_coherent(credential));
    }
    assert forall|r: nat| !t.forwarding(*pool).contains(r) by {
        if t.holds(r, *pool) {
            assert(r != id);
            assert(s.passage_coherent(r));
        }
    }
    assert(t.forwarding(*pool) =~= Set::empty());
}

/// A credential in use keeps its pool. While the entry of a credential has not
/// expired, a request under it gets the pool that the registry holds, and the idle
/// window starts anew.
pub proof fn law_live_credential_keeps_its_pool(s: Limiter, id: nat, pool: Arc<Semaphore>)
    requires
        s.enabled(Move::Lookup { id, pool }),
        s.live(s.passages[id].credential()->0),
    ensures
        ({
            let credential = s.passages[id].credential()->0;
            let t = s.apply(Move::Lookup { id, pool });
            &&& *pool == s.registry[credential].pool
            &&& t.registry[credential].pool == s.registry[credential].pool
            &&& t.registry[credential].last_access == s.now
            &&& t.pools == s.pools
            &&& t.waits_on(id, *pool)
        }),
{
}

} // verus!
