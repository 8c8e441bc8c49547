//! The limiter as a whole: every passage under way, the registry, and the pools.
//!
//! The passages are the library's own state machine. The registry and the pools are
//! outside primitives that work while the passages wait, so here they are described,
//! not run. A pool is a gate that never has more permits out than it was created with.
//! The registry is a map that hands out one pool per credential, creates a pool as
//! `new_pool` makes it where it has none, and forgets an entry that has not been used
//! for the length of the idle window. This description is what the guarantees of the
//! limiter rest on; it is an assumption about the two primitives, not a result.
//!
//! A state of the whole changes by moves, and each move that concerns a passage
//! changes that passage exactly as `Passage::after` says. Time is counted in
//! nanoseconds, requests are told apart by a number, credentials by their bytes, and
//! pools by the semaphore that gates them.

use crate::passage::{Event, Passage};
use crate::primitives::initial_permits;
use http::HeaderValue;
use std::sync::Arc;
use tokio::sync::{OwnedSemaphorePermit, Semaphore};
use vstd::prelude::*;

verus! {

/// One permit pool: a gate with a fixed number of permits.
pub struct Pool {
    /// The credential that the pool was created for.
    pub credential: Seq<u8>,
    /// The number of permits, fixed when the pool is created.
    pub capacity: nat,
    /// The requests that hold a permit of this pool.
    pub holders: Set<nat>,
}

/// One entry of the registry.
pub struct Entry {
    /// The pool of the credential.
    pub pool: Semaphore,
    /// When the entry was created or last looked up.
    pub last_access: nat,
}

/// The limiter and everything under way in it.
pub struct Limiter {
    /// The number of permits that a new pool gets.
    pub capacity: nat,
    /// The idle window: an entry unused for this long is expired.
    pub idle: nat,
    /// The time.
    pub now: nat,
    /// The registry, from credential to entry.
    pub registry: Map<Seq<u8>, Entry>,
    /// The pools that the registry has created so far.
    pub pools: Map<Semaphore, Pool>,
    /// The passages under way, each under the number of its request.
    pub passages: Map<nat, Passage>,
}

/// One change of the limiter's state.
pub enum Move {
    /// A request comes in and its credential is read.
    Arrive { id: nat, header: Option<HeaderValue> },
    /// The registry hands a waiting request the pool of its credential.
    Lookup { id: nat, pool: Arc<Semaphore> },
    /// A pool grants a waiting request one of its permits.
    Grant { id: nat, permit: OwnedSemaphorePermit },
    /// The downstream service answers a request, and the permit that the passage hands
    /// out goes back to its pool.
    Answer { id: nat },
    /// A request is dropped, wherever it stands, and the permit it may hold goes back
    /// to its pool.
    Cancel { id: nat },
    /// Time passes.
    Elapse { by: nat },
    /// The registry sweeps out an expired entry.
    Evict { credential: Seq<u8> },
}

impl Pool {
    /// The number of permits that are out.
    pub open spec fn outstanding(self) -> nat {
        self.holders.len()
    }

    /// The pool with one more holder.
    pub open spec fn granted_to(self, id: nat) -> Pool {
        Pool { holders: self.holders.insert(id), ..self }
    }

    /// The pool with one holder less.
    pub open spec fn released_by(self, id: nat) -> Pool {
        Pool { holders: self.holders.remove(id), ..self }
    }
}

impl Limiter {
    /// A limiter in which nothing has happened yet.
    pub open spec fn fresh(capacity: nat, idle: nat) -> Limiter {
        Limiter {
            capacity,
            idle,
            now: 0,
            registry: Map::empty(),
            pools: Map::empty(),
            passages: Map::empty(),
        }
    }

    /// Whether the registry holds an entry for the credential that has not expired.
    pub open spec fn live(self, credential: Seq<u8>) -> bool {
        self.registry.dom().contains(credential) && self.now < self.registry[credential].last_access
            + self.idle
    }

    /// Whether the request holds a permit of the pool, which is to say that it is
    /// inside the downstream service on the strength of that pool.
    pub open spec fn holds(self, id: nat, pool: Semaphore) -> bool {
        self.passages.dom().contains(id) && self.passages[id] is Forward
            && self.passages[id].pool_of() == Some(pool)
    }

    /// The requests that are inside the downstream service with a permit of the pool.
    pub open spec fn forwarding(self, pool: Semaphore) -> Set<nat> {
        Set::new(|id: nat| self.holds(id, pool))
    }

    /// Whether the request waits for a permit of the pool.
    pub open spec fn waits_on(self, id: nat, pool: Semaphore) -> bool {
        self.passages.dom().contains(id) && self.passages[id] is WaitPermit
            && self.passages[id].pool_of() == Some(pool)
    }

    /// Whether the pool has a permit left.
    pub open spec fn has_free_permit(self, pool: Semaphore) -> bool {
        self.pools.dom().contains(pool) && self.pools[pool].outstanding()
            < self.pools[pool].capacity
    }

    /// The pools after the passage has given back the permit it may hold.
    pub open spec fn pools_without(self, id: nat) -> Map<Semaphore, Pool> {
        if self.passages.dom().contains(id) && self.passages[id] is Forward
            && self.pools.dom().contains(self.passages[id].pool_of()->0) {
            let pool = self.passages[id].pool_of()->0;
            self.pools.insert(pool, self.pools[pool].released_by(id))
        } else {
            self.pools
        }
    }

    /// Whether the move can happen in this state.
    pub open spec fn enabled(self, m: Move) -> bool {
        match m {
            Move::Arrive { id, .. } => !self.passages.dom().contains(id),
            Move::Lookup { id, pool } => {
                &&& self.passages.dom().contains(id)
                &&& self.passages[id] is WaitPool
                &&& if self.live(self.passages[id].credential()->0) {
                    *pool == self.registry[self.passages[id].credential()->0].pool
                } else {
                    !self.pools.dom().contains(*pool) && initial_permits(*pool) == self.capacity
                }
            },
            Move::Grant { id, .. } => {
                &&& self.passages.dom().contains(id)
                &&& self.passages[id] is WaitPermit
                &&& self.has_free_permit(self.passages[id].pool_of()->0)
            },
            Move::Answer { id } => {
                &&& self.passages.dom().contains(id)
                &&& self.passages[id].is_downstream()
            },
            Move::Cancel { id } => self.passages.dom().contains(id),
            Move::Elapse { .. } => true,
            Move::Evict { credential } => {
                &&& self.registry.dom().contains(credential)
                &&& !self.live(credential)
            },
        }
    }

    /// The state after the move.
    pub open spec fn apply(self, m: Move) -> Limiter {
        match m {
            Move::Arrive { id, header } => Limiter {
                passages: self.passages.insert(
                    id,
                    Passage::Extract.after(Event::Credential(header)),
                ),
                ..self
            },
            Move::Lookup { id, pool } => {
                let credential = self.passages[id].credential()->0;
                Limiter {
                    registry: self.registry.insert(
                        credential,
                        Entry { pool: *pool, last_access: self.now },
                    ),
                    pools: if self.live(credential) {
                        self.pools
                    } else {
                        self.pools.insert(
                            *pool,
                            Pool {
                                credential,
                                capacity: initial_permits(*pool),
                                holders: Set::empty(),
                            },
                        )
                    },
                    passages: self.passages.insert(id, self.passages[id].after(Event::Pool(pool))),
                    ..self
                }
            },
            Move::Grant { id, permit } => {
                let pool = self.passages[id].pool_of()->0;
                Limiter {
                    pools: self.pools.insert(pool, self.pools[pool].granted_to(id)),
                    passages: self.passages.insert(
                        id,
                        self.passages[id].after(Event::Permit(permit)),
                    ),
                    ..self
                }
            },
            Move::Answer { id } => Limiter {
                pools: self.pools_without(id),
                passages: self.passages.insert(id, self.passages[id].after(Event::Forwarded)),
                ..self
            },
            Move::Cancel { id } => Limiter {
                pools: self.pools_without(id),
                passages: self.passages.remove(id),
                ..self
            },
            Move::Elapse { by } => Limiter { now: self.now + by, ..self },
            Move::Evict { credential } => Limiter {
                registry: self.registry.remove(credential),
                ..self
            },
        }
    }

    /// Whether each of the moves can happen in the state that the moves before it
    /// lead to.
    pub open spec fn admits(self, moves: Seq<Move>) -> bool
        decreases moves.len(),
    {
        moves.len() > 0 ==> self.admits(moves.drop_last()) && self.after_all(
            moves.drop_last(),
        ).enabled(moves.last())
    }

    /// The state after all of the moves, one after the other.
    pub open spec fn after_all(self, moves: Seq<Move>) -> Limiter
        decreases moves.len(),
    {
        if moves.len() == 0 {
            self
        } else {
            self.after_all(moves.drop_last()).apply(moves.last())
        }
    }

    /// The requests that are inside the downstream service under the credential.
    pub open spec fn forwarding_under(self, credential: Seq<u8>) -> Set<nat> {
        Set::new(
            |id: nat|
                self.passages.dom().contains(id) && self.passages[id] is Forward
                    && self.passages[id].credential() == Some(credential),
        )
    }

    /// The credential that a move is made under, if it is made under one.
    pub open spec fn credential_of(self, m: Move) -> Option<Seq<u8>> {
        match m {
            Move::Arrive { header, .. } => Passage::Extract.after(
                Event::Credential(header),
            ).credential(),
            Move::Lookup { id, .. } => self.passages[id].credential(),
            Move::Grant { id, .. } => self.passages[id].credential(),
            Move::Answer { id } => self.passages[id].credential(),
            Move::Cancel { id } => self.passages[id].credential(),
            Move::Elapse { .. } => None,
            Move::Evict { credential } => Some(credential),
        }
    }

    /// Whether a pool has been created for the credential, now or at any time before.
    pub open spec fn has_pool_for(self, credential: Seq<u8>) -> bool {
        exists|pool: Semaphore| #[trigger]
            self.pools.dom().contains(pool) && self.pools[pool].credential == credential
    }

    /// Whether the move is a lookup that gives a credential a second pool: the
    /// credential had a pool, and its entry is no longer live.
    pub open spec fn renews(self, m: Move) -> bool {
        m matches Move::Lookup { id, .. } && !self.live(self.passages[id].credential()->0)
            && self.has_pool_for(self.passages[id].credential()->0)
    }

    /// Whether each of the moves can happen in the state that the moves before it
    /// lead to, and none of them gives a credential a second pool. This is how the
    /// limiter runs as long as no credential is used again after its entry has expired.
    pub open spec fn admits_without_renewal(self, moves: Seq<Move>) -> bool
        decreases moves.len(),
    {
        moves.len() > 0 ==> self.admits_without_renewal(moves.drop_last()) && self.after_all(
            moves.drop_last(),
        ).enabled(moves.last()) && !self.after_all(moves.drop_last()).renews(moves.last())
    }

    /// Whether no credential has had more than one pool.
    pub open spec fn one_pool_each(self) -> bool {
        forall|p: Semaphore, q: Semaphore|
            #![trigger self.pools.dom().contains(p), self.pools.dom().contains(q)]
            self.pools.dom().contains(p) && self.pools.dom().contains(q)
                && self.pools[p].credential == self.pools[q].credential ==> p == q
    }

    /// What holds of a pool in every state that can be reached.
    pub open spec fn pool_coherent(self, pool: Semaphore) -> bool {
        &&& self.pools[pool].holders.finite()
        &&& self.pools[pool].outstanding() <= self.pools[pool].capacity
        &&& self.pools[pool].capacity == self.capacity
        &&& forall|id: nat| #[trigger]
            self.pools[pool].holders.contains(id) <==> self.holds(id, pool)
    }

    /// What holds of a passage in every state that can be reached.
    pub open spec fn passage_coherent(self, id: nat) -> bool {
        self.passages[id].pool_of() matches Some(pool) ==> {
            &&& self.pools.dom().contains(pool)
            &&& self.passages[id].credential() == Some(self.pools[pool].credential)
        }
    }

    /// What holds of a registry entry in every state that can be reached.
    pub open spec fn entry_coherent(self, credential: Seq<u8>) -> bool {
        &&& self.pools.dom().contains(self.registry[credential].pool)
        &&& self.pools[self.registry[credential].pool].credential == credential
        &&& self.registry[credential].last_access <= self.now
    }

    /// What holds of every state that can be reached.
    pub open spec fn coherent(self) -> bool {
        &&& forall|pool: Semaphore| #[trigger]
            self.pools.dom().contains(pool) ==> self.pool_coherent(pool)
        &&& forall|id: nat| #[trigger]
            self.passages.dom().contains(id) ==> self.passage_coherent(id)
        &&& forall|credential: Seq<u8>| #[trigger]
            self.registry.dom().contains(credential) ==> self.entry_coherent(credential)
    }
}

/// A move that is enabled leads from a coherent state to a coherent state.
pub proof fn lemma_move_keeps_coherence(s: Limiter, m: Move)
    requires
        s.coherent(),
        s.enabled(m),
    ensures
        s.apply(m).coherent(),
{
    let t = s.apply(m);
    assert forall|pool: Semaphore| #[trigger] t.pools.dom().contains(pool) implies t.pool_coherent(
        pool,
    ) by {
        if s.pools.dom().contains(pool) {
            assert(s.pool_coherent(pool));
        }
        assert forall|id: nat| #[trigger]
            t.pools[pool].holders.contains(id) <==> t.holds(id, pool) by {
            if s.pools.dom().contains(pool) {
                assert(s.pools[pool].holders.contains(id) <==> s.holds(id, pool));
            }
            if s.passages.dom().contains(id) {
                assert(s.passage_coherent(id));
            }
        }
    }
    assert forall|id: nat| #[trigger] t.passages.dom().contains(id) implies t.passage_coherent(
        id,
    ) by {
        if s.passages.dom().contains(id) {
            assert(s.passage_coherent(id));
        }
        if let Move::Lookup { id: mover, .. } = m {
            if s.live(s.passages[mover].credential()->0) {
                assert(s.entry_coherent(s.passages[mover].credential()->0));
            }
        }
    }
    assert forall|credential: Seq<u8>| #[trigger]
        t.registry.dom().contains(credential) implies t.entry_coherent(credential) by {
        if s.registry.dom().contains(credential) {
            assert(s.entry_coherent(credential));
        }
    }
}

/// Every state that moves can reach from a coherent state is coherent.
pub proof fn lemma_moves_keep_coherence(s: Limiter, moves: Seq<Move>)
    requires
        s.coherent(),
        s.admits(moves),
    ensures
        s.after_all(moves).coherent(),
    decreases moves.len(),
{
    if moves.len() > 0 {
        lemma_moves_keep_coherence(s, moves.drop_last());
        lemma_move_keeps_coherence(s.after_all(moves.drop_last()), moves.last());
    }
}

/// A move that gives no credential a second pool leaves every credential with one
/// pool at most.
pub proof fn lemma_move_keeps_one_pool_each(s: Limiter, m: Move)
    requires
        s.coherent(),
        s.one_pool_each(),
        s.enabled(m),
        !s.renews(m),
    ensures
        s.apply(m).one_pool_each(),
{
    let t = s.apply(m);
    assert forall|p: Semaphore, q: Semaphore|
        #![trigger t.pools.dom().contains(p), t.pools.dom().contains(q)]
        t.pools.dom().contains(p) && t.pools.dom().contains(q) && t.pools[p].credential
            == t.pools[q].credential implies p == q by {
        if let Move::Lookup { id, pool } = m {
            let credential = s.passages[id].credential()->0;
            if !s.live(credential) {
                assert(!s.has_pool_for(credential));
                if p != q {
                    if s.pools.dom().contains(p) && s.pools.dom().contains(q) {
                    } else if s.pools.dom().contains(p) {
                        assert(s.pools[p].credential != credential);
                    } else {
                        assert(s.pools.dom().contains(q));
                        assert(s.pools[q].credential != credential);
                    }
                }
            }
        }
        if s.pools.dom().contains(p) && s.pools.dom().contains(q) {
            assert(t.pools[p].credential == s.pools[p].credential);
            assert(t.pools[q].credential == s.pools[q].credential);
        }
    }
}

/// Moves that give no credential a second pool are moves that can happen, and in the
/// state they lead to from the start every credential has one pool at most.
pub proof fn lemma_without_renewal_one_pool_each(capacity: nat, idle: nat, moves: Seq<Move>)
    requires
        Limiter::fresh(capacity, idle).admits_without_renewal(moves),
    ensures
        Limiter::fresh(capacity, idle).admits(moves),
        Limiter::fresh(capacity, idle).after_all(moves).coherent(),
        Limiter::fresh(capacity, idle).after_all(moves).one_pool_each(),
    decreases moves.len(),
{
    if moves.len() > 0 {
        lemma_without_renewal_one_pool_each(capacity, idle, moves.drop_last());
        let s = Limiter::fresh(capacity, idle).after_all(moves.drop_last());
        lemma_move_keeps_coherence(s, moves.last());
        lemma_move_keeps_one_pool_each(s, moves.last());
    }
}

/// Every state that moves can reach from the start is coherent.
pub proof fn lemma_reached_is_coherent(capacity: nat, idle: nat, moves: Seq<Move>)
    requires
        Limiter::fresh(capacity, idle).admits(moves),
    ensures
        Limiter::fresh(capacity, idle).after_all(moves).coherent(),
        Limiter::fresh(capacity, idle).after_all(moves).capacity == capacity,
        Limiter::fresh(capacity, idle).after_all(moves).idle == idle,
    decreases moves.len(),
{
    lemma_moves_keep_coherence(Limiter::fresh(capacity, idle), moves);
    if moves.len() > 0 {
        lemma_reached_is_coherent(capacity, idle, moves.drop_last());
    }
}

} // verus!
