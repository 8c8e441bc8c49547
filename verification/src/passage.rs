//! The passage of one request through the limiter.
//!
//! A passage is a small state machine. The code that drives it does the waiting: it
//! looks at the action the passage asks for, performs it, and hands back what came of
//! it as an event. The passage decides what happens next and owns what the request
//! holds while it is under way, the permit above all. A permit lives inside a passage
//! from the moment it is granted. When the downstream call has returned, the passage
//! hands the permit out to the driver, and the driver gives it back to the pool by
//! dropping it; a passage that is dropped half way through takes its permit with it.
//! The passage itself never drops a permit.

use crate::primitives::{first_value, header_bytes, header_of};
use http::{HeaderMap, HeaderValue};
use std::sync::Arc;
use tokio::sync::{OwnedSemaphorePermit, Semaphore};
use vstd::prelude::*;

verus! {

/// Where a request stands.
#[derive(Clone, Copy, PartialEq, Eq, Structural, Debug)]
pub enum Phase {
    /// The credential has not been read yet.
    Extract,
    /// No credential: the request is on its way downstream, unthrottled.
    Bypass,
    /// Waiting for the registry to hand out the pool of this credential.
    WaitPool,
    /// Waiting for a free slot in the pool.
    WaitPermit,
    /// Holding a permit; the request is on its way downstream.
    Forward,
    /// The downstream call has returned and the permit, if there was one, is handed out.
    Done,
}

/// What the driver has to do for a passage to move on.
#[derive(Clone, Copy, PartialEq, Eq, Structural, Debug)]
pub enum Action {
    /// Read the credential of the request.
    ReadCredential,
    /// Get the pool of the passage's credential from the registry, creating it if
    /// there is none.
    LookupPool,
    /// Acquire one permit from the passage's pool, waiting as long as it takes.
    AcquirePermit,
    /// Pass the request, unchanged, to the downstream service and await its answer.
    Forward,
    /// Hand the downstream answer, unchanged, to the caller.
    Return,
}

/// What came of the driver's last action.
#[derive(Debug)]
pub enum Event {
    /// The credential of the request, if it carries one.
    Credential(Option<HeaderValue>),
    /// The pool that the registry holds for the credential.
    Pool(Arc<Semaphore>),
    /// A permit of the pool.
    Permit(OwnedSemaphorePermit),
    /// The downstream service has answered, with a response or with an error.
    Forwarded,
}

/// One request under way, with everything it holds.
#[derive(Debug)]
pub enum Passage {
    /// The credential has not been read yet.
    Extract,
    /// There is no credential; the request is downstream without a permit.
    Bypass,
    /// The request carries `key` and waits for the registry.
    WaitPool { key: HeaderValue },
    /// The request waits for a permit of `pool`, the pool of `key`.
    WaitPermit { key: HeaderValue, pool: Arc<Semaphore> },
    /// The request is downstream and holds `permit`, a permit of `pool`.
    Forward { key: HeaderValue, pool: Arc<Semaphore>, permit: OwnedSemaphorePermit },
    /// The downstream service has answered and nothing is held any more.
    Done,
}

impl Phase {
    /// How far a request in this phase has come.
    pub open spec fn rank(self) -> nat {
        match self {
            Phase::Extract => 0,
            Phase::WaitPool => 1,
            Phase::WaitPermit => 2,
            Phase::Bypass => 3,
            Phase::Forward => 3,
            Phase::Done => 4,
        }
    }
}

/// The name of the header that carries the credential.
pub const CREDENTIAL_HEADER: &'static str = "authorization";

/// Whether a header value counts as a credential. One without any bytes does not: a
/// request that carries it is treated like one that carries none.
pub open spec fn is_credential(value: Option<HeaderValue>) -> bool {
    value matches Some(key) && header_bytes(key).len() > 0
}

impl Passage {
    /// The phase of this passage.
    pub open spec fn phase_of(&self) -> Phase {
        match self {
            Passage::Extract => Phase::Extract,
            Passage::Bypass => Phase::Bypass,
            Passage::WaitPool { .. } => Phase::WaitPool,
            Passage::WaitPermit { .. } => Phase::WaitPermit,
            Passage::Forward { .. } => Phase::Forward,
            Passage::Done => Phase::Done,
        }
    }

    /// The header value that this passage is limited under.
    pub open spec fn key_of(self) -> Option<HeaderValue> {
        match self {
            Passage::WaitPool { key } => Some(key),
            Passage::WaitPermit { key, .. } => Some(key),
            Passage::Forward { key, .. } => Some(key),
            _ => None,
        }
    }

    /// The credential that this passage is limited under: the bytes of its key.
    pub open spec fn credential(self) -> Option<Seq<u8>> {
        match self.key_of() {
            Some(key) => Some(header_bytes(key)),
            None => None,
        }
    }

    /// The pool that this passage waits on or holds a permit of.
    pub open spec fn pool_of(self) -> Option<Semaphore> {
        match self {
            Passage::WaitPermit { pool, .. } => Some(*pool),
            Passage::Forward { pool, .. } => Some(*pool),
            _ => None,
        }
    }

    /// Whether this passage holds a permit.
    pub open spec fn holds_permit(self) -> bool {
        self is Forward
    }

    /// Whether the request of this passage is inside the downstream service.
    pub open spec fn is_downstream(self) -> bool {
        self is Forward || self is Bypass
    }

    /// The action that this passage is waiting for.
    pub open spec fn pending_action(&self) -> Action {
        match self {
            Passage::Extract => Action::ReadCredential,
            Passage::Bypass => Action::Forward,
            Passage::WaitPool { .. } => Action::LookupPool,
            Passage::WaitPermit { .. } => Action::AcquirePermit,
            Passage::Forward { .. } => Action::Forward,
            Passage::Done => Action::Return,
        }
    }

    /// Whether the event is the outcome of the action that this passage is waiting for.
    pub open spec fn expects(self, event: Event) -> bool {
        match self {
            Passage::Extract => event is Credential,
            Passage::Bypass => event is Forwarded,
            Passage::WaitPool { .. } => event is Pool,
            Passage::WaitPermit { .. } => event is Permit,
            Passage::Forward { .. } => event is Forwarded,
            Passage::Done => false,
        }
    }

    /// The passage after an event. An event that the passage does not expect changes
    /// nothing.
    pub open spec fn after(self, event: Event) -> Passage {
        match self {
            Passage::Extract => match event {
                Event::Credential(Some(key)) => if header_bytes(key).len() > 0 {
                    Passage::WaitPool { key }
                } else {
                    Passage::Bypass
                },
                Event::Credential(None) => Passage::Bypass,
                _ => self,
            },
            Passage::Bypass => match event {
                Event::Forwarded => Passage::Done,
                _ => self,
            },
            Passage::WaitPool { key } => match event {
                Event::Pool(pool) => Passage::WaitPermit { key, pool },
                _ => self,
            },
            Passage::WaitPermit { key, pool } => match event {
                Event::Permit(permit) => Passage::Forward { key, pool, permit },
                _ => self,
            },
            Passage::Forward { .. } => match event {
                Event::Forwarded => Passage::Done,
                _ => self,
            },
            Passage::Done => self,
        }
    }

    /// The permit that leaves the passage on an event, for the driver to give back:
    /// the permit that the passage holds, on the downstream answer, and the permit
    /// that comes with an event, where the passage does not wait for one.
    pub open spec fn released(self, event: Event) -> Option<OwnedSemaphorePermit> {
        match event {
            Event::Forwarded => match self {
                Passage::Forward { permit, .. } => Some(permit),
                _ => None,
            },
            Event::Permit(permit) => if self is WaitPermit {
                None
            } else {
                Some(permit)
            },
            _ => None,
        }
    }

    /// A passage for a request that has just come in.
    pub fn start() -> (passage: Passage)
        ensures
            passage == Passage::Extract,
    {
        Passage::Extract
    }

    /// A passage for a request whose credential has been read.
    pub fn with_credential(credential: Option<HeaderValue>) -> (passage: Passage)
        ensures
            passage == Passage::Extract.after(Event::Credential(credential)),
            is_credential(credential) <==> passage is WaitPool,
            !is_credential(credential) <==> passage is Bypass,
    {
        match credential {
            Some(key) => {
                if key.is_empty() {
                    Passage::Bypass
                } else {
                    Passage::WaitPool { key }
                }
            },
            None => Passage::Bypass,
        }
    }

    /// Starts a passage and reads the credential off the request's headers: the first
    /// `authorization` line, if it has any bytes.
    pub fn begin(headers: &HeaderMap<HeaderValue>) -> (passage: Passage)
        ensures
            passage == Passage::Extract.after(
                Event::Credential(header_of(*headers, CREDENTIAL_HEADER@)),
            ),
            is_credential(header_of(*headers, CREDENTIAL_HEADER@)) <==> passage is WaitPool,
            !is_credential(header_of(*headers, CREDENTIAL_HEADER@)) <==> passage is Bypass,
    {
        Passage::with_credential(first_value(headers, CREDENTIAL_HEADER))
    }

    /// Moves the passage on by one event, and hands out the permit that leaves the
    /// passage with it, if one does. The driver gives that permit back to its pool by
    /// dropping it. An event that the passage does not expect changes nothing, and a
    /// permit that comes with such an event is handed out again.
    pub fn step(self, event: Event) -> (moved: (Passage, Option<OwnedSemaphorePermit>))
        ensures
            moved.0 == self.after(event),
            moved.1 == self.released(event),
            !self.expects(event) ==> moved.0 == self,
    {
        match self {
            Passage::Extract => match event {
                Event::Credential(credential) => (Passage::with_credential(credential), None),
                Event::Permit(stray) => (Passage::Extract, Some(stray)),
                _ => (Passage::Extract, None),
            },
            Passage::Bypass => match event {
                Event::Forwarded => (Passage::Done, None),
                Event::Permit(stray) => (Passage::Bypass, Some(stray)),
                _ => (Passage::Bypass, None),
            },
            Passage::WaitPool { key } => match event {
                Event::Pool(pool) => (Passage::WaitPermit { key, pool }, None),
                Event::Permit(stray) => (Passage::WaitPool { key }, Some(stray)),
                _ => (Passage::WaitPool { key }, None),
            },
            Passage::WaitPermit { key, pool } => match event {
                Event::Permit(permit) => (Passage::Forward { key, pool, permit }, None),
                _ => (Passage::WaitPermit { key, pool }, None),
            },
            Passage::Forward { key, pool, permit } => match event {
                Event::Forwarded => (Passage::Done, Some(permit)),
                Event::Permit(stray) => (Passage::Forward { key, pool, permit }, Some(stray)),
                _ => (Passage::Forward { key, pool, permit }, None),
            },
            Passage::Done => match event {
                Event::Permit(stray) => (Passage::Done, Some(stray)),
                _ => (Passage::Done, None),
            },
        }
    }

    /// The phase of this passage.
    #[verifier::when_used_as_spec(phase_of)]
    pub fn phase(&self) -> (phase: Phase)
        ensures
            phase == self.phase_of(),
    {
        match self {
            Passage::Extract => Phase::Extract,
            Passage::Bypass => Phase::Bypass,
            Passage::WaitPool { .. } => Phase::WaitPool,
            Passage::WaitPermit { .. } => Phase::WaitPermit,
            Passage::Forward { .. } => Phase::Forward,
            Passage::Done => Phase::Done,
        }
    }

    /// The action that the driver has to perform next.
    #[verifier::when_used_as_spec(pending_action)]
    pub fn pending(&self) -> (action: Action)
        ensures
            action == self.pending_action(),
    {
        match self {
            Passage::Extract => Action::ReadCredential,
            Passage::Bypass => Action::Forward,
            Passage::WaitPool { .. } => Action::LookupPool,
            Passage::WaitPermit { .. } => Action::AcquirePermit,
            Passage::Forward { .. } => Action::Forward,
            Passage::Done => Action::Return,
        }
    }

    /// The credential to look up in the registry, while the passage has one.
    pub fn key(&self) -> (key: Option<&HeaderValue>)
        ensures
            match key {
                Some(k) => self.key_of() == Some(*k),
                None => self.key_of() is None,
            },
    {
        match self {
            Passage::WaitPool { key } => Some(key),
            Passage::WaitPermit { key, .. } => Some(key),
            Passage::Forward { key, .. } => Some(key),
            _ => None,
        }
    }

    /// The pool to acquire a permit from, while the passage has one.
    pub fn pool(&self) -> (pool: Option<&Arc<Semaphore>>)
        ensures
            match pool {
                Some(p) => self.pool_of() == Some(**p),
                None => self.pool_of() is None,
            },
    {
        match self {
            Passage::WaitPermit { pool, .. } => Some(pool),
            Passage::Forward { pool, .. } => Some(pool),
            _ => None,
        }
    }
}

} // verus!
