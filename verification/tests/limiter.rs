use access_token_rate_limit::layer::{AccessTokenRateLimit, AccessTokenRateLimitLayer};
use access_token_rate_limit::passage::{Action, Event, Passage, Phase};
use http::header::AUTHORIZATION;
use http::{HeaderMap, HeaderValue};
use std::future::Future;
use std::pin::Pin;
use std::sync::Arc;
use std::task::{Context, Poll, Waker};
use std::time::{Duration, Instant};
use tokio::sync::{AcquireError, OwnedSemaphorePermit, Semaphore};

type Acquire = Pin<Box<dyn Future<Output = Result<OwnedSemaphorePermit, AcquireError>>>>;

fn settle<F: Future>(future: F) -> F::Output {
    let mut future: Pin<Box<F>> = Box::pin(future);
    let mut context = Context::from_waker(Waker::noop());
    for _ in 0..1000 {
        if let Poll::Ready(value) = future.as_mut().poll(&mut context) {
            return value;
        }
    }
    panic!("the future did not settle");
}

fn idle_for(duration: Duration) {
    let start = Instant::now();
    while start.elapsed() < duration {
        std::hint::spin_loop();
    }
}

/// Makes the pool only when the registry asks for it.
struct FreshPool<'a>(&'a AccessTokenRateLimit<()>);

impl Future for FreshPool<'_> {
    type Output = Arc<Semaphore>;

    fn poll(self: Pin<&mut Self>, _: &mut Context<'_>) -> Poll<Arc<Semaphore>> {
        Poll::Ready(self.0.new_pool())
    }
}

/// One request and the wait it may be in.
struct Request {
    passage: Passage,
    acquire: Option<Acquire>,
}

impl Request {
    fn with(credential: Option<&'static str>) -> Request {
        let mut headers = HeaderMap::new();
        if let Some(token) = credential {
            headers.insert(AUTHORIZATION, HeaderValue::from_static(token));
        }
        Request { passage: Passage::begin(&headers), acquire: None }
    }

    fn under(token: &'static str) -> Request {
        Request::with(Some(token))
    }

    fn arrive(credential: Option<&'static str>, limited: &AccessTokenRateLimit<()>) -> Request {
        let mut request = Request::with(credential);
        request.run(limited);
        request
    }

    /// Does what the passage asks for, until the request is downstream or has to wait.
    fn run(&mut self, limited: &AccessTokenRateLimit<()>) {
        loop {
            let event = match self.passage.pending() {
                Action::LookupPool => {
                    let key = self.passage.key().unwrap().clone();
                    Event::Pool(settle(limited.registry().get_with(key, FreshPool(limited))))
                }
                Action::AcquirePermit => {
                    if self.acquire.is_none() {
                        let pool = self.passage.pool().unwrap().clone();
                        self.acquire = Some(Box::pin(pool.acquire_owned()));
                    }
                    let mut context = Context::from_waker(Waker::noop());
                    match self.acquire.as_mut().unwrap().as_mut().poll(&mut context) {
                        Poll::Ready(permit) => {
                            self.acquire = None;
                            Event::Permit(permit.unwrap())
                        }
                        Poll::Pending => return,
                    }
                }
                Action::ReadCredential | Action::Forward | Action::Return => return,
            };
            self.step(event);
        }
    }

    /// Moves the passage on and gives back the permit that leaves it.
    fn step(&mut self, event: Event) {
        let passage = std::mem::replace(&mut self.passage, Passage::Done);
        let (next, released) = passage.step(event);
        self.passage = next;
        drop(released);
    }

    fn answer(&mut self) {
        assert_eq!(self.passage.pending(), Action::Forward);
        self.step(Event::Forwarded);
    }

    fn phase(&self) -> Phase {
        self.passage.phase()
    }

    fn is_downstream(&self) -> bool {
        self.passage.pending() == Action::Forward
    }

    fn pool(&self) -> Arc<Semaphore> {
        self.passage.pool().unwrap().clone()
    }
}

fn limiter(idle: Duration, capacity: usize) -> AccessTokenRateLimit<()> {
    AccessTokenRateLimitLayer::with_capacity(idle, capacity).layer(())
}

fn downstream(requests: &[Request]) -> usize {
    requests.iter().filter(|r| r.is_downstream()).count()
}

#[test]
fn a_request_without_credential_goes_straight_through() {
    let limited = limiter(Duration::from_secs(60), 1);
    let mut request = Request::arrive(None, &limited);
    assert_eq!(request.phase(), Phase::Bypass);
    assert!(request.is_downstream());
    assert_eq!(limited.registry().iter().count(), 0);
    request.answer();
    assert_eq!(request.phase(), Phase::Done);
    assert_eq!(request.passage.pending(), Action::Return);
    assert_eq!(limited.registry().iter().count(), 0);
}

#[test]
fn requests_without_credential_are_not_counted() {
    let limited = limiter(Duration::from_secs(60), 1);
    let mut requests: Vec<Request> = (0..50).map(|_| Request::arrive(None, &limited)).collect();
    assert_eq!(downstream(&requests), 50);
    assert_eq!(limited.registry().iter().count(), 0);
    for request in requests.iter_mut() {
        request.answer();
    }
    assert!(requests.iter().all(|r| r.phase() == Phase::Done));
    assert_eq!(limited.registry().iter().count(), 0);
}

#[test]
fn a_request_without_credential_passes_a_full_pool() {
    let limited = limiter(Duration::from_secs(60), 1);
    let holder = Request::arrive(Some("tok-A"), &limited);
    let waiter = Request::arrive(Some("tok-A"), &limited);
    assert_eq!(holder.phase(), Phase::Forward);
    assert_eq!(waiter.phase(), Phase::WaitPermit);
    let mut free = Request::arrive(None, &limited);
    assert_eq!(free.phase(), Phase::Bypass);
    free.answer();
    assert_eq!(free.phase(), Phase::Done);
    assert_eq!(holder.pool().available_permits(), 0);
    assert_eq!(limited.registry().iter().count(), 1);
}

#[test]
fn an_empty_credential_is_not_limited() {
    let limited = limiter(Duration::from_secs(60), 1);
    let first = Request::arrive(Some(""), &limited);
    let second = Request::arrive(Some(""), &limited);
    assert_eq!(first.phase(), Phase::Bypass);
    assert_eq!(second.phase(), Phase::Bypass);
    assert_eq!(limited.registry().iter().count(), 0);
}

#[test]
fn three_requests_on_a_pool_of_two() {
    let limited = limiter(Duration::from_secs(60), 2);
    let mut first = Request::arrive(Some("tok-A"), &limited);
    let second = Request::arrive(Some("tok-A"), &limited);
    let mut third = Request::arrive(Some("tok-A"), &limited);
    assert_eq!(first.phase(), Phase::Forward);
    assert_eq!(second.phase(), Phase::Forward);
    assert_eq!(third.phase(), Phase::WaitPermit);
    assert!(!third.is_downstream());
    assert_eq!(first.pool().available_permits(), 0);
    third.run(&limited);
    assert_eq!(third.phase(), Phase::WaitPermit);
    first.answer();
    assert_eq!(first.phase(), Phase::Done);
    third.run(&limited);
    assert_eq!(third.phase(), Phase::Forward);
    assert!(third.is_downstream());
    assert_eq!(second.phase(), Phase::Forward);
    assert_eq!(second.pool().available_permits(), 0);
}

#[test]
fn a_full_pool_does_not_hold_up_another_credential() {
    let limited = limiter(Duration::from_secs(60), 1);
    let long_running = Request::arrive(Some("tok-A"), &limited);
    assert_eq!(long_running.phase(), Phase::Forward);
    assert_eq!(long_running.pool().available_permits(), 0);
    let mut other = Request::arrive(Some("tok-B"), &limited);
    assert_eq!(other.phase(), Phase::Forward);
    assert!(!Arc::ptr_eq(&other.pool(), &long_running.pool()));
    other.answer();
    assert_eq!(other.phase(), Phase::Done);
    assert_eq!(long_running.phase(), Phase::Forward);
    assert_eq!(long_running.pool().available_permits(), 0);
}

#[test]
fn each_credential_waits_on_its_own_pool() {
    let limited = limiter(Duration::from_secs(60), 2);
    let mut a: Vec<Request> = (0..3).map(|_| Request::arrive(Some("tok-A"), &limited)).collect();
    let mut b: Vec<Request> = (0..3).map(|_| Request::arrive(Some("tok-B"), &limited)).collect();
    assert_eq!(downstream(&a), 2);
    assert_eq!(downstream(&b), 2);
    assert_eq!(a[2].phase(), Phase::WaitPermit);
    assert_eq!(b[2].phase(), Phase::WaitPermit);
    b[0].answer();
    for request in a.iter_mut().chain(b.iter_mut()) {
        request.run(&limited);
    }
    assert_eq!(b[2].phase(), Phase::Forward);
    assert_eq!(a[2].phase(), Phase::WaitPermit);
    assert_eq!(downstream(&a), 2);
    assert_eq!(downstream(&b), 2);
}

#[test]
fn never_more_downstream_than_the_pool_has_permits() {
    let limited = limiter(Duration::from_secs(60), 3);
    let mut requests: Vec<Request> =
        (0..10).map(|_| Request::arrive(Some("tok-A"), &limited)).collect();
    let pool = requests[0].pool();
    let mut answered = 0;
    while answered < 10 {
        let running = downstream(&requests);
        assert_eq!(running, std::cmp::min(3, 10 - answered));
        assert_eq!(pool.available_permits(), 3 - running);
        let next = requests.iter().position(|r| r.is_downstream()).unwrap();
        requests[next].answer();
        answered += 1;
        for request in requests.iter_mut() {
            request.run(&limited);
            assert!(Arc::ptr_eq(&request.passage.pool().map_or(pool.clone(), |p| p.clone()), &pool));
        }
    }
    assert!(requests.iter().all(|r| r.phase() == Phase::Done));
    assert_eq!(pool.available_permits(), 3);
}

#[test]
fn waiters_are_admitted_in_the_order_they_came() {
    let limited = limiter(Duration::from_secs(60), 1);
    let mut requests: Vec<Request> =
        (0..4).map(|_| Request::arrive(Some("tok-A"), &limited)).collect();
    for turn in 0..4 {
        for (index, request) in requests.iter().enumerate() {
            let expected = if index < turn {
                Phase::Done
            } else if index == turn {
                Phase::Forward
            } else {
                Phase::WaitPermit
            };
            assert_eq!(request.phase(), expected);
        }
        requests[turn].answer();
        for request in requests.iter_mut().rev() {
            request.run(&limited);
        }
    }
}

#[test]
fn permits_come_back_after_answers_and_cancellations() {
    let limited = limiter(Duration::from_secs(60), 2);
    let mut answered = Request::arrive(Some("tok-A"), &limited);
    let dropped_downstream = Request::arrive(Some("tok-A"), &limited);
    let dropped_waiting = Request::arrive(Some("tok-A"), &limited);
    let mut late = Request::arrive(Some("tok-A"), &limited);
    let dropped_before_lookup = Request::under("tok-A");
    let pool = answered.pool();
    assert_eq!(dropped_waiting.phase(), Phase::WaitPermit);
    assert_eq!(late.phase(), Phase::WaitPermit);
    assert_eq!(dropped_before_lookup.phase(), Phase::WaitPool);
    assert_eq!(pool.available_permits(), 0);
    drop(dropped_before_lookup);
    drop(dropped_waiting);
    assert_eq!(pool.available_permits(), 0);
    answered.answer();
    late.run(&limited);
    assert_eq!(late.phase(), Phase::Forward);
    assert_eq!(pool.available_permits(), 0);
    drop(dropped_downstream);
    assert_eq!(pool.available_permits(), 1);
    late.answer();
    assert_eq!(pool.available_permits(), 2);
}

#[test]
fn a_cancelled_waiter_that_was_already_served_gives_the_permit_back() {
    let limited = limiter(Duration::from_secs(60), 1);
    let mut holder = Request::arrive(Some("tok-A"), &limited);
    let waiter = Request::arrive(Some("tok-A"), &limited);
    let pool = holder.pool();
    holder.answer();
    assert_eq!(waiter.phase(), Phase::WaitPermit);
    drop(waiter);
    assert_eq!(pool.available_permits(), 1);
    let next = Request::arrive(Some("tok-A"), &limited);
    assert_eq!(next.phase(), Phase::Forward);
}

#[test]
fn a_credential_in_use_keeps_its_pool() {
    let limited = limiter(Duration::from_millis(1500), 1);
    let first = Request::arrive(Some("tok-A"), &limited);
    let pool = first.pool();
    for _ in 0..4 {
        idle_for(Duration::from_millis(500));
        let next = Request::arrive(Some("tok-A"), &limited);
        assert_eq!(next.phase(), Phase::WaitPermit);
        assert!(Arc::ptr_eq(&next.pool(), &pool));
    }
}

#[test]
fn an_idle_credential_starts_afresh() {
    let limited = limiter(Duration::from_millis(200), 2);
    let mut first = Request::arrive(Some("tok-A"), &limited);
    let second = Request::arrive(Some("tok-A"), &limited);
    let blocked = Request::arrive(Some("tok-A"), &limited);
    let old = first.pool();
    assert_eq!(blocked.phase(), Phase::WaitPermit);
    assert_eq!(old.available_permits(), 0);
    idle_for(Duration::from_millis(600));
    let third = Request::arrive(Some("tok-A"), &limited);
    let fourth = Request::arrive(Some("tok-A"), &limited);
    let fifth = Request::arrive(Some("tok-A"), &limited);
    assert_eq!(third.phase(), Phase::Forward);
    assert_eq!(fourth.phase(), Phase::Forward);
    assert_eq!(fifth.phase(), Phase::WaitPermit);
    let new = third.pool();
    assert!(!Arc::ptr_eq(&new, &old));
    assert!(Arc::ptr_eq(&fourth.pool(), &new));
    assert!(Arc::ptr_eq(&fifth.pool(), &new));
    assert_eq!(new.available_permits(), 0);
    assert_eq!(old.available_permits(), 0);
    assert_eq!(first.phase(), Phase::Forward);
    assert_eq!(second.phase(), Phase::Forward);
    first.answer();
    drop(blocked);
    assert_eq!(old.available_permits(), 1);
    assert_eq!(new.available_permits(), 0);
}

#[test]
fn an_idle_credential_with_the_default_capacity_starts_with_ninety_nine() {
    let limited = AccessTokenRateLimitLayer::new(Duration::from_millis(200)).layer(());
    let before: Vec<Request> =
        (0..100).map(|_| Request::arrive(Some("tok-A"), &limited)).collect();
    assert_eq!(downstream(&before), 99);
    assert_eq!(before[99].phase(), Phase::WaitPermit);
    idle_for(Duration::from_millis(600));
    let after: Vec<Request> =
        (0..100).map(|_| Request::arrive(Some("tok-A"), &limited)).collect();
    assert_eq!(downstream(&after), 99);
    assert_eq!(after[99].phase(), Phase::WaitPermit);
    assert!(!Arc::ptr_eq(&after[0].pool(), &before[0].pool()));
    assert_eq!(downstream(&before), 99);
}

#[test]
fn a_pool_without_permits_admits_nobody() {
    let limited = limiter(Duration::from_secs(60), 0);
    let mut request = Request::arrive(Some("tok-A"), &limited);
    assert_eq!(request.phase(), Phase::WaitPermit);
    request.run(&limited);
    assert_eq!(request.phase(), Phase::WaitPermit);
    let free = Request::arrive(None, &limited);
    assert_eq!(free.phase(), Phase::Bypass);
}

#[test]
fn credentials_differ_by_their_bytes() {
    let limited = limiter(Duration::from_secs(60), 1);
    let upper = Request::arrive(Some("Bearer tok"), &limited);
    let lower = Request::arrive(Some("bearer tok"), &limited);
    let same = Request::arrive(Some("Bearer tok"), &limited);
    assert_eq!(upper.phase(), Phase::Forward);
    assert_eq!(lower.phase(), Phase::Forward);
    assert_eq!(same.phase(), Phase::WaitPermit);
    assert!(Arc::ptr_eq(&same.pool(), &upper.pool()));
    assert!(!Arc::ptr_eq(&lower.pool(), &upper.pool()));
}

#[test]
fn a_sensitive_credential_shares_the_pool_of_its_bytes() {
    let limited = limiter(Duration::from_secs(60), 1);
    let plain = Request::arrive(Some("tok-A"), &limited);
    let mut headers = HeaderMap::new();
    let mut value = HeaderValue::from_static("tok-A");
    value.set_sensitive(true);
    headers.insert(AUTHORIZATION, value);
    let mut marked = Request { passage: Passage::begin(&headers), acquire: None };
    marked.run(&limited);
    assert_eq!(plain.phase(), Phase::Forward);
    assert_eq!(marked.phase(), Phase::WaitPermit);
    assert!(Arc::ptr_eq(&marked.pool(), &plain.pool()));
}
