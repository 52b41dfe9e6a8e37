//! A cancellation signal, optionally carrying a deadline.

use std::sync::Arc;
use vstd::prelude::*;

use crate::deps::event::Event;
use crate::deps::gotime::{std_duration_of_nanos, Duration};
use crate::error::Error;

verus! {

/// A reading of the monotonic clock of std.
#[verifier::external_type_specification]
#[verifier::external_body]
pub struct ExInstant(std::time::Instant);

/// Calls `std::time::Instant::now`: a reading of the monotonic clock.
#[verifier::external_body]
fn instant_now() -> (t: std::time::Instant) {
    std::time::Instant::now()
}

/// Calls `Instant::checked_add`: the instant `d` after `t`, or `None` when
/// the clock cannot represent it.
#[verifier::external_body]
fn instant_after(t: &std::time::Instant, d: std::time::Duration) -> (r: Option<std::time::Instant>) {
    t.checked_add(d)
}

/// Calls `Instant >= Instant`: whether `now` is at or past `deadline`.
#[verifier::external_body]
fn at_or_past(now: &std::time::Instant, deadline: &std::time::Instant) -> (b: bool) {
    *now >= *deadline
}

/// Calls `Instant::saturating_duration_since`: how long from `now` until
/// `deadline`, zero once it has passed.
#[verifier::external_body]
fn time_until(deadline: &std::time::Instant, now: &std::time::Instant) -> (d: std::time::Duration) {
    deadline.saturating_duration_since(*now)
}

/// Calls `Ord::min` on two `std::time::Duration`s: the shorter one.
#[verifier::external_body]
fn shorter(a: std::time::Duration, b: std::time::Duration) -> (d: std::time::Duration) {
    a.min(b)
}

/// Why a context is done: cancellation wins over expiry, and a context
/// neither cancelled nor expired is not done.
pub open spec fn done_reason(cancelled: bool, expired: bool) -> Option<Error> {
    if cancelled {
        Some(Error::Canceled)
    } else if expired {
        Some(Error::DeadlineExceeded)
    } else {
        None
    }
}

/// Why a context is done: cancellation wins over expiry, and a context
/// neither cancelled nor expired is not done.
pub fn context_error(cancelled: bool, expired: bool) -> (e: Option<Error>)
    ensures
        e == done_reason(cancelled, expired),
        cancelled ==> e == Some(Error::Canceled),
        !cancelled && expired ==> e == Some(Error::DeadlineExceeded),
        !cancelled && !expired ==> e is None,
{
    if cancelled {
        Some(Error::Canceled)
    } else if expired {
        Some(Error::DeadlineExceeded)
    } else {
        None
    }
}

#[derive(Debug)]
struct Inner {
    cancelled: Event,
    deadline: Option<std::time::Instant>,
}

/// Returns another handle to the same shared state, through `Arc::clone`.
#[verifier::external_body]
fn share_inner(a: &Arc<Inner>) -> (r: Arc<Inner>)
    ensures
        r == *a,
{
    Arc::clone(a)
}

/// A cancellation signal, optionally carrying a deadline. Cloning a
/// `Context` shares the same signal.
#[derive(Debug)]
pub struct Context {
    inner: Arc<Inner>,
}

/// The handle returned alongside a cancellable [`Context`]. Nothing is
/// cancelled implicitly.
#[derive(Debug)]
pub struct CancelFunc {
    inner: Arc<Inner>,
}

impl Clone for Context {
    fn clone(&self) -> (c: Context)
        ensures
            c == *self,
    {
        Context { inner: share_inner(&self.inner) }
    }
}

impl Clone for CancelFunc {
    fn clone(&self) -> (c: CancelFunc)
        ensures
            c == *self,
    {
        CancelFunc { inner: share_inner(&self.inner) }
    }
}

impl CancelFunc {
    /// Cancels the associated context. Calling it more than once is a no-op.
    pub fn cancel(&self) {
        self.inner.cancelled.close();
    }

    /// Whether this handle cancels `ctx`.
    pub closed spec fn cancels(&self, ctx: Context) -> bool {
        self.inner == ctx.inner
    }
}

impl Context {
    /// Whether the context's deadline is what adding `d` to a reading of the
    /// clock gives: an instant when the clock can represent it, and none
    /// otherwise.
    pub closed spec fn deadline_after(&self, d: std::time::Duration) -> bool {
        exists|now: std::time::Instant| {
            &&& call_ensures(instant_now, (), now)
            &&& #[trigger] call_ensures(instant_after, (&now, d), self.inner.deadline)
        }
    }

    /// Whether the context carries a deadline.
    pub closed spec fn has_deadline(&self) -> bool {
        self.inner.deadline is Some
    }

    /// Whether the context starts live: its latch is a fresh one, open.
    pub closed spec fn starts_live(&self) -> bool {
        self.inner.cancelled.fresh()
    }

    /// Whether `expired` is what a look at the deadline gives: with a
    /// deadline, a comparison of a reading of the clock against it; without
    /// one, never passed.
    pub closed spec fn deadline_reading(&self, expired: bool) -> bool {
        match self.inner.deadline {
            Some(d) => exists|now: std::time::Instant| {
                &&& call_ensures(instant_now, (), now)
                &&& #[trigger] call_ensures(at_or_past, (&now, &d), expired)
            },
            None => !expired,
        }
    }

    /// A context that is never cancelled and has no deadline.
    pub fn background() -> (c: Context)
        ensures
            !c.has_deadline(),
            c.starts_live(),
    {
        Context { inner: Arc::new(Inner { cancelled: Event::new(), deadline: None }) }
    }

    /// A context cancellable through the returned handle.
    pub fn with_cancel() -> (r: (Context, CancelFunc))
        ensures
            !r.0.has_deadline(),
            r.0.starts_live(),
            r.1.cancels(r.0),
    {
        let inner = Arc::new(Inner { cancelled: Event::new(), deadline: None });
        (Context { inner: share_inner(&inner) }, CancelFunc { inner })
    }

    /// A context that expires after `timeout` and can be cancelled earlier
    /// through the returned handle. A deadline further away than the clock
    /// can represent is never reached, and the context carries none.
    pub fn with_timeout(timeout: Duration) -> (r: (Context, CancelFunc))
        ensures
            r.0.starts_live(),
            r.1.cancels(r.0),
            r.0.deadline_after(std_duration_of_nanos(if timeout.nanos() <= 0 { 0 } else { timeout.nanos() as u64 })),
    {
        let read_clock = instant_now;
        let push_back = instant_after;
        let now = read_clock();
        let wait = timeout.to_std();
        let deadline = push_back(&now, wait);
        assert(call_ensures(instant_now, (), now) && call_ensures(instant_after, (&now, wait), deadline));
        let inner = Arc::new(Inner { cancelled: Event::new(), deadline });
        (Context { inner: share_inner(&inner) }, CancelFunc { inner })
    }

    /// Whether the deadline, if any, has passed.
    fn past_deadline(&self) -> (b: bool)
        ensures
            self.deadline_reading(b),
    {
        match &self.inner.deadline {
            Some(deadline) => {
                let read_clock = instant_now;
                let compare = at_or_past;
                let now = read_clock();
                let b = compare(&now, deadline);
                assert(call_ensures(instant_now, (), now) && call_ensures(at_or_past, (&now, deadline), b));
                b
            },
            None => false,
        }
    }

    /// How long until the deadline, if there is one.
    fn remaining(&self) -> (r: Option<std::time::Duration>)
        ensures
            r is Some <==> self.has_deadline(),
            r matches Some(left) ==> self.time_left(left),
    {
        match &self.inner.deadline {
            Some(deadline) => {
                let read_clock = instant_now;
                let until = time_until;
                let now = read_clock();
                let left = until(deadline, &now);
                assert(call_ensures(instant_now, (), now) && call_ensures(time_until, (deadline, &now), left));
                Some(left)
            },
            None => None,
        }
    }

    /// Whether `left` is how long a reading of the clock finds until the
    /// deadline, zero once it has passed.
    pub closed spec fn time_left(&self, left: std::time::Duration) -> bool {
        self.inner.deadline matches Some(d) && exists|now: std::time::Instant| {
            &&& call_ensures(instant_now, (), now)
            &&& #[trigger] call_ensures(time_until, (&d, &now), left)
        }
    }

    /// Whether a wait bounded by `timeout` is bounded by `t`: the timeout
    /// itself without a deadline, and otherwise the shorter of the timeout
    /// and the time left until the deadline.
    pub closed spec fn wait_bound(&self, timeout: std::time::Duration, t: std::time::Duration) -> bool {
        if self.has_deadline() {
            exists|left: std::time::Duration| #[trigger] self.time_left(left) && call_ensures(shorter, (left, timeout), t)
        } else {
            t == timeout
        }
    }

    /// Whether `cancelled` is a reading of the cancellation latch and
    /// `expired` one of the deadline: once the latch reads closed the
    /// deadline is not looked at, and otherwise it always is.
    pub closed spec fn observed(&self, cancelled: bool, expired: bool) -> bool {
        &&& call_ensures(Event::is_closed, (&self.inner.cancelled,), cancelled)
        &&& cancelled ==> !expired
        &&& !cancelled ==> self.deadline_reading(expired)
    }

    /// Whether `done` is what a wait on the context for at most `timeout`
    /// may report: the wait on the latch is bounded as [`Self::wait_bound`]
    /// says, and the answer is the latch read closed once the wait
    /// returned, or else a fresh look at the latch and the deadline.
    pub closed spec fn waited(&self, timeout: std::time::Duration, done: bool) -> bool {
        exists|t: std::time::Duration| #[trigger] self.wait_bound(timeout, t) && {
            ||| done && self.inner.cancelled.reads_after_wait(t, true)
            ||| self.inner.cancelled.reads_after_wait(t, false)
                && exists|c: bool, x: bool| #[trigger] self.observed(c, x) && done == (c || x)
        }
    }

    /// Whether the context has been cancelled or its deadline has passed.
    pub fn is_done(&self) -> (b: bool)
        ensures
            exists|c: bool, x: bool| #[trigger] self.observed(c, x) && b == (c || x),
    {
        let latch = Event::is_closed;
        let check = Context::past_deadline;
        let cancelled = latch(&self.inner.cancelled);
        if cancelled {
            assert(self.observed(cancelled, false));
            return true;
        }
        let expired = check(self);
        assert(self.observed(cancelled, expired));
        expired
    }

    /// Why the context is done, or `None` while it is still live.
    /// Cancellation wins over expiry; a context without a deadline can only
    /// be done by cancellation.
    pub fn err(&self) -> (e: Option<Error>)
        ensures
            exists|c: bool, x: bool| #[trigger] self.observed(c, x) && e == done_reason(c, x),
    {
        let latch = Event::is_closed;
        let check = Context::past_deadline;
        let cancelled = latch(&self.inner.cancelled);
        let expired = if cancelled { false } else { check(self) };
        assert(self.observed(cancelled, expired));
        context_error(cancelled, expired)
    }

    /// Blocks for at most `timeout`, and never past the deadline, waiting for
    /// the context to become done; reports whether it did. A cancellation
    /// wakes the caller at once.
    pub fn wait_done_for(&self, timeout: Duration) -> (done: bool)
        ensures
            self.waited(std_duration_of_nanos(if timeout.nanos() <= 0 { 0 } else { timeout.nanos() as u64 }), done),
    {
        let timeout = timeout.to_std();
        let pick = shorter;
        let bounded = match self.remaining() {
            Some(left) => {
                let t = pick(left, timeout);
                assert(self.time_left(left) && call_ensures(shorter, (left, timeout), t));
                t
            },
            None => timeout,
        };
        assert(self.wait_bound(timeout, bounded));
        if self.inner.cancelled.wait_timeout(bounded) {
            return true;
        }
        let done = self.is_done();
        assert(self.inner.cancelled.reads_after_wait(bounded, false));
        done
    }

    /// Blocks until the context becomes done: cancelled, or past its
    /// deadline.
    pub fn wait(&self) {
        if self.is_done() {
            return;
        }
        match self.remaining() {
            Some(remaining) => {
                self.inner.cancelled.wait_timeout(remaining);
            },
            None => {
                self.inner.cancelled.wait();
            },
        }
    }
}

} // verus!
