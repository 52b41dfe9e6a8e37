//! A latch that is only ever closed: a one-shot broadcast.

use vstd::prelude::*;

verus! {

/// A mutual-exclusion lock of std.
#[verifier::external_type_specification]
#[verifier::external_body]
#[verifier::reject_recursive_types(T)]
pub struct ExMutex<T: ?Sized>(std::sync::Mutex<T>);

/// The guard of a held std lock.
#[verifier::external_type_specification]
#[verifier::external_body]
#[verifier::reject_recursive_types(T)]
pub struct ExMutexGuard<'a, T: ?Sized + 'a>(std::sync::MutexGuard<'a, T>);

/// A condition variable of std.
#[verifier::external_type_specification]
#[verifier::external_body]
pub struct ExCondvar(std::sync::Condvar);

/// Calls `std::sync::Mutex::new` with `false`: a flag that starts lowered.
#[verifier::external_body]
fn new_flag() -> (m: std::sync::Mutex<bool>) {
    std::sync::Mutex::new(false)
}

/// Calls `std::sync::Condvar::new`.
#[verifier::external_body]
fn new_condvar() -> (c: std::sync::Condvar) {
    std::sync::Condvar::new()
}

/// Calls `std::sync::Mutex::lock`; a lock poisoned by a panicking holder
/// still guards a valid flag, and its guard is taken as is.
#[verifier::external_body]
fn lock_flag<'a>(m: &'a std::sync::Mutex<bool>) -> (g: std::sync::MutexGuard<'a, bool>) {
    m.lock().unwrap_or_else(std::sync::PoisonError::into_inner)
}

/// Reads the flag through its guard (`Deref`). What it reads depends on the
/// other threads, so nothing is claimed of it.
#[verifier::external_body]
fn read_flag(g: &std::sync::MutexGuard<'_, bool>) -> (b: bool) {
    **g
}

/// Raises the flag through its guard (`DerefMut`).
#[verifier::external_body]
fn raise_flag(g: &mut std::sync::MutexGuard<'_, bool>) {
    **g = true;
}

/// Calls `std::sync::Condvar::notify_all`.
#[verifier::external_body]
fn notify_all(c: &std::sync::Condvar) {
    c.notify_all();
}

/// Calls `std::sync::Condvar::wait_while`: blocks until the flag is raised,
/// then hands the guard back.
#[verifier::external_body]
fn wait_raised<'a>(c: &std::sync::Condvar, g: std::sync::MutexGuard<'a, bool>) -> (r: std::sync::MutexGuard<'a, bool>) {
    c.wait_while(g, |flag| still_lowered(flag)).unwrap_or_else(std::sync::PoisonError::into_inner)
}

/// Calls `std::sync::Condvar::wait_timeout_while`: blocks until the flag is
/// raised or `timeout` has elapsed, then hands the guard back.
#[verifier::external_body]
fn wait_raised_for<'a>(c: &std::sync::Condvar, g: std::sync::MutexGuard<'a, bool>, timeout: std::time::Duration) -> (r: std::sync::MutexGuard<'a, bool>) {
    c.wait_timeout_while(g, timeout, |flag| still_lowered(flag))
        .unwrap_or_else(std::sync::PoisonError::into_inner)
        .0
}

/// Whether a waiter on a latch must keep waiting: while it is not closed.
fn still_lowered(flag: &mut bool) -> (b: bool)
    ensures
        b == !*old(flag),
        *final(flag) == *old(flag),
{
    !*flag
}

/// A latch that starts open and is closed exactly once: every current and
/// future wait on a closed latch completes at once.
#[derive(Debug)]
pub struct Event {
    closed: std::sync::Mutex<bool>,
    changed: std::sync::Condvar,
}

impl Event {
    /// Whether the latch is made of a fresh flag, lowered, and a fresh
    /// condition variable.
    pub closed spec fn fresh(&self) -> bool {
        &&& call_ensures(new_flag, (), self.closed)
        &&& call_ensures(new_condvar, (), self.changed)
    }

    /// Whether `b` is what reading the flag under its lock may give.
    pub closed spec fn reads_as<'a>(&'a self, b: bool) -> bool {
        exists|g: std::sync::MutexGuard<'a, bool>| {
            &&& call_ensures(lock_flag, (&self.closed,), g)
            &&& #[trigger] call_ensures(read_flag, (&g,), b)
        }
    }

    /// Whether `b` is what reading the flag may give once a wait bounded by
    /// `timeout` for it to be raised has returned.
    pub closed spec fn reads_after_wait<'a>(&'a self, timeout: std::time::Duration, b: bool) -> bool {
        exists|g: std::sync::MutexGuard<'a, bool>, h: std::sync::MutexGuard<'a, bool>| {
            &&& call_ensures(lock_flag, (&self.closed,), g)
            &&& #[trigger] call_ensures(wait_raised_for, (&self.changed, g, timeout), h)
            &&& #[trigger] call_ensures(read_flag, (&h,), b)
        }
    }

    /// An open latch.
    pub fn new() -> (e: Event)
        ensures
            e.fresh(),
    {
        let make_flag = new_flag;
        let make_condvar = new_condvar;
        let closed = make_flag();
        let changed = make_condvar();
        Event { closed, changed }
    }

    /// Closes the latch and wakes every waiter. Closing twice is a no-op.
    pub fn close(&self) {
        let mut g = lock_flag(&self.closed);
        if !read_flag(&g) {
            raise_flag(&mut g);
            notify_all(&self.changed);
        }
    }

    /// Whether the latch has been closed.
    pub fn is_closed(&self) -> (b: bool)
        ensures
            self.reads_as(b),
    {
        let lock = lock_flag;
        let read = read_flag;
        let g = lock(&self.closed);
        let b = read(&g);
        assert(call_ensures(lock_flag, (&self.closed,), g) && call_ensures(read_flag, (&g,), b));
        b
    }

    /// Blocks until the latch is closed.
    pub fn wait(&self) {
        let g = lock_flag(&self.closed);
        let _g = wait_raised(&self.changed, g);
    }

    /// Blocks until the latch is closed or `timeout` elapses, reporting
    /// whether the latch closed.
    pub fn wait_timeout(&self, timeout: std::time::Duration) -> (closed: bool)
        ensures
            self.reads_after_wait(timeout, closed),
    {
        let lock = lock_flag;
        let wait = wait_raised_for;
        let read = read_flag;
        let g = lock(&self.closed);
        let ghost g0 = g;
        let h = wait(&self.changed, g, timeout);
        let b = read(&h);
        assert(call_ensures(lock_flag, (&self.closed,), g0) && call_ensures(wait_raised_for, (&self.changed, g0, timeout), h)
            && call_ensures(read_flag, (&h,), b));
        b
    }
}

} // verus!
