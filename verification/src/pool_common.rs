//! The bookkeeping every pool flavour shares, as a state machine: how many
//! workers run, how many callers wait, which workers sit idle, and what each
//! event (a submit, a worker coming back, a worker exiting, a purge tick, a
//! release, a reboot, a resize) does to that state and asks the runtime to do.
//!
//! The runtime that owns the threads holds a pool's state under one lock,
//! performs the action each step returns (start a worker, block on the
//! condition variable, wake waiters) and feeds the outcome back in.

use std::sync::Arc;
use vstd::prelude::*;

use crate::error::Error;
use crate::deps::golog::default_logger;
use crate::deps::gotime::{now_unix_nano, Duration, NANOS_PER_SEC};
use crate::options::{load_options, loaded_options, Opt, Options};
use crate::worker_queue::{expiry_cutoff, new_worker_queue, stale_prefix, QueueType, Worker, WorkerQueue, QUEUE_TYPE_LOOP_QUEUE, QUEUE_TYPE_STACK};

verus! {

/// The default capacity for a default pool.
pub const DEFAULT_ANTS_POOL_SIZE: i32 = 2147483647;

/// Represents that the pool is opened.
pub const OPENED: i32 = 0;

/// Represents that the pool is closed.
pub const CLOSED: i32 = 1;

/// The interval, in nanoseconds, at which idle workers are cleaned up when no
/// expiry was configured.
pub const DEFAULT_CLEAN_INTERVAL_NANOS: i64 = 1_000_000_000;

/// The interval time to clean up workers when no expiry was configured.
pub fn default_clean_interval_time() -> (d: Duration)
    ensures
        d.nanos() == DEFAULT_CLEAN_INTERVAL_NANOS,
{
    Duration::second()
}

/// Which callers blocked on the pool's condition variable to wake.
#[derive(PartialEq, Eq, Structural, Debug)]
pub enum Wake {
    /// Wake nobody.
    Nobody,
    /// Wake one waiting caller.
    One,
    /// Wake every waiting caller.
    All,
}

/// What a caller asking for a worker is to do next.
pub enum Retrieval<W: Worker> {
    /// Hand the task to this idle worker.
    Idle(Arc<W>),
    /// Start a new worker for the task; it is already counted as running.
    Spawn,
    /// Block on the condition variable until woken, then report back through
    /// [`PoolCore::finish_wait`]; the caller is already counted as waiting.
    Wait,
}

/// The state of a pool as its contracts describe it.
pub struct PoolView<W: Worker> {
    /// The capacity: `-1` for a pool without limit.
    pub capacity: int,
    /// How many workers run (parked idle ones included).
    pub running: int,
    /// How many callers are blocked waiting for a worker.
    pub waiting: int,
    /// Whether the pool is closed.
    pub closed: bool,
    /// The idle workers, oldest first.
    pub idle: Seq<Arc<W>>,
    /// The last-use time recorded for each idle worker when it was parked,
    /// in the same order.
    pub stamps: Seq<i64>,
}

/// The capacity a pool asked for with `size` gets: anything not positive
/// means no limit.
pub open spec fn effective_capacity(size: i32) -> int {
    if size <= 0 {
        -1
    } else {
        size as int
    }
}

/// Whether loaded options pass a pool's expiry check: purging is off, or
/// the expiry is not negative.
pub open spec fn purge_options_valid(o: Options) -> bool {
    o.disable_purge || o.expiry_duration.nanos() >= 0
}

/// The number of workers available: `-1` for a pool without limit.
pub open spec fn free_of(v: PoolView<impl Worker>) -> int {
    if v.capacity < 0 {
        -1
    } else {
        v.capacity - v.running
    }
}

/// Whether a pool runs no more workers than its capacity allows (always, for
/// a pool without limit).
pub open spec fn within_capacity<W: Worker>(v: PoolView<W>) -> bool {
    v.capacity == -1 || v.running <= v.capacity
}

/// The state a release leaves an open pool in: closed, with no idle worker.
pub open spec fn released<W: Worker>(v: PoolView<W>) -> PoolView<W> {
    PoolView { idle: Seq::empty(), stamps: Seq::empty(), closed: true, ..v }
}

/// The state a reboot leaves a closed pool in: open again.
pub open spec fn reopened<W: Worker>(v: PoolView<W>) -> PoolView<W> {
    PoolView { closed: false, ..v }
}

/// A pool's bookkeeping.
pub struct PoolCore<W: Worker> {
    capacity: i32,
    running: i32,
    waiting: i32,
    state: i32,
    workers: WorkerQueue<W>,
    options: Options,
}

impl<W: Worker> PoolCore<W> {
    /// The pool's state.
    pub closed spec fn view(&self) -> PoolView<W> {
        PoolView {
            capacity: self.capacity as int,
            running: self.running as int,
            waiting: self.waiting as int,
            closed: self.state == CLOSED,
            idle: self.workers.workers(),
            stamps: self.workers.stamps(),
        }
    }

    /// The configuration the pool runs with.
    pub closed spec fn config(&self) -> Options {
        self.options
    }

    /// Whether the idle workers sit in a pre-allocated ring.
    pub closed spec fn ring_backed(&self) -> bool {
        self.workers is Loop
    }

    /// The pool's internal consistency.
    pub closed spec fn wf(&self) -> bool {
        &&& self.capacity == -1 || self.capacity > 0
        &&& 0 <= self.running
        &&& 0 <= self.waiting
        &&& self.state == OPENED || self.state == CLOSED
        &&& self.workers.wf()
        &&& self.workers.workers().len() <= self.running
        &&& self.options.pre_alloc <==> self.workers is Loop
        &&& self.workers matches WorkerQueue::Loop(q) ==> q.capacity() == self.capacity
    }

    /// Instantiates a pool of capacity `size` (no limit when not positive)
    /// configured by `options`, applied in order.
    pub fn new(size: i32, options: &[Opt]) -> (r: Result<PoolCore<W>, Error>)
        ensures
            ({
                let o = loaded_options(options@);
                &&& !o.disable_purge && o.expiry_duration.nanos() < 0 ==> r == Err::<PoolCore<W>, Error>(Error::InvalidPoolExpiry)
                &&& purge_options_valid(o) && o.pre_alloc && size <= 0 ==> r == Err::<PoolCore<W>, Error>(Error::InvalidPreAllocSize)
                &&& purge_options_valid(o) && !(o.pre_alloc && size <= 0) ==> r is Ok
                &&& r matches Ok(p) ==> {
                    &&& p.wf()
                    &&& p.view().capacity == effective_capacity(size)
                    &&& p.view().running == 0
                    &&& p.view().waiting == 0
                    &&& !p.view().closed
                    &&& p.view().idle.len() == 0
                    &&& p.ring_backed() == o.pre_alloc
                    &&& p.config().pre_alloc == o.pre_alloc
                    &&& p.config().nonblocking == o.nonblocking
                    &&& p.config().max_blocking_tasks == o.max_blocking_tasks
                    &&& p.config().disable_purge == o.disable_purge
                    &&& p.config().panic_handler == o.panic_handler
                    &&& p.config().logger is Some
                    &&& o.logger is Some ==> p.config().logger == o.logger
                    &&& o.logger is None ==> call_ensures(default_logger, (), p.config().logger->0)
                    &&& p.config().expiry_duration.nanos() == if !o.disable_purge
                        && o.expiry_duration.nanos() == 0 {
                        DEFAULT_CLEAN_INTERVAL_NANOS as int
                    } else {
                        o.expiry_duration.nanos()
                    }
                }
            }),
    {
        let capacity: i32 = if size <= 0 { -1 } else { size };
        let mut opts = load_options(options);
        if !opts.disable_purge {
            let expiry = opts.expiry_duration.as_nanos();
            if expiry < 0 {
                return Err(Error::InvalidPoolExpiry);
            } else if expiry == 0 {
                opts.expiry_duration = default_clean_interval_time();
            }
        }
        if opts.logger.is_none() {
            let fallback = default_logger;
            opts.logger = Some(fallback());
        }
        let workers = if opts.pre_alloc {
            if capacity == -1 {
                return Err(Error::InvalidPreAllocSize);
            }
            new_worker_queue(QueueType::loop_queue(), capacity)
        } else {
            new_worker_queue(QueueType::stack(), 0)
        };
        Ok(PoolCore { capacity, running: 0, waiting: 0, state: OPENED, workers, options: opts })
    }

    /// The configuration the pool runs with.
    pub fn options(&self) -> (o: &Options)
        ensures
            *o == self.config(),
    {
        &self.options
    }

    /// Returns the number of workers currently running.
    pub fn running(&self) -> (n: i32)
        ensures
            n == self.view().running,
    {
        self.running
    }

    /// Returns the number of available workers; `-1` indicates that the pool
    /// is unlimited.
    pub fn free(&self) -> (n: i32)
        requires
            self.wf(),
        ensures
            n == free_of(self.view()),
    {
        let capacity = self.capacity;
        if capacity < 0 {
            return -1;
        }
        capacity - self.running
    }

    /// Returns the number of callers waiting to be served.
    pub fn waiting(&self) -> (n: i32)
        ensures
            n == self.view().waiting,
    {
        self.waiting
    }

    /// Returns the capacity of this pool.
    pub fn cap(&self) -> (n: i32)
        ensures
            n == self.view().capacity,
    {
        self.capacity
    }

    /// Indicates whether the pool is closed.
    pub fn is_closed(&self) -> (b: bool)
        ensures
            b == self.view().closed,
    {
        self.state == CLOSED
    }

    /// How many workers sit idle.
    pub fn idle_len(&self) -> (n: usize)
        requires
            self.wf(),
        ensures
            n == self.view().idle.len(),
    {
        self.workers.len()
    }

    /// Changes the capacity of this pool to `size`, and says whom to wake so
    /// that callers blocked for a worker notice the room. It has no effect
    /// on a pool without limit, on a pre-allocated pool, or for a size that
    /// is not positive.
    pub fn tune(&mut self, size: i32) -> (wake: Wake)
        requires
            old(self).wf(),
        ensures
            final(self).wf(),
            final(self).config() == old(self).config(),
            final(self).ring_backed() == old(self).ring_backed(),
            final(self).view().running == old(self).view().running,
            final(self).view().waiting == old(self).view().waiting,
            final(self).view().closed == old(self).view().closed,
            final(self).view().idle == old(self).view().idle,
            size >= old(self).view().running && within_capacity(old(self).view()) ==> within_capacity(final(self).view()),
            old(self).view().capacity == -1 || size <= 0 || size == old(self).view().capacity
                || old(self).config().pre_alloc ==> final(self).view().capacity == old(self).view().capacity
                && wake == Wake::Nobody,
            !(old(self).view().capacity == -1 || size <= 0 || size == old(self).view().capacity
                || old(self).config().pre_alloc) ==> final(self).view().capacity == size
                && wake == (if size <= old(self).view().capacity {
                    Wake::Nobody
                } else if size - old(self).view().capacity == 1 {
                    Wake::One
                } else {
                    Wake::All
                }),
    {
        let capacity = self.capacity;
        if capacity == -1 || size <= 0 || size == capacity || self.options.pre_alloc {
            return Wake::Nobody;
        }
        self.capacity = size;
        if size > capacity {
            if size - capacity == 1 {
                return Wake::One;
            }
            return Wake::All;
        }
        Wake::Nobody
    }

    /// Closes this pool and finishes its idle workers. Reports whether this
    /// call closed it (a closed pool is left as it is) and whether every
    /// worker has already exited, so that the runtime can announce it at
    /// once; otherwise the last worker to exit announces it.
    pub fn release(&mut self) -> (r: (bool, bool))
        requires
            old(self).wf(),
        ensures
            final(self).wf(),
            final(self).config() == old(self).config(),
            final(self).ring_backed() == old(self).ring_backed(),
            final(self).view().closed,
            old(self).view().closed ==> r == (false, false) && final(self).view() == old(self).view(),
            !old(self).view().closed ==> r == (true, old(self).view().running == 0)
                && final(self).view() == released(old(self).view()),
            !old(self).view().closed ==> forall|i: int| 0 <= i < old(self).view().idle.len()
                ==> call_ensures(W::finish, (&#[trigger] old(self).view().idle[i],), ()),
            within_capacity(old(self).view()) ==> within_capacity(final(self).view()),
    {
        if self.state != OPENED {
            return (false, false);
        }
        self.state = CLOSED;
        self.workers.reset();
        proof {
            assert(self.workers.workers() =~= Seq::<Arc<W>>::empty());
            assert(self.workers.stamps() =~= Seq::<i64>::empty());
        }
        (true, self.running == 0)
    }

    /// Reopens a closed pool; it does nothing to a pool that is not closed.
    /// The runtime calls it once every worker and background thread of the
    /// closed pool has exited.
    pub fn reboot(&mut self) -> (opened: bool)
        requires
            old(self).wf(),
        ensures
            final(self).wf(),
            final(self).config() == old(self).config(),
            final(self).ring_backed() == old(self).ring_backed(),
            opened == old(self).view().closed,
            final(self).view() == reopened(old(self).view()),
            within_capacity(old(self).view()) ==> within_capacity(final(self).view()),
    {
        if self.state != CLOSED {
            return false;
        }
        self.state = OPENED;
        true
    }

    /// Serves a caller that needs a worker: a closed pool refuses it with
    /// [`Error::PoolClosed`]; otherwise an idle worker when there is
    /// one; otherwise a new worker when the capacity allows it; otherwise an
    /// overload error in nonblocking mode or once `max_blocking_tasks`
    /// callers are blocked; otherwise the caller waits.
    ///
    /// A pool without limit also waits once `i32::MAX` workers run, and no
    /// more than `i32::MAX` callers ever wait: the counters are `i32`.
    pub fn retrieve_worker(&mut self) -> (r: Result<Retrieval<W>, Error>)
        requires
            old(self).wf(),
        ensures
            final(self).wf(),
            final(self).config() == old(self).config(),
            final(self).ring_backed() == old(self).ring_backed(),
            final(self).view().capacity == old(self).view().capacity,
            final(self).view().closed == old(self).view().closed,
            within_capacity(old(self).view()) ==> within_capacity(final(self).view()),
            ({
                let v = old(self).view();
                let o = old(self).config();
                let can_spawn = (v.capacity == -1 && v.running < i32::MAX) || v.capacity > v.running;
                let overloaded = o.nonblocking || (o.max_blocking_tasks != 0 && v.waiting >= o.max_blocking_tasks)
                    || v.waiting == i32::MAX;
                &&& v.closed ==> r == Err::<Retrieval<W>, Error>(Error::PoolClosed) && final(self).view() == v
                &&& !v.closed && v.idle.len() > 0 ==> (r matches Ok(Retrieval::Idle(w)) && (if old(self).ring_backed() {
                    w == v.idle[0] && final(self).view().idle == v.idle.drop_first()
                        && final(self).view().stamps == v.stamps.drop_first()
                } else {
                    w == v.idle.last() && final(self).view().idle == v.idle.drop_last()
                        && final(self).view().stamps == v.stamps.drop_last()
                }) && final(self).view().running == v.running && final(self).view().waiting == v.waiting)
                &&& !v.closed && v.idle.len() == 0 && can_spawn ==> (r matches Ok(Retrieval::Spawn)
                    && final(self).view() == (PoolView { running: v.running + 1, ..v }))
                &&& !v.closed && v.idle.len() == 0 && !can_spawn && overloaded ==> r == Err::<Retrieval<W>, Error>(Error::PoolOverload)
                    && final(self).view() == v
                &&& !v.closed && v.idle.len() == 0 && !can_spawn && !overloaded ==> (r matches Ok(Retrieval::Wait)
                    && final(self).view() == (PoolView { waiting: v.waiting + 1, ..v }))
            }),
    {
        let ghost ring = self.workers is Loop;
        if self.state == CLOSED {
            return Err(Error::PoolClosed);
        }
        match self.workers.detach() {
            Some(w) => {
                return Ok(Retrieval::Idle(w));
            },
            None => {},
        }
        let capacity = self.capacity;
        if (capacity == -1 && self.running < i32::MAX) || capacity > self.running {
            self.running = self.running + 1;
            return Ok(Retrieval::Spawn);
        }
        if self.options.nonblocking || (self.options.max_blocking_tasks != 0
            && self.waiting >= self.options.max_blocking_tasks) || self.waiting == i32::MAX {
            return Err(Error::PoolOverload);
        }
        self.waiting = self.waiting + 1;
        Ok(Retrieval::Wait)
    }

    /// Takes back a caller woken from waiting for a worker: it fails with
    /// [`Error::PoolClosed`] once the pool is closed, and otherwise asks
    /// again through [`Self::retrieve_worker`].
    pub fn finish_wait(&mut self) -> (r: Result<(), Error>)
        requires
            old(self).wf(),
            old(self).view().waiting > 0,
        ensures
            final(self).wf(),
            final(self).config() == old(self).config(),
            final(self).ring_backed() == old(self).ring_backed(),
            final(self).view() == (PoolView { waiting: old(self).view().waiting - 1, ..old(self).view() }),
            within_capacity(old(self).view()) ==> within_capacity(final(self).view()),
            old(self).view().closed ==> r == Err::<(), Error>(Error::PoolClosed),
            !old(self).view().closed ==> r is Ok,
    {
        self.waiting = self.waiting - 1;
        if self.state == CLOSED {
            return Err(Error::PoolClosed);
        }
        Ok(())
    }

    /// Puts a worker that finished its task back among the idle ones,
    /// stamped as last used at `now`. It is refused (and the worker exits)
    /// when the pool is closed, when the pool runs more workers than its
    /// capacity after a downward resize, or when a pre-allocated ring is
    /// full. Also says whom to wake: one waiter for a parked worker, every
    /// waiter when the worker is refused for the first two reasons.
    ///
    /// The worker must be running and not idle.
    pub fn revert_worker(&mut self, worker: Arc<W>, now: i64) -> (r: (bool, Wake))
        requires
            old(self).wf(),
            old(self).view().idle.len() < old(self).view().running,
        ensures
            final(self).wf(),
            final(self).config() == old(self).config(),
            final(self).ring_backed() == old(self).ring_backed(),
            within_capacity(old(self).view()) ==> within_capacity(final(self).view()),
            ({
                let v = old(self).view();
                let refused = (v.capacity > 0 && v.running > v.capacity) || v.closed;
                &&& refused ==> r == (false, Wake::All) && final(self).view() == v
                &&& !refused && old(self).full_ring() ==> r == (false, Wake::Nobody) && final(self).view() == v
                &&& !refused && !old(self).full_ring() ==> r == (true, Wake::One)
                    && final(self).view() == (PoolView { idle: v.idle.push(worker), stamps: v.stamps.push(now), ..v })
            }),
    {
        let capacity = self.capacity;
        if (capacity > 0 && self.running > capacity) || self.state == CLOSED {
            return (false, Wake::All);
        }
        worker.set_last_used_time(now);
        match self.workers.insert_stamped(worker, now) {
            Ok(()) => (true, Wake::One),
            Err(_) => (false, Wake::Nobody),
        }
    }

    /// Accounts for a worker that exited, and reports whether it was the
    /// last one of a closed pool, so that the runtime announces that every
    /// worker is done.
    ///
    /// The worker must be running and not idle.
    pub fn worker_exit(&mut self) -> (all_done: bool)
        requires
            old(self).wf(),
            old(self).view().idle.len() < old(self).view().running,
        ensures
            final(self).wf(),
            final(self).config() == old(self).config(),
            final(self).ring_backed() == old(self).ring_backed(),
            final(self).view() == (PoolView { running: old(self).view().running - 1, ..old(self).view() }),
            within_capacity(old(self).view()) ==> within_capacity(final(self).view()),
            all_done == (old(self).view().running == 1 && old(self).view().closed),
    {
        self.running = self.running - 1;
        self.running == 0 && self.state == CLOSED
    }

    /// One tick of the scavenger: a pool with purging off never purges, and
    /// otherwise the tick removes and finishes the idle workers
    /// unused for longer than the expiry, measured back from a reading of
    /// the clock, and says whether to wake every blocked caller (when no
    /// worker is left running, or every running worker was just cleaned up,
    /// while callers wait). A closed pool gives `None`, and the scavenger
    /// stops.
    pub fn purge_stale_workers(&mut self) -> (r: Option<bool>)
        requires
            old(self).wf(),
        ensures
            final(self).wf(),
            final(self).config() == old(self).config(),
            final(self).ring_backed() == old(self).ring_backed(),
            old(self).view().closed || old(self).config().disable_purge ==> r is None
                && final(self).view() == old(self).view(),
            within_capacity(old(self).view()) ==> within_capacity(final(self).view()),
            !old(self).view().closed && !old(self).config().disable_purge ==> exists|k: int| {
                &&& 0 <= k <= old(self).view().idle.len()
                &&& final(self).view() == (PoolView {
                    idle: #[trigger] old(self).view().idle.skip(k),
                    stamps: old(self).view().stamps.skip(k),
                    ..old(self).view()
                })
                &&& r == Some((old(self).view().running == 0 || old(self).view().running == k) && old(self).view().waiting > 0)
                &&& old(self).view().idle.len() > 0 ==> exists|now: i64| {
                    &&& #[trigger] call_ensures(now_unix_nano, (), now)
                    &&& stale_prefix(old(self).view().stamps, k, expiry_cutoff(now, old(self).config().expiry_duration))
                }
                &&& forall|i: int| 0 <= i < k ==> call_ensures(W::finish, (&#[trigger] old(self).view().idle[i],), ())
            },
    {
        if self.state == CLOSED || self.options.disable_purge {
            return None;
        }
        let ghost before = self.workers.workers();
        proof {
            assert(self.workers.workers().len() <= self.running);
        }
        let expiry = self.options.expiry_duration;
        let stale = self.workers.refresh(expiry);
        let n = stale.len();
        let finish = W::finish;
        let mut i: usize = 0;
        while i < n
            invariant
                n == stale@.len(),
                i <= n,
                finish == W::finish,
                forall|j: int| 0 <= j < i ==> call_ensures(W::finish, (&#[trigger] stale@[j],), ()),
            decreases n - i,
        {
            finish(&stale[i]);
            i = i + 1;
        }
        let is_dormant = self.running == 0 || (self.running as usize) == n;
        proof {
            broadcast use vstd::seq_lib::group_to_multiset_ensures;
            assert forall|j: int| 0 <= j < n implies call_ensures(W::finish, (&#[trigger] before[j],), ()) by {
                assert(before.take(n as int)[j] == before[j]);
                assert(before.take(n as int).contains(before[j]));
                assert(before.take(n as int).to_multiset().count(before[j]) > 0);
                assert(stale@.to_multiset().count(before[j]) > 0);
                assert(stale@.contains(before[j]));
                let m = choose|m: int| 0 <= m < stale@.len() && stale@[m] == before[j];
                assert(call_ensures(W::finish, (&stale@[m],), ()));
            }
        }
        assert(self.view() == (PoolView { idle: old(self).view().idle.skip(n as int), stamps: old(self).view().stamps.skip(n as int), ..old(self).view() }));
        Some(is_dormant && self.waiting > 0)
    }
}

impl<W: Worker> PoolCore<W> {
    /// Whether the pool parks workers in a ring that has no free slot.
    pub closed spec fn full_ring(&self) -> bool {
        self.workers.full()
    }
}

/// Closing an open pool and rebooting it gives back an open pool with the
/// same capacity and counters, and no idle worker: the idle ones were
/// finished by the release.
pub proof fn law_release_then_reboot<W: Worker>(v: PoolView<W>)
    requires
        !v.closed,
    ensures
        reopened(released(v)) == (PoolView { idle: Seq::<Arc<W>>::empty(), stamps: Seq::<i64>::empty(), ..v }),
        released(released(v)) == released(v),
{
}

/// A limited pool's available and running workers add up to its capacity.
pub proof fn law_free_and_running<W: Worker>(v: PoolView<W>)
    requires
        v.capacity >= 0,
    ensures
        free_of(v) + v.running == v.capacity,
{
}

/// What a pool reports free: `-1` for a pool without limit, whatever it
/// runs, and otherwise its capacity less the workers it runs.
pub proof fn law_free_reading<W: Worker>(p: &PoolCore<W>, n: i32)
    requires
        p.wf(),
        call_ensures(PoolCore::<W>::free, (p,), n),
    ensures
        p.view().capacity < 0 ==> n == -1,
        p.view().capacity >= 0 ==> n + p.view().running == p.view().capacity,
{
}

/// How a release with a context starts: a pool already closed, or whose
/// scavenger (unless purging is off) or clock has already been told to
/// stop, refuses with [`Error::PoolClosed`]; otherwise the release goes
/// ahead, and `Ok(true)` says to wait for the pool to wind down, which
/// happens only when a context was given.
pub fn release_start(
    closed: bool,
    disable_purge: bool,
    purge_stoppable: bool,
    ticktock_stoppable: bool,
    has_context: bool,
) -> (r: Result<bool, Error>)
    ensures
        closed || (!disable_purge && !purge_stoppable) || !ticktock_stoppable ==> r == Err::<bool, Error>(Error::PoolClosed),
        !(closed || (!disable_purge && !purge_stoppable) || !ticktock_stoppable) ==> r == Ok::<bool, Error>(has_context),
{
    if closed || (!disable_purge && !purge_stoppable) || !ticktock_stoppable {
        return Err(Error::PoolClosed);
    }
    Ok(has_context)
}

/// What a caller closing a pool with a context does next.
#[derive(Debug)]
pub enum ReleaseStep {
    /// Some worker still runs: wait a moment for the last one, then look
    /// again.
    WaitWorkers,
    /// The workers are done but the pool has not settled yet: yield, then
    /// look again.
    Yield,
    /// Stop waiting, with this outcome.
    Finish(Result<(), Error>),
}

/// One round of waiting for a released pool to wind down, from what the
/// caller sees: whether every worker has announced its exit, how many still
/// count as running, whether the scavenger (unless purging is off) and the
/// clock have stopped, and why the caller's context is done, if it is.
///
/// A pool has settled once no worker runs and both background threads have
/// stopped; that ends the wait with success, and a done context ends it
/// with the context's error otherwise.
pub fn release_step(
    all_done: bool,
    running: i32,
    disable_purge: bool,
    purge_done: bool,
    ticktock_done: bool,
    ctx_err: Option<Error>,
) -> (step: ReleaseStep)
    ensures
        ({
            let settled = all_done && running == 0 && (disable_purge || purge_done) && ticktock_done;
            &&& settled ==> (step matches ReleaseStep::Finish(Ok(())))
            &&& !settled && ctx_err is Some ==> (step matches ReleaseStep::Finish(Err(e)) && Some(e) == ctx_err)
            &&& !settled && ctx_err is None && !all_done ==> step is WaitWorkers
            &&& !settled && ctx_err is None && all_done ==> step is Yield
        }),
{
    if all_done && running == 0 && (disable_purge || purge_done) && ticktock_done {
        return ReleaseStep::Finish(Ok(()));
    }
    match ctx_err {
        Some(e) => ReleaseStep::Finish(Err(e)),
        None => if all_done {
            ReleaseStep::Yield
        } else {
            ReleaseStep::WaitWorkers
        },
    }
}

/// The capacity of a worker's payload channel for a machine with
/// `parallelism` processors: a blocking hand-off on a single processor,
/// which switches from sender to receiver at once, and one buffered slot
/// otherwise, so that a busy receiver does not drag the sender down.
pub fn worker_chan_cap_for(parallelism: usize) -> (cap: usize)
    ensures
        cap == if parallelism == 1 { 0usize } else { 1usize },
{
    if parallelism == 1 {
        0
    } else {
        1
    }
}

/// The task function of a pool that runs one function for every task, or
/// [`Error::LackPoolFunc`] when none was given.
pub fn require_pool_func<F>(pf: Option<F>) -> (r: Result<F, Error>)
    ensures
        pf matches Some(f) ==> r == Ok::<F, Error>(f),
        pf is None ==> r == Err::<F, Error>(Error::LackPoolFunc),
{
    match pf {
        Some(f) => Ok(f),
        None => Err(Error::LackPoolFunc),
    }
}

/// The outcome of a release bounded by a timeout: the deadline passing is
/// reported as [`Error::Timeout`], anything else as it came.
pub fn timeout_outcome(r: Result<(), Error>) -> (out: Result<(), Error>)
    ensures
        r == Err::<(), Error>(Error::DeadlineExceeded) ==> out == Err::<(), Error>(Error::Timeout),
        r != Err::<(), Error>(Error::DeadlineExceeded) ==> out == r,
{
    match r {
        Err(Error::DeadlineExceeded) => Err(Error::Timeout),
        other => other,
    }
}

/// A release bounded by a timeout ends in success exactly when the pool has
/// settled, never reports the deadline as such, and answers
/// [`Error::Timeout`] when the wait ran out of time first: the round of
/// waiting that ends it, with the context's error, and the outcome made of
/// that end.
pub proof fn law_timed_release_outcome(
    all_done: bool,
    running: i32,
    disable_purge: bool,
    purge_done: bool,
    ticktock_done: bool,
    ctx_err: Option<Error>,
    step: ReleaseStep,
    out: Result<(), Error>,
)
    requires
        call_ensures(release_step, (all_done, running, disable_purge, purge_done, ticktock_done, ctx_err), step),
        step matches ReleaseStep::Finish(r) && call_ensures(timeout_outcome, (r,), out),
    ensures
        out is Ok <==> all_done && running == 0 && (disable_purge || purge_done) && ticktock_done,
        out != Err::<(), Error>(Error::DeadlineExceeded),
        !(all_done && running == 0 && (disable_purge || purge_done) && ticktock_done)
            && ctx_err == Some(Error::DeadlineExceeded) ==> out == Err::<(), Error>(Error::Timeout),
{
}

} // verus!
