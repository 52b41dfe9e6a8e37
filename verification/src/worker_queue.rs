//! The worker abstraction and the queues that park idle workers.

use std::sync::Arc;
use vstd::prelude::*;

use crate::error::Error;
use crate::deps::gotime::{now_unix_nano, Duration};
use crate::worker_loop_queue::{ring_prefix, LoopQueue};
use crate::worker_stack::WorkerStack;

verus! {

/// A recyclable executor owned by a pool.
///
/// The pool only ever needs to stop a worker and to know when it was last
/// used; everything else about it is the concrete worker's business.
pub trait Worker: Send + Sync + 'static {
    /// Tells the worker to stop.
    fn finish(&self);

    /// When the worker was last returned to the queue, in Unix nanoseconds.
    fn last_used_time(&self) -> i64;

    /// Records when the worker was returned to the queue.
    fn set_last_used_time(&self, time: i64);
}

/// Whether a sequence of stamps ascends (ties allowed).
pub open spec fn sorted(s: Seq<i64>) -> bool {
    forall|i: int, j: int| 0 <= i <= j < s.len() ==> s[i] <= s[j]
}

/// Whether the stamps at positions `l` through `r` ascend (ties allowed).
pub open spec fn sorted_between(s: Seq<i64>, l: int, r: int) -> bool {
    forall|i: int, j: int| l <= i <= j <= r ==> s[i] <= s[j]
}

/// Whether a purge with `cutoff` takes the first `k` of `stamps`: it cuts
/// where the stamp just before the cut, if any, is at or before the cutoff
/// and the one just after, if any, is past it. When the stamps ascend, the
/// first `k` are then exactly those at or before the cutoff.
pub open spec fn stale_prefix(stamps: Seq<i64>, k: int, cutoff: i64) -> bool {
    &&& 0 <= k <= stamps.len()
    &&& k == 0 || stamps[k - 1] <= cutoff
    &&& k == stamps.len() || stamps[k] > cutoff
    &&& sorted(stamps) ==> {
        &&& forall|i: int| 0 <= i < k ==> stamps[i] <= cutoff
        &&& forall|i: int| k <= i < stamps.len() ==> stamps[i] > cutoff
    }
}

/// A cut where the stamps change from at or before the cutoff to past it
/// splits ascending stamps into exactly those two parts.
pub proof fn lemma_cut_splits(stamps: Seq<i64>, k: int, cutoff: i64)
    requires
        0 <= k <= stamps.len(),
        k == 0 || stamps[k - 1] <= cutoff,
        k == stamps.len() || stamps[k] > cutoff,
    ensures
        stale_prefix(stamps, k, cutoff),
{
    if sorted(stamps) {
        assert forall|i: int| 0 <= i < k implies stamps[i] <= cutoff by {
            assert(stamps[i] <= stamps[k - 1]);
        }
        assert forall|i: int| k <= i < stamps.len() implies stamps[i] > cutoff by {
            assert(stamps[k] <= stamps[i]);
        }
    }
}

/// The cutoff of a purge at clock reading `now` for workers idle longer than
/// `duration`: `now - duration`, wrapping at the bounds of `i64`.
pub open spec fn expiry_cutoff(now: i64, duration: Duration) -> i64 {
    now.wrapping_sub(duration.nanos() as i64)
}

/// Which queue implementation a pool parks its idle workers in.
///
/// A plain integer: the factory accepts, and defaults, values that name no
/// queue.
#[derive(Clone, Copy, PartialEq, Eq, Structural, Debug)]
pub struct QueueType(pub i32);

/// The code of the LIFO stack that grows on demand.
pub const QUEUE_TYPE_STACK: i32 = 1;

/// The code of the fixed-capacity ring buffer used under `PreAlloc`.
pub const QUEUE_TYPE_LOOP_QUEUE: i32 = 2;

impl QueueType {
    /// A LIFO stack that grows on demand.
    pub fn stack() -> (t: QueueType)
        ensures
            t.0 == QUEUE_TYPE_STACK,
    {
        QueueType(QUEUE_TYPE_STACK)
    }

    /// A fixed-capacity ring buffer, used under `PreAlloc`.
    pub fn loop_queue() -> (t: QueueType)
        ensures
            t.0 == QUEUE_TYPE_LOOP_QUEUE,
    {
        QueueType(QUEUE_TYPE_LOOP_QUEUE)
    }
}

/// A container of idle workers: a stack that grows on demand, or a ring
/// buffer that is pre-allocated and can refuse an insert.
pub enum WorkerQueue<W: Worker> {
    /// A last-in-first-out stack.
    Stack(WorkerStack<W>),
    /// A first-in-first-out ring of fixed capacity.
    Loop(LoopQueue<W>),
}

impl<W: Worker> WorkerQueue<W> {
    /// The queue's internal consistency.
    pub open spec fn wf(&self) -> bool {
        match self {
            WorkerQueue::Stack(q) => q.wf(),
            WorkerQueue::Loop(q) => q.wf(),
        }
    }

    /// The parked workers, oldest first.
    pub open spec fn workers(&self) -> Seq<Arc<W>> {
        match self {
            WorkerQueue::Stack(q) => q.workers(),
            WorkerQueue::Loop(q) => q.workers(),
        }
    }

    /// The last-use time recorded for each parked worker, oldest first.
    pub open spec fn stamps(&self) -> Seq<i64> {
        match self {
            WorkerQueue::Stack(q) => q.stamps(),
            WorkerQueue::Loop(q) => q.stamps(),
        }
    }

    /// Whether one more worker would be refused: only a full ring refuses.
    pub open spec fn full(&self) -> bool {
        match self {
            WorkerQueue::Stack(_) => false,
            WorkerQueue::Loop(q) => q.workers().len() == q.capacity(),
        }
    }

    /// How many workers are parked.
    pub fn len(&self) -> (n: usize)
        requires
            self.wf(),
        ensures
            n == self.workers().len(),
    {
        match self {
            WorkerQueue::Stack(q) => q.len(),
            WorkerQueue::Loop(q) => q.len(),
        }
    }

    /// Whether no worker is parked.
    pub fn is_empty(&self) -> (b: bool)
        requires
            self.wf(),
        ensures
            b <==> self.workers().len() == 0,
    {
        match self {
            WorkerQueue::Stack(q) => q.is_empty(),
            WorkerQueue::Loop(q) => q.is_empty(),
        }
    }

    /// Parks `worker`, stamped with the last-use time it reports, or fails
    /// with [`Error::QueueIsFull`].
    pub fn insert(&mut self, worker: Arc<W>) -> (r: Result<(), Error>)
        requires
            old(self).wf(),
        ensures
            final(self).wf(),
            *old(self) is Stack <==> *final(self) is Stack,
            old(self).full() ==> r == Err::<(), Error>(Error::QueueIsFull)
                && final(self).workers() == old(self).workers() && final(self).stamps() == old(self).stamps(),
            !old(self).full() ==> r is Ok && final(self).workers() == old(self).workers().push(worker)
                && final(self).stamps().drop_last() == old(self).stamps()
                && final(self).stamps().len() == old(self).stamps().len() + 1
                && call_ensures(W::last_used_time, (&worker,), final(self).stamps().last()),
            final(self).full() == (*final(self) is Loop && (match *final(self) {
                WorkerQueue::Loop(q) => q.workers().len() == q.capacity(),
                _ => false,
            })),
    {
        match self {
            WorkerQueue::Stack(q) => q.insert(worker),
            WorkerQueue::Loop(q) => {
                proof {
                    q.lemma_len_bounded();
                }
                q.insert(worker)
            },
        }
    }

    /// Parks `worker` with the last-use time `stamp`, or fails with
    /// [`Error::QueueIsFull`].
    pub fn insert_stamped(&mut self, worker: Arc<W>, stamp: i64) -> (r: Result<(), Error>)
        requires
            old(self).wf(),
        ensures
            final(self).wf(),
            *old(self) is Stack <==> *final(self) is Stack,
            *old(self) is Loop ==> (match (*old(self), *final(self)) {
                (WorkerQueue::Loop(a), WorkerQueue::Loop(b)) => a.capacity() == b.capacity(),
                _ => false,
            }),
            old(self).full() ==> r == Err::<(), Error>(Error::QueueIsFull)
                && final(self).workers() == old(self).workers() && final(self).stamps() == old(self).stamps(),
            !old(self).full() ==> r is Ok && final(self).workers() == old(self).workers().push(worker)
                && final(self).stamps() == old(self).stamps().push(stamp),
    {
        match self {
            WorkerQueue::Stack(q) => q.insert_stamped(worker, stamp),
            WorkerQueue::Loop(q) => {
                proof {
                    q.lemma_len_bounded();
                }
                q.insert_stamped(worker, stamp)
            },
        }
    }

    /// Takes a worker out: the newest from a stack, the oldest from a ring.
    pub fn detach(&mut self) -> (w: Option<Arc<W>>)
        requires
            old(self).wf(),
        ensures
            final(self).wf(),
            *old(self) is Stack <==> *final(self) is Stack,
            *old(self) is Loop ==> (match (*old(self), *final(self)) {
                (WorkerQueue::Loop(a), WorkerQueue::Loop(b)) => a.capacity() == b.capacity(),
                _ => false,
            }),
            old(self).workers().len() == 0 ==> w is None && final(self).workers() == old(self).workers()
                && final(self).stamps() == old(self).stamps(),
            old(self).workers().len() > 0 && *old(self) is Stack ==> w == Some(old(self).workers().last())
                && final(self).workers() == old(self).workers().drop_last()
                && final(self).stamps() == old(self).stamps().drop_last(),
            old(self).workers().len() > 0 && *old(self) is Loop ==> w == Some(old(self).workers()[0])
                && final(self).workers() == old(self).workers().drop_first()
                && final(self).stamps() == old(self).stamps().drop_first(),
    {
        match self {
            WorkerQueue::Stack(q) => q.detach(),
            WorkerQueue::Loop(q) => q.detach(),
        }
    }

    /// Removes and returns every worker last used at or before
    /// `expiry_time`; these are the oldest ones, and what stays keeps its
    /// order.
    pub fn refresh_before(&mut self, expiry_time: i64) -> (expired: Vec<Arc<W>>)
        requires
            old(self).wf(),
            old(self).workers().len() <= i32::MAX,
        ensures
            final(self).wf(),
            *old(self) is Stack <==> *final(self) is Stack,
            *old(self) is Loop ==> (match (*old(self), *final(self)) {
                (WorkerQueue::Loop(a), WorkerQueue::Loop(b)) => a.capacity() == b.capacity(),
                _ => false,
            }),
            expired@.len() <= old(self).workers().len(),
            expired@.to_multiset() == old(self).workers().take(expired@.len() as int).to_multiset(),
            final(self).workers() == old(self).workers().skip(expired@.len() as int),
            final(self).stamps() == old(self).stamps().skip(expired@.len() as int),
            stale_prefix(old(self).stamps(), expired@.len() as int, expiry_time),
    {
        match self {
            WorkerQueue::Stack(q) => {
                let ghost pre = q.workers();
                let e = q.refresh_before(expiry_time);
                assert(e@ == pre.take(e@.len() as int));
                e
            },
            WorkerQueue::Loop(q) => {
                let ghost pre = q.workers();
                let ghost to_end = q.capacity() - q.head_slot();
                proof {
                    q.lemma_head_in_range();
                }
                let e = q.refresh_before(expiry_time);
                proof {
                    lemma_ring_prefix_multiset(pre, e@.len() as int, to_end);
                }
                e
            },
        }
    }

    /// Removes and returns every worker unused for longer than `duration`,
    /// measured back from the current time.
    pub fn refresh(&mut self, duration: Duration) -> (expired: Vec<Arc<W>>)
        requires
            old(self).wf(),
            old(self).workers().len() <= i32::MAX,
        ensures
            final(self).wf(),
            *old(self) is Stack <==> *final(self) is Stack,
            *old(self) is Loop ==> (match (*old(self), *final(self)) {
                (WorkerQueue::Loop(a), WorkerQueue::Loop(b)) => a.capacity() == b.capacity(),
                _ => false,
            }),
            expired@.len() <= old(self).workers().len(),
            expired@.to_multiset() == old(self).workers().take(expired@.len() as int).to_multiset(),
            final(self).workers() == old(self).workers().skip(expired@.len() as int),
            final(self).stamps() == old(self).stamps().skip(expired@.len() as int),
            old(self).workers().len() > 0 ==> exists|now: i64| {
                &&& #[trigger] call_ensures(now_unix_nano, (), now)
                &&& stale_prefix(old(self).stamps(), expired@.len() as int, expiry_cutoff(now, duration))
            },
    {
        match self {
            WorkerQueue::Stack(q) => {
                let ghost pre = q.workers();
                let e = q.refresh(duration);
                assert(e@ == pre.take(e@.len() as int));
                e
            },
            WorkerQueue::Loop(q) => {
                let ghost pre = q.workers();
                let ghost to_end = q.capacity() - q.head_slot();
                proof {
                    q.lemma_head_in_range();
                }
                let e = q.refresh(duration);
                proof {
                    lemma_ring_prefix_multiset(pre, e@.len() as int, to_end);
                }
                e
            },
        }
    }

    /// Finishes and drops every parked worker.
    pub fn reset(&mut self)
        requires
            old(self).wf(),
        ensures
            final(self).wf(),
            *old(self) is Stack <==> *final(self) is Stack,
            *old(self) is Loop ==> (match (*old(self), *final(self)) {
                (WorkerQueue::Loop(a), WorkerQueue::Loop(b)) => a.capacity() == b.capacity(),
                _ => false,
            }),
            final(self).workers().len() == 0,
            final(self).stamps().len() == 0,
            forall|i: int| 0 <= i < old(self).workers().len() ==> call_ensures(W::finish, (&#[trigger] old(self).workers()[i],), ()),
    {
        match self {
            WorkerQueue::Stack(q) => q.reset(),
            WorkerQueue::Loop(q) => q.reset(),
        }
    }
}

/// Handing back a ring's prefix in its storage order hands back the same
/// workers as the logical prefix.
pub proof fn lemma_ring_prefix_multiset<T>(s: Seq<T>, removed: int, to_end: int)
    requires
        0 <= removed <= s.len(),
        0 <= to_end,
    ensures
        ring_prefix(s, removed, to_end).to_multiset() == s.take(removed).to_multiset(),
{
    if removed > to_end {
        let a = s.subrange(to_end, removed);
        let b = s.take(to_end);
        vstd::seq_lib::lemma_seq_union_to_multiset_commutative(a, b);
        assert(b + a =~= s.take(removed));
        assert(ring_prefix(s, removed, to_end) == a + b);
    }
}

/// Builds the queue `queue_type` names, falling back to a stack for any
/// unrecognised value. A ring needs a positive `size`.
pub fn new_worker_queue<W: Worker>(queue_type: QueueType, size: i32) -> (q: WorkerQueue<W>)
    requires
        queue_type.0 == QUEUE_TYPE_LOOP_QUEUE ==> size > 0,
    ensures
        q.wf(),
        q.workers().len() == 0,
        queue_type.0 == QUEUE_TYPE_LOOP_QUEUE <==> q is Loop,
        q matches WorkerQueue::Loop(r) ==> r.capacity() == size,
{
    if queue_type.0 == QUEUE_TYPE_LOOP_QUEUE {
        match LoopQueue::new(size) {
            Some(q) => WorkerQueue::Loop(q),
            None => {
                assert(false);
                WorkerQueue::Stack(WorkerStack::new(size))
            },
        }
    } else {
        WorkerQueue::Stack(WorkerStack::new(size))
    }
}


/// Parking a worker stamped no earlier than every parked one keeps the
/// stamps ascending; a pool stamps with a clock that does not go back.
pub proof fn law_sorted_push(s: Seq<i64>, t: i64)
    requires
        sorted(s),
        s.len() == 0 || s.last() <= t,
    ensures
        sorted(s.push(t)),
{
    assert forall|i: int, j: int| 0 <= i <= j < s.push(t).len() implies s.push(t)[i] <= s.push(t)[j] by {
        if j == s.len() {
            if i < s.len() {
                assert(s[i] <= s.last());
            }
        }
    }
}

/// Removing the oldest workers, by a refresh or by handing workers out from
/// a ring, keeps the stamps ascending; so does handing out the newest one.
pub proof fn law_sorted_trim(s: Seq<i64>, k: int)
    requires
        sorted(s),
        0 <= k <= s.len(),
    ensures
        sorted(s.skip(k)),
        s.len() > 0 ==> sorted(s.drop_last()),
{
    assert forall|i: int, j: int| 0 <= i <= j < s.skip(k).len() implies s.skip(k)[i] <= s.skip(k)[j] by {
        assert(s.skip(k)[i] == s[i + k]);
        assert(s.skip(k)[j] == s[j + k]);
    }
}

/// A stack hands back the worker parked last, and is then as it was.
pub proof fn law_stack_lifo<W>(before: Seq<Arc<W>>, w: Arc<W>)
    ensures
        before.push(w).last() == w,
        before.push(w).drop_last() == before,
{
    assert(before.push(w).drop_last() =~= before);
}

/// A ring hands its workers back in the order they were parked.
pub proof fn law_ring_fifo<W>(before: Seq<Arc<W>>, w: Arc<W>)
    requires
        before.len() > 0,
    ensures
        before.push(w)[0] == before[0],
        before.push(w).drop_first() == before.drop_first().push(w),
{
    assert(before.push(w).drop_first() =~= before.drop_first().push(w));
}

} // verus!
