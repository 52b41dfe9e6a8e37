//! The default worker queue: a LIFO stack that grows on demand.

use std::sync::Arc;
use vstd::prelude::*;

use crate::error::Error;
use crate::deps::gotime::{now_unix_nano, Duration};
use crate::worker_queue::{expiry_cutoff, lemma_cut_splits, sorted, sorted_between, stale_prefix, Worker};

verus! {

/// A last-in-first-out stack of idle workers.
///
/// Each parked worker is kept with the last-use time it reported when it was
/// parked. Recycling the most recently used worker keeps the oldest ones at
/// the bottom, so the stamps ascend from bottom to top and [`Self::refresh`]
/// finds the expired prefix with a binary search.
pub struct WorkerStack<W: Worker> {
    items: Vec<Arc<W>>,
    stamps: Vec<i64>,
}

impl<W: Worker> WorkerStack<W> {
    /// The parked workers, bottom (oldest) first.
    pub closed spec fn workers(&self) -> Seq<Arc<W>> {
        self.items@
    }

    /// The last-use time recorded for each parked worker, bottom first.
    pub closed spec fn stamps(&self) -> Seq<i64> {
        self.stamps@
    }

    /// The stack's internal consistency: one stamp per parked worker.
    pub closed spec fn wf(&self) -> bool {
        self.items@.len() == self.stamps@.len()
    }

    /// An empty stack with room reserved for `size` workers.
    pub fn new(size: i32) -> (q: WorkerStack<W>)
        ensures
            q.wf(),
            q.workers() == Seq::<Arc<W>>::empty(),
            q.stamps() == Seq::<i64>::empty(),
    {
        let reserve: usize = if size > 0 { size as usize } else { 0 };
        WorkerStack { items: Vec::with_capacity(reserve), stamps: Vec::with_capacity(reserve) }
    }

    /// The parked workers, oldest first.
    pub fn items(&self) -> (s: &[Arc<W>])
        ensures
            s@ == self.workers(),
    {
        self.items.as_slice()
    }

    /// The index of the last worker whose last-use time is at or before
    /// `expiry_time`, searching the inclusive range `[l, r]`, or `-1` when
    /// no worker in that range has expired (an empty range included).
    ///
    /// Whatever the stamps, `-1` on a non-empty range means that its first
    /// worker has not expired, and any other answer is a worker that has
    /// and is either the last of the range or followed by one that has not;
    /// the answer is exact when the stamps in the range ascend, which is
    /// how the stack keeps them.
    pub fn binary_search(&self, l: i32, r: i32, expiry_time: i64) -> (idx: i32)
        requires
            self.wf(),
            l > r || (0 <= l && r < self.workers().len() && r < i32::MAX),
        ensures
            l > r ==> idx == -1,
            l <= r ==> idx == -1 || l <= idx <= r,
            l <= r && idx == -1 ==> self.stamps()[l as int] > expiry_time,
            l <= r && idx != -1 ==> self.stamps()[idx as int] <= expiry_time
                && (idx == r || self.stamps()[idx + 1] > expiry_time),
            l <= r && sorted_between(self.stamps(), l as int, r as int) ==> {
                &&& idx == -1 <==> self.stamps()[l as int] > expiry_time
                &&& idx != -1 ==> forall|k: int| l <= k <= idx ==> self.stamps()[k] <= expiry_time
                &&& idx != -1 ==> forall|k: int| idx < k <= r ==> self.stamps()[k] > expiry_time
            },
    {
        if l > r {
            return -1;
        }
        let ghost first = l;
        let ghost last = r;
        let mut lo = l;
        let mut hi = r;
        while lo <= hi
            invariant
                self.wf(),
                first <= lo <= hi + 1 <= last + 1,
                0 <= first && last < self.stamps@.len() && last < i32::MAX,
                lo == first || self.stamps()[lo - 1] <= expiry_time,
                hi == last || self.stamps()[hi + 1] > expiry_time,
                sorted_between(self.stamps(), first as int, last as int) ==> forall|k: int| first <= k < lo ==> self.stamps()[k] <= expiry_time,
                sorted_between(self.stamps(), first as int, last as int) ==> forall|k: int| hi < k <= last ==> self.stamps()[k] > expiry_time,
            decreases hi + 1 - lo,
        {
            let mid = lo + (hi - lo) / 2;
            if expiry_time < self.stamps[mid as usize] {
                hi = mid - 1;
            } else {
                lo = mid + 1;
            }
        }
        if hi < l {
            return -1;
        }
        hi
    }

    /// How many workers are parked.
    pub fn len(&self) -> (n: usize)
        requires
            self.wf(),
        ensures
            n == self.workers().len(),
    {
        self.items.len()
    }

    /// Whether no worker is parked.
    pub fn is_empty(&self) -> (b: bool)
        requires
            self.wf(),
        ensures
            b <==> self.workers().len() == 0,
    {
        self.items.len() == 0
    }

    /// Parks `worker` on top of the stack, stamped with the last-use time it
    /// reports. A stack always has room.
    pub fn insert(&mut self, worker: Arc<W>) -> (r: Result<(), Error>)
        requires
            old(self).wf(),
        ensures
            final(self).wf(),
            r is Ok,
            final(self).workers() == old(self).workers().push(worker),
            final(self).stamps().drop_last() == old(self).stamps(),
            final(self).stamps().len() == old(self).stamps().len() + 1,
            call_ensures(W::last_used_time, (&worker,), final(self).stamps().last()),
    {
        let read = W::last_used_time;
        let stamp = read(&worker);
        self.insert_stamped(worker, stamp)
    }

    /// Parks `worker` on top of the stack with the last-use time `stamp`.
    pub fn insert_stamped(&mut self, worker: Arc<W>, stamp: i64) -> (r: Result<(), Error>)
        requires
            old(self).wf(),
        ensures
            final(self).wf(),
            r is Ok,
            final(self).workers() == old(self).workers().push(worker),
            final(self).stamps() == old(self).stamps().push(stamp),
    {
        self.items.push(worker);
        self.stamps.push(stamp);
        Ok(())
    }

    /// Takes the most recently parked worker off the top, if there is one.
    pub fn detach(&mut self) -> (w: Option<Arc<W>>)
        requires
            old(self).wf(),
        ensures
            final(self).wf(),
            old(self).workers().len() == 0 ==> w is None && final(self).workers() == old(self).workers()
                && final(self).stamps() == old(self).stamps(),
            old(self).workers().len() > 0 ==> w == Some(old(self).workers().last())
                && final(self).workers() == old(self).workers().drop_last()
                && final(self).stamps() == old(self).stamps().drop_last(),
    {
        let w = self.items.pop();
        if w.is_some() {
            self.stamps.pop();
        }
        w
    }

    /// Removes and returns, oldest first, the workers last used at or before
    /// `expiry_time`.
    ///
    /// What leaves is always a prefix and what stays is the rest, in order;
    /// when the stamps ascend, the prefix is exactly the expired workers.
    pub fn refresh_before(&mut self, expiry_time: i64) -> (expired: Vec<Arc<W>>)
        requires
            old(self).wf(),
            old(self).workers().len() <= i32::MAX,
        ensures
            final(self).wf(),
            expired@.len() <= old(self).workers().len(),
            expired@ == old(self).workers().take(expired@.len() as int),
            final(self).workers() == old(self).workers().skip(expired@.len() as int),
            final(self).stamps() == old(self).stamps().skip(expired@.len() as int),
            stale_prefix(old(self).stamps(), expired@.len() as int, expiry_time),
    {
        let n = self.items.len();
        if n == 0 {
            return Vec::new();
        }
        let last = (n - 1) as i32;
        assert(sorted(self.stamps()) ==> sorted_between(self.stamps(), 0, last as int));
        let index = self.binary_search(0, last, expiry_time);
        proof {
            lemma_cut_splits(self.stamps(), index + 1, expiry_time);
        }
        if index == -1 {
            proof {
                assert(self.workers().take(0) =~= Seq::<Arc<W>>::empty());
                assert(self.workers().skip(0) =~= self.workers());
                assert(self.stamps().skip(0) =~= self.stamps());
            }
            return Vec::new();
        }
        let cut = (index + 1) as usize;
        let kept = self.items.split_off(cut);
        let kept_stamps = self.stamps.split_off(cut);
        let mut expired = kept;
        core::mem::swap(&mut self.items, &mut expired);
        self.stamps = kept_stamps;
        proof {
            assert(expired@ =~= old(self).workers().take(cut as int));
            assert(self.workers() =~= old(self).workers().skip(cut as int));
            assert(self.stamps() =~= old(self).stamps().skip(cut as int));
        }
        expired
    }

    /// Removes and returns, oldest first, every worker unused for longer than
    /// `duration`, measured back from the current time.
    pub fn refresh(&mut self, duration: Duration) -> (expired: Vec<Arc<W>>)
        requires
            old(self).wf(),
            old(self).workers().len() <= i32::MAX,
        ensures
            final(self).wf(),
            expired@.len() <= old(self).workers().len(),
            expired@ == old(self).workers().take(expired@.len() as int),
            final(self).workers() == old(self).workers().skip(expired@.len() as int),
            final(self).stamps() == old(self).stamps().skip(expired@.len() as int),
            old(self).workers().len() > 0 ==> exists|now: i64| {
                &&& #[trigger] call_ensures(now_unix_nano, (), now)
                &&& stale_prefix(old(self).stamps(), expired@.len() as int, expiry_cutoff(now, duration))
            },
    {
        if self.items.len() == 0 {
            proof {
                assert(self.workers().take(0) =~= Seq::<Arc<W>>::empty());
                assert(self.workers().skip(0) =~= self.workers());
                assert(self.stamps().skip(0) =~= self.stamps());
            }
            return Vec::new();
        }
        let clock = now_unix_nano;
        let now = clock();
        let expiry_time = now.wrapping_sub(duration.as_nanos());
        let expired = self.refresh_before(expiry_time);
        assert(stale_prefix(old(self).stamps(), expired@.len() as int, expiry_cutoff(now, duration)));
        expired
    }

    /// Finishes every parked worker and empties the stack.
    pub fn reset(&mut self)
        requires
            old(self).wf(),
        ensures
            final(self).wf(),
            final(self).workers().len() == 0,
            final(self).stamps().len() == 0,
            forall|i: int| 0 <= i < old(self).workers().len() ==> call_ensures(W::finish, (&#[trigger] old(self).workers()[i],), ()),
    {
        let finish = W::finish;
        let n = self.items.len();
        let mut i: usize = 0;
        while i < n
            invariant
                n == self.items@.len(),
                self.items@ == old(self).workers(),
                i <= n,
                forall|k: int| 0 <= k < i ==> call_ensures(W::finish, (&#[trigger] self.items@[k],), ()),
            decreases n - i,
        {
            finish(&self.items[i]);
            i = i + 1;
        }
        self.items.clear();
        self.stamps.clear();
    }
}

} // verus!
