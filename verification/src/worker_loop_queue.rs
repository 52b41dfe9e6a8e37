//! The pre-allocated worker queue: a fixed-capacity ring buffer.

use std::sync::Arc;
use vstd::prelude::*;

use crate::error::Error;
use crate::deps::gotime::{now_unix_nano, Duration};
use crate::worker_queue::{expiry_cutoff, lemma_cut_splits, stale_prefix, Worker};

verus! {

/// The ring position that lies `i` places after `head` in a ring of `size`
/// slots (for `0 <= i < size`).
pub open spec fn ring_slot(head: int, i: int, size: int) -> int {
    if head + i < size {
        head + i
    } else {
        head + i - size
    }
}

/// The order in which a ring hands back the first `removed` entries of its
/// logical sequence `s` when its head lies `to_end` slots before the end of
/// the storage: in order when they do not wrap, and otherwise the part that
/// wrapped to the start of the storage first, then the part before the end.
pub open spec fn ring_prefix<T>(s: Seq<T>, removed: int, to_end: int) -> Seq<T> {
    if removed <= to_end {
        s.take(removed)
    } else {
        s.subrange(to_end, removed) + s.take(to_end)
    }
}

/// A fixed-capacity circular queue of idle workers, used under `PreAlloc`.
///
/// It is first-in-first-out rather than LIFO, and it refuses an insert once
/// full instead of growing. Each parked worker is kept with the last-use time
/// it had when parked.
pub struct LoopQueue<W: Worker> {
    items: Vec<Option<Arc<W>>>,
    stamps: Vec<i64>,
    head: usize,
    tail: usize,
    size: usize,
    is_full: bool,
}

impl<W: Worker> LoopQueue<W> {
    /// How many slots the ring has.
    pub closed spec fn capacity(&self) -> nat {
        self.size as nat
    }

    /// How many workers are parked.
    pub closed spec fn count(&self) -> int {
        if self.is_full {
            self.size as int
        } else if self.tail >= self.head {
            self.tail - self.head
        } else {
            self.size - self.head + self.tail
        }
    }

    /// The storage slot of the `i`-th parked worker, counting from the head.
    pub closed spec fn slot(&self, i: int) -> int {
        ring_slot(self.head as int, i, self.size as int)
    }

    /// The storage slot at which the ring's head stands.
    pub closed spec fn head_slot(&self) -> int {
        self.head as int
    }

    /// Whether storage slot `j` holds a parked worker.
    pub closed spec fn occupied(&self, j: int) -> bool {
        if self.is_full {
            true
        } else if self.head <= self.tail {
            self.head <= j < self.tail
        } else {
            j >= self.head || j < self.tail
        }
    }

    /// The parked workers, oldest first.
    pub closed spec fn workers(&self) -> Seq<Arc<W>> {
        Seq::new(self.count() as nat, |i: int| self.items@[self.slot(i)].unwrap())
    }

    /// The last-use time recorded for each parked worker, oldest first.
    pub closed spec fn stamps(&self) -> Seq<i64> {
        Seq::new(self.count() as nat, |i: int| self.stamps@[self.slot(i)])
    }

    /// The raw storage, empty slots included.
    pub closed spec fn storage(&self) -> Seq<Option<Arc<W>>> {
        self.items@
    }

    /// The ring's internal consistency.
    pub closed spec fn wf(&self) -> bool {
        &&& 0 < self.size <= i32::MAX
        &&& self.items@.len() == self.size
        &&& self.stamps@.len() == self.size
        &&& self.head < self.size
        &&& self.tail < self.size
        &&& self.is_full ==> self.head == self.tail
        &&& forall|j: int| 0 <= j < self.size ==> (#[trigger] self.items@[j] is Some <==> self.occupied(j))
    }

    proof fn lemma_slots(&self)
        requires
            self.wf(),
        ensures
            0 <= self.count() <= self.size,
            forall|i: int| 0 <= i < self.count() ==> 0 <= #[trigger] self.slot(i) < self.size && self.occupied(self.slot(i)),
            forall|i: int, k: int| 0 <= i < k < self.count() ==> #[trigger] self.slot(i) != #[trigger] self.slot(k),
            self.count() < self.size ==> self.slot(self.count()) == self.tail && !self.occupied(self.tail as int),
            self.count() > 0 ==> self.slot(0) == self.head,
    {
    }

    /// The `i`-th parked worker, counting from the head, sits in storage
    /// slot `ring_slot(head, i, capacity)`.
    pub proof fn lemma_slot_formula(&self)
        ensures
            forall|i: int| #[trigger] self.slot(i) == ring_slot(self.head_slot(), i, self.capacity() as int),
    {
    }

    /// The head stands inside the storage.
    pub proof fn lemma_head_in_range(&self)
        requires
            self.wf(),
        ensures
            0 <= self.head_slot() < self.capacity(),
    {
    }

    /// A ring never holds more workers than it has slots.
    pub proof fn lemma_len_bounded(&self)
        requires
            self.wf(),
        ensures
            self.workers().len() <= self.capacity(),
            self.stamps().len() == self.workers().len(),
    {
    }

    /// A queue holding at most `size` workers, or `None` when `size` is not
    /// positive.
    pub fn new(size: i32) -> (q: Option<LoopQueue<W>>)
        ensures
            size <= 0 ==> q is None,
            size > 0 ==> (q matches Some(q) && q.wf() && q.capacity() == size
                && q.workers() == Seq::<Arc<W>>::empty() && q.head_slot() == 0
                && q.storage().len() == size && forall|j: int| 0 <= j < size ==> #[trigger] q.storage()[j] is None),
    {
        if size <= 0 {
            return None;
        }
        let n = size as usize;
        let mut items: Vec<Option<Arc<W>>> = Vec::with_capacity(n);
        let mut stamps: Vec<i64> = Vec::with_capacity(n);
        let mut i: usize = 0;
        while i < n
            invariant
                i <= n,
                items@.len() == i,
                stamps@.len() == i,
                forall|j: int| 0 <= j < i ==> items@[j] is None,
            decreases n - i,
        {
            items.push(None);
            stamps.push(0);
            i = i + 1;
        }
        let q = LoopQueue { items, stamps, head: 0, tail: 0, size: n, is_full: false };
        assert(q.workers() =~= Seq::<Arc<W>>::empty());
        Some(q)
    }

    /// The ring's backing storage, including the empty slots.
    pub fn items(&self) -> (s: &[Option<Arc<W>>])
        ensures
            s@ == self.storage(),
    {
        self.items.as_slice()
    }

    /// How many workers are parked.
    pub fn len(&self) -> (n: usize)
        requires
            self.wf(),
        ensures
            n == self.workers().len(),
    {
        if self.size == 0 || self.is_empty() {
            return 0;
        }
        if self.head == self.tail && self.is_full {
            return self.size;
        }
        if self.tail > self.head {
            return self.tail - self.head;
        }
        self.size - self.head + self.tail
    }

    /// Whether no worker is parked.
    pub fn is_empty(&self) -> (b: bool)
        requires
            self.wf(),
        ensures
            b <==> self.workers().len() == 0,
    {
        self.head == self.tail && !self.is_full
    }

    /// Whether `after`, answered with `r`, is what parking `worker` in this
    /// ring gives: a full ring refuses with [`Error::QueueIsFull`] and stays
    /// as it was; otherwise the worker is parked last, stamped with the
    /// last-use time it reports. The ring keeps its capacity and its head.
    pub open spec fn inserts(self, after: Self, worker: Arc<W>, r: Result<(), Error>) -> bool {
        &&& after.capacity() == self.capacity()
        &&& after.head_slot() == self.head_slot()
        &&& self.workers().len() == self.capacity() ==> r == Err::<(), Error>(Error::QueueIsFull)
            && after.workers() == self.workers() && after.stamps() == self.stamps()
        &&& self.workers().len() < self.capacity() ==> r is Ok
            && after.workers() == self.workers().push(worker)
            && after.stamps().drop_last() == self.stamps()
            && after.stamps().len() == self.stamps().len() + 1
            && call_ensures(W::last_used_time, (&worker,), after.stamps().last())
    }

    /// Parks `worker` at the tail, stamped with the last-use time it reports,
    /// or fails with [`Error::QueueIsFull`] when every slot is taken.
    pub fn insert(&mut self, worker: Arc<W>) -> (r: Result<(), Error>)
        requires
            old(self).wf(),
        ensures
            final(self).wf(),
            old(self).inserts(*final(self), worker, r),
    {
        if self.is_full {
            return Err(Error::QueueIsFull);
        }
        let read = W::last_used_time;
        let stamp = read(&worker);
        let ghost pre = *self;
        let r = self.insert_stamped(worker, stamp);
        proof {
            if pre.workers().len() < pre.capacity() {
                assert(self.stamps().drop_last() =~= pre.stamps());
                assert(self.stamps().last() == stamp);
            }
        }
        r
    }

    /// Parks `worker` at the tail with the last-use time `stamp`, or fails
    /// with [`Error::QueueIsFull`] when every slot is taken.
    pub fn insert_stamped(&mut self, worker: Arc<W>, stamp: i64) -> (r: Result<(), Error>)
        requires
            old(self).wf(),
        ensures
            final(self).wf(),
            final(self).capacity() == old(self).capacity(),
            final(self).head_slot() == old(self).head_slot(),
            old(self).workers().len() == old(self).capacity() ==> r == Err::<(), Error>(Error::QueueIsFull)
                && final(self).workers() == old(self).workers() && final(self).stamps() == old(self).stamps(),
            old(self).workers().len() < old(self).capacity() ==> r is Ok
                && final(self).workers() == old(self).workers().push(worker)
                && final(self).stamps() == old(self).stamps().push(stamp),
    {
        proof {
            self.lemma_slots();
        }
        if self.is_full {
            return Err(Error::QueueIsFull);
        }
        let ghost pre = *self;
        let t = self.tail;
        self.items.set(t, Some(worker));
        self.stamps.set(t, stamp);
        self.tail = if t + 1 == self.size { 0 } else { t + 1 };
        if self.tail == self.head {
            self.is_full = true;
        }
        proof {
            assert(self.count() == pre.count() + 1);
            assert forall|i: int| 0 <= i < self.count() implies #[trigger] self.slot(i) == pre.slot(i) by {}
            assert forall|j: int| 0 <= j < self.size implies (#[trigger] self.items@[j] is Some <==> self.occupied(j)) by {
                if j == t {
                } else {
                    assert(self.items@[j] == pre.items@[j]);
                }
            }
            assert(self.workers() =~= pre.workers().push(worker));
            assert(self.stamps() =~= pre.stamps().push(stamp));
        }
        Ok(())
    }

    /// Takes the oldest parked worker out of the queue, if there is one.
    pub fn detach(&mut self) -> (w: Option<Arc<W>>)
        requires
            old(self).wf(),
        ensures
            final(self).wf(),
            final(self).capacity() == old(self).capacity(),
            old(self).workers().len() == 0 ==> w is None && final(self).workers() == old(self).workers()
                && final(self).stamps() == old(self).stamps() && final(self).head_slot() == old(self).head_slot(),
            old(self).workers().len() > 0 ==> final(self).head_slot() == ring_slot(old(self).head_slot(), 1, old(self).capacity() as int),
            old(self).workers().len() > 0 ==> w == Some(old(self).workers()[0])
                && final(self).workers() == old(self).workers().drop_first()
                && final(self).stamps() == old(self).stamps().drop_first(),
    {
        proof {
            self.lemma_slots();
        }
        if self.is_empty() {
            return None;
        }
        let ghost pre = *self;
        let h = self.head;
        let mut taken: Option<Arc<W>> = None;
        self.items.set_and_swap(h, &mut taken);
        self.head = if h + 1 == self.size { 0 } else { h + 1 };
        self.is_full = false;
        proof {
            assert(self.count() == pre.count() - 1);
            assert forall|i: int| 0 <= i < self.count() implies #[trigger] self.slot(i) == pre.slot(i + 1) by {}
            assert forall|j: int| 0 <= j < self.size implies (#[trigger] self.items@[j] is Some <==> self.occupied(j)) by {
                if j == h {
                } else {
                    assert(self.items@[j] == pre.items@[j]);
                }
            }
            assert(self.workers() =~= pre.workers().drop_first());
            assert(self.stamps() =~= pre.stamps().drop_first());
        }
        taken
    }
    /// The logical index of the last parked worker (oldest first) whose stamp
    /// is at or before `expiry_time`, or `-1` when the oldest one is younger.
    fn search_expired(&self, expiry_time: i64) -> (k: i32)
        requires
            self.wf(),
        ensures
            self.workers().len() == 0 || expiry_time < self.stamps()[0] ==> k == -1,
            self.workers().len() > 0 && self.stamps()[0] <= expiry_time ==> 0 <= k < self.workers().len(),
            stale_prefix(self.stamps(), k + 1, expiry_time),
    {
        proof {
            self.lemma_slots();
        }
        if self.is_empty() {
            proof {
                lemma_cut_splits(self.stamps(), 0, expiry_time);
            }
            return -1;
        }
        if expiry_time < self.stamps[self.head] {
            proof {
                lemma_cut_splits(self.stamps(), 0, expiry_time);
            }
            return -1;
        }
        let n = self.size;
        let base = self.head;
        let count = self.len();
        let mut l: i32 = 0;
        let mut r: i32 = (count - 1) as i32;
        while l <= r
            invariant
                self.wf(),
                n == self.size,
                base == self.head,
                count == self.count(),
                0 < count <= n <= i32::MAX,
                0 <= l <= r + 1 <= count,
                0 <= r,
                self.stamps()[0] <= expiry_time,
                l == 0 || self.stamps()[l - 1] <= expiry_time,
                r == count - 1 || self.stamps()[r + 1] > expiry_time,
            decreases r + 1 - l,
        {
            let mid = l + (r - l) / 2;
            let m = mid as usize;
            let tmid = if m + base < n { m + base } else { m + base - n };
            proof {
                self.lemma_slots();
                assert(tmid == self.slot(mid as int));
                assert(self.stamps()[mid as int] == self.stamps@[tmid as int]);
            }
            if expiry_time < self.stamps[tmid] {
                proof {
                    if mid == 0 {
                        assert(self.stamps()[0] <= expiry_time);
                    }
                }
                r = mid - 1;
            } else {
                l = mid + 1;
            }
        }
        proof {
            lemma_cut_splits(self.stamps(), r + 1, expiry_time);
        }
        r
    }

    /// The true index of the last worker whose last-use time is at or before
    /// `expiry_time`, or `-1` when nothing has expired.
    ///
    /// The ring is sorted by last-use time only in its rotated order, so the
    /// search runs over positions counted from the head and converts the
    /// answer back to a storage index.
    pub fn binary_search(&self, expiry_time: i64) -> (idx: i32)
        requires
            self.wf(),
        ensures
            self.workers().len() == 0 || expiry_time < self.stamps()[0] ==> idx == -1,
            self.workers().len() > 0 && self.stamps()[0] <= expiry_time ==> exists|k: int| {
                &&& 0 <= k < self.workers().len()
                &&& idx == self.slot(k)
                &&& 0 <= idx < self.capacity()
                &&& stale_prefix(self.stamps(), k + 1, expiry_time)
            },
    {
        proof {
            self.lemma_slots();
        }
        let k = self.search_expired(expiry_time);
        if k < 0 {
            return -1;
        }
        let m = k as usize;
        let pos = if m + self.head < self.size { m + self.head } else { m + self.head - self.size };
        proof {
            assert(pos == self.slot(k as int));
        }
        pos as i32
    }

    /// Moves the workers of storage slots `from..to`, all occupied, to the end
    /// of `out`, emptying those slots.
    fn take_range(&mut self, from: usize, to: usize, out: &mut Vec<Arc<W>>)
        requires
            from <= to <= old(self).items@.len(),
            forall|j: int| from <= j < to ==> (#[trigger] old(self).items@[j]) is Some,
        ensures
            final(self).head == old(self).head,
            final(self).tail == old(self).tail,
            final(self).size == old(self).size,
            final(self).is_full == old(self).is_full,
            final(self).stamps@ == old(self).stamps@,
            final(self).items@.len() == old(self).items@.len(),
            forall|j: int| 0 <= j < old(self).items@.len() ==> (#[trigger] final(self).items@[j]) == (
                if from <= j < to { None } else { old(self).items@[j] }),
            final(out)@ == old(out)@ + Seq::new((to - from) as nat, |i: int| old(self).items@[from + i].unwrap()),
    {
        let mut j = from;
        while j < to
            invariant
                from <= j <= to <= self.items@.len(),
                self.head == old(self).head,
                self.tail == old(self).tail,
                self.size == old(self).size,
                self.is_full == old(self).is_full,
                self.stamps@ == old(self).stamps@,
                self.items@.len() == old(self).items@.len(),
                forall|k: int| 0 <= k < old(self).items@.len() ==> (#[trigger] self.items@[k]) == (
                    if from <= k < j { None } else { old(self).items@[k] }),
                forall|k: int| from <= k < to ==> (#[trigger] old(self).items@[k]) is Some,
                out@ == old(out)@ + Seq::new((j - from) as nat, |i: int| old(self).items@[from + i].unwrap()),
            decreases to - j,
        {
            let mut slot: Option<Arc<W>> = None;
            self.items.set_and_swap(j, &mut slot);
            assert(slot == old(self).items@[j as int]);
            match slot {
                Some(w) => {
                    out.push(w);
                },
                None => {},
            }
            j = j + 1;
            assert(out@ =~= old(out)@ + Seq::new((j - from) as nat, |i: int| old(self).items@[from + i].unwrap()));
        }
    }

    /// Removes and returns every worker last used at or before
    /// `expiry_time`: the oldest ones, counted from the head.
    ///
    /// When the expired run wraps past the end of the storage, the part at the
    /// start of the storage comes first. What stays is the rest, in order;
    /// when the stamps ascend from the head, exactly the expired workers leave.
    #[verifier::spinoff_prover]
    #[verifier::rlimit(40)]
    pub fn refresh_before(&mut self, expiry_time: i64) -> (expired: Vec<Arc<W>>)
        requires
            old(self).wf(),
        ensures
            final(self).wf(),
            final(self).capacity() == old(self).capacity(),
            expired@.len() <= old(self).workers().len(),
            expired@ == ring_prefix(old(self).workers(), expired@.len() as int,
                old(self).capacity() - old(self).head_slot()),
            final(self).workers() == old(self).workers().skip(expired@.len() as int),
            final(self).stamps() == old(self).stamps().skip(expired@.len() as int),
            stale_prefix(old(self).stamps(), expired@.len() as int, expiry_time),
    {
        proof {
            self.lemma_slots();
        }
        let ghost pre = *self;
        let k = self.search_expired(expiry_time);
        if k < 0 {
            proof {
                assert(self.workers().skip(0) =~= self.workers());
                assert(self.stamps().skip(0) =~= self.stamps());
                assert(ring_prefix(self.workers(), 0, self.size - self.head) =~= Seq::<Arc<W>>::empty());
            }
            return Vec::new();
        }
        let removed = (k as usize) + 1;
        let h = self.head;
        let to_end = self.size - h;
        let mut expired: Vec<Arc<W>> = Vec::new();
        if removed <= to_end {
            self.take_range(h, h + removed, &mut expired);
            proof {
                assert(expired@ =~= pre.workers().take(removed as int));
            }
        } else {
            self.take_range(0, removed - to_end, &mut expired);
            let ghost mid = expired@;
            assert(mid =~= pre.workers().subrange(to_end as int, removed as int));
            self.take_range(h, self.size, &mut expired);
            proof {
                assert(expired@ =~= pre.workers().subrange(to_end as int, removed as int)
                    + pre.workers().take(to_end as int));
            }
        }
        self.head = if removed < to_end { h + removed } else { removed - to_end };
        self.is_full = false;
        proof {
            let c = pre.count() - removed;
            assert(self.count() == c);
            assert forall|i: int| 0 <= i < c implies #[trigger] self.slot(i) == pre.slot(i + removed) by {}
            assert forall|j: int| 0 <= j < self.size implies (#[trigger] self.items@[j] is Some <==> self.occupied(j)) by {
            }
            assert(self.workers() =~= pre.workers().skip(removed as int));
            assert(self.stamps() =~= pre.stamps().skip(removed as int));
        }
        expired
    }

    /// Removes and returns every worker unused for longer than `duration`,
    /// measured back from the current time.
    pub fn refresh(&mut self, duration: Duration) -> (expired: Vec<Arc<W>>)
        requires
            old(self).wf(),
        ensures
            final(self).wf(),
            final(self).capacity() == old(self).capacity(),
            expired@.len() <= old(self).workers().len(),
            expired@ == ring_prefix(old(self).workers(), expired@.len() as int,
                old(self).capacity() - old(self).head_slot()),
            final(self).workers() == old(self).workers().skip(expired@.len() as int),
            final(self).stamps() == old(self).stamps().skip(expired@.len() as int),
            old(self).workers().len() > 0 ==> exists|now: i64| {
                &&& #[trigger] call_ensures(now_unix_nano, (), now)
                &&& stale_prefix(old(self).stamps(), expired@.len() as int, expiry_cutoff(now, duration))
            },
    {
        let clock = now_unix_nano;
        let now = clock();
        let expiry_time = now.wrapping_sub(duration.as_nanos());
        let expired = self.refresh_before(expiry_time);
        assert(stale_prefix(old(self).stamps(), expired@.len() as int, expiry_cutoff(now, duration)));
        expired
    }

    /// Finishes every parked worker and empties the queue.
    pub fn reset(&mut self)
        requires
            old(self).wf(),
        ensures
            final(self).wf(),
            final(self).capacity() == old(self).capacity(),
            final(self).workers().len() == 0,
            final(self).stamps().len() == 0,
            old(self).workers().len() == 0 ==> final(self).head_slot() == old(self).head_slot(),
            old(self).workers().len() > 0 ==> final(self).head_slot() == 0,
            forall|i: int| 0 <= i < old(self).workers().len() ==> call_ensures(W::finish, (&#[trigger] old(self).workers()[i],), ()),
    {
        if self.is_empty() {
            return;
        }
        let finish = W::finish;
        let ghost all = self.workers();
        let ghost mut done: int = 0;
        loop
            invariant
                self.wf(),
                self.capacity() == old(self).capacity(),
                all == old(self).workers(),
                0 <= done <= all.len(),
                self.workers() == all.skip(done),
                forall|i: int| 0 <= i < done ==> call_ensures(W::finish, (&#[trigger] all[i],), ()),
            ensures
                self.wf(),
                self.capacity() == old(self).capacity(),
                self.workers().len() == 0,
                forall|i: int| 0 <= i < all.len() ==> call_ensures(W::finish, (&#[trigger] all[i],), ()),
            decreases self.workers().len(),
        {
            match self.detach() {
                Some(w) => {
                    finish(&w);
                    proof {
                        assert(w == all[done]);
                        assert(all.skip(done).drop_first() =~= all.skip(done + 1));
                        done = done + 1;
                    }
                },
                None => {
                    break;
                },
            }
        }
        proof {
            self.lemma_slots();
        }
        self.head = 0;
        self.tail = 0;
        proof {
            assert forall|j: int| 0 <= j < self.size implies (#[trigger] self.items@[j] is Some <==> self.occupied(j)) by {}
        }
    }
}

/// An empty ring takes exactly as many workers as it has slots: along a run
/// of inserts from it, the first `capacity` succeed, every later one is
/// refused with [`Error::QueueIsFull`], and the ring then holds as many
/// workers as were accepted.
pub proof fn law_ring_takes_capacity<W: Worker>(
    rings: Seq<LoopQueue<W>>,
    workers: Seq<Arc<W>>,
    answers: Seq<Result<(), Error>>,
)
    requires
        rings.len() == answers.len() + 1,
        workers.len() == answers.len(),
        rings[0].workers().len() == 0,
        forall|i: int| #![trigger answers[i]] 0 <= i < answers.len() ==> rings[i].inserts(rings[i + 1], workers[i], answers[i]),
    ensures
        forall|i: int| 0 <= i < answers.len() ==> (#[trigger] answers[i] is Ok <==> i < rings[0].capacity()),
        forall|i: int| 0 <= i < answers.len() && i >= rings[0].capacity() ==> #[trigger] answers[i] == Err::<(), Error>(Error::QueueIsFull),
        rings.last().workers().len() == if answers.len() < rings[0].capacity() { answers.len() as int } else { rings[0].capacity() as int },
        rings.last().capacity() == rings[0].capacity(),
{
    lemma_ring_fill(rings, workers, answers, answers.len() as int);
}

proof fn lemma_ring_fill<W: Worker>(
    rings: Seq<LoopQueue<W>>,
    workers: Seq<Arc<W>>,
    answers: Seq<Result<(), Error>>,
    k: int,
)
    requires
        0 <= k <= answers.len(),
        rings.len() == answers.len() + 1,
        workers.len() == answers.len(),
        rings[0].workers().len() == 0,
        forall|i: int| #![trigger answers[i]] 0 <= i < answers.len() ==> rings[i].inserts(rings[i + 1], workers[i], answers[i]),
    ensures
        rings[k].capacity() == rings[0].capacity(),
        rings[k].workers().len() == if k < rings[0].capacity() { k } else { rings[0].capacity() as int },
        forall|i: int| 0 <= i < k ==> (#[trigger] answers[i] is Ok <==> i < rings[0].capacity()),
        forall|i: int| 0 <= i < k && i >= rings[0].capacity() ==> #[trigger] answers[i] == Err::<(), Error>(Error::QueueIsFull),
    decreases k,
{
    if k > 0 {
        lemma_ring_fill(rings, workers, answers, k - 1);
        let j = k - 1;
        assert(rings[j].inserts(rings[j + 1], workers[j], answers[j]));
    }
}

} // verus!
