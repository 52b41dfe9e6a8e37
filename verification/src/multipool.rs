//! Several pools behind one façade: choosing a pool for each task, checking
//! indices, and aggregating what went wrong when releasing them.

use std::sync::atomic::{AtomicI32, AtomicU32, Ordering};
use vstd::prelude::*;
use vstd::string::StringExecFns;

use crate::deps::context::Context;
use crate::deps::gotime::{std_duration_of_nanos, Duration};
use crate::error::{message_of, Error};
use crate::options::Opt;
use crate::deps::golog::{decimal, push_decimal};
use crate::pool_common::{CLOSED, OPENED};

verus! {

/// The code of the round-robin strategy.
pub const ROUND_ROBIN_CODE: i32 = 2;

/// The code of the least-tasks strategy.
pub const LEAST_TASKS_CODE: i32 = 4;

/// Represents the type of load-balancing algorithm: a plain integer, so that
/// values naming no strategy can be expressed and rejected.
#[derive(Clone, Copy, PartialEq, Eq, Structural, Debug)]
pub struct LoadBalancingStrategy(pub i32);

impl LoadBalancingStrategy {
    /// Distributes tasks to a list of pools in rotation.
    pub fn round_robin() -> (s: LoadBalancingStrategy)
        ensures
            s.0 == ROUND_ROBIN_CODE,
    {
        LoadBalancingStrategy(ROUND_ROBIN_CODE)
    }

    /// Always selects the pool with the least number of running workers.
    pub fn least_tasks() -> (s: LoadBalancingStrategy)
        ensures
            s.0 == LEAST_TASKS_CODE,
    {
        LoadBalancingStrategy(LEAST_TASKS_CODE)
    }

    /// Whether this value names a strategy.
    pub open spec fn is_valid(self) -> bool {
        self.0 == ROUND_ROBIN_CODE || self.0 == LEAST_TASKS_CODE
    }
}

/// The checks a multi-pool's shape must pass, in order: a positive number of
/// pools, then a strategy that names one.
pub fn check_multi_pool(size: i32, lbs: LoadBalancingStrategy) -> (r: Result<(), Error>)
    ensures
        size <= 0 ==> r == Err::<(), Error>(Error::InvalidMultiPoolSize),
        size > 0 && !lbs.is_valid() ==> r == Err::<(), Error>(Error::InvalidLoadBalancingStrategy),
        size > 0 && lbs.is_valid() ==> r is Ok,
{
    if size <= 0 {
        return Err(Error::InvalidMultiPoolSize);
    }
    if lbs.0 != ROUND_ROBIN_CODE && lbs.0 != LEAST_TASKS_CODE {
        return Err(Error::InvalidLoadBalancingStrategy);
    }
    Ok(())
}

/// The pool a round-robin ticket lands on: the ticket after `previous`,
/// wrapping at `u32::MAX`, modulo the number of pools.
pub open spec fn round_robin_index(previous: u32, len: nat) -> int {
    (if previous == u32::MAX { 0 } else { previous + 1 }) % (len as int)
}

/// Picks the pool for the ticket that follows `previous`.
pub fn round_robin_pick(previous: u32, len: usize) -> (i: usize)
    requires
        0 < len <= u32::MAX,
    ensures
        i == round_robin_index(previous, len as nat),
        i < len,
{
    let ticket = previous.wrapping_add(1);
    (ticket % (len as u32)) as usize
}

/// The first position holding the smallest value of `s`.
pub open spec fn is_first_minimum(s: Seq<i32>, i: int) -> bool {
    &&& 0 <= i < s.len()
    &&& forall|j: int| 0 <= j < s.len() ==> s[i] <= s[j]
    &&& forall|j: int| 0 <= j < i ==> s[j] > s[i]
}

/// The position of the pool with the fewest running workers, the first such
/// one on a tie.
pub fn least_tasks_pick(running: &[i32]) -> (i: usize)
    requires
        running@.len() > 0,
    ensures
        is_first_minimum(running@, i as int),
{
    let mut least: i32 = running[0];
    let mut index: usize = 0;
    let mut k: usize = 1;
    while k < running.len()
        invariant
            1 <= k <= running@.len(),
            index < k,
            least == running@[index as int],
            forall|j: int| 0 <= j < k ==> least <= running@[j],
            forall|j: int| 0 <= j < index ==> running@[j] > least,
        decreases running@.len() - k,
    {
        if running[k] < least {
            least = running[k];
            index = k;
        }
        k = k + 1;
    }
    index
}

/// The sum of `s` with wrap-around at the bounds of `i32`.
pub open spec fn wrapping_sum(s: Seq<i32>) -> i32
    decreases s.len(),
{
    if s.len() == 0 {
        0
    } else {
        wrapping_sum(s.drop_last()).wrapping_add(s.last())
    }
}

/// The sum of `s`, without wrap-around.
pub open spec fn reading_total(s: Seq<i32>) -> int
    decreases s.len(),
{
    if s.len() == 0 {
        0
    } else {
        reading_total(s.drop_last()) + s.last()
    }
}

/// Adding up readings takes in every one of them: one more reading adds it
/// to the total, and the total differs from the exact sum by a whole number
/// of wrap-arounds of `i32`, so it is the exact sum whenever that fits.
pub proof fn law_sum_takes_every_reading(s: Seq<i32>, x: i32)
    ensures
        wrapping_sum(s.push(x)) == wrapping_sum(s).wrapping_add(x),
        (reading_total(s) - wrapping_sum(s)) % 0x1_0000_0000 == 0,
        i32::MIN <= reading_total(s) <= i32::MAX ==> wrapping_sum(s) == reading_total(s),
{
    assert(s.push(x).drop_last() =~= s);
    lemma_sum_wraps(s);
    let d = reading_total(s) - wrapping_sum(s);
    if i32::MIN <= reading_total(s) <= i32::MAX {
        assert(-0x1_0000_0000 < d < 0x1_0000_0000);
        assert(d == 0) by (nonlinear_arith)
            requires
                -0x1_0000_0000 < d < 0x1_0000_0000,
                d % 0x1_0000_0000 == 0,
        {}
    }
}

proof fn lemma_sum_wraps(s: Seq<i32>)
    ensures
        (reading_total(s) - wrapping_sum(s)) % 0x1_0000_0000 == 0,
    decreases s.len(),
{
    if s.len() > 0 {
        let t = s.drop_last();
        lemma_sum_wraps(t);
        let d0 = reading_total(t) - wrapping_sum(t);
        let w = wrapping_sum(t) as int + s.last() as int;
        let d1 = reading_total(s) - wrapping_sum(s);
        assert(d1 == d0 + (w - wrapping_sum(s)));
        assert(w - wrapping_sum(s) == 0 || w - wrapping_sum(s) == 0x1_0000_0000 || w - wrapping_sum(s) == -0x1_0000_0000);
        assert((d0 + (w - wrapping_sum(s))) % 0x1_0000_0000 == 0) by (nonlinear_arith)
            requires
                d0 % 0x1_0000_0000 == 0,
                w - wrapping_sum(s) == 0 || w - wrapping_sum(s) == 0x1_0000_0000 || w - wrapping_sum(s) == -0x1_0000_0000,
        {}
    }
}

/// Adds up the readings of every pool, wrapping around at the bounds of
/// `i32`.
pub fn sum_readings(values: &[i32]) -> (total: i32)
    ensures
        total == wrapping_sum(values@),
{
    let mut total: i32 = 0;
    let mut k: usize = 0;
    while k < values.len()
        invariant
            k <= values@.len(),
            total == wrapping_sum(values@.take(k as int)),
        decreases values@.len() - k,
    {
        total = total.wrapping_add(values[k]);
        assert(values@.take(k + 1).drop_last() =~= values@.take(k as int));
        k = k + 1;
    }
    assert(values@.take(values@.len() as int) =~= values@);
    total
}

/// Whether `index` names one of `len` pools.
pub fn check_pool_index(index: i32, len: usize) -> (r: Result<usize, Error>)
    ensures
        (index < 0 || index >= len) ==> r == Err::<usize, Error>(Error::InvalidPoolIndex),
        0 <= index < len ==> r == Ok::<usize, Error>(index as usize),
{
    if index < 0 || (index as usize) >= len {
        return Err(Error::InvalidPoolIndex);
    }
    Ok(index as usize)
}

/// How one pool's failure to release is reported: `pool <index>: <error>`.
pub open spec fn release_segment(index: nat, e: Error) -> Seq<char> {
    "pool "@ + decimal(index) + ": "@ + message_of(e)
}

/// The report of the failures among the first `k` outcomes: each failure's
/// segment, joined by `" | "`.
pub open spec fn release_report(outcomes: Seq<Result<(), Error>>, k: int) -> Seq<char>
    decreases k,
{
    if k <= 0 {
        Seq::empty()
    } else {
        let before = release_report(outcomes, k - 1);
        match outcomes[k - 1] {
            Ok(()) => before,
            Err(e) => if before.len() == 0 {
                release_segment((k - 1) as nat, e)
            } else {
                before + " | "@ + release_segment((k - 1) as nat, e)
            },
        }
    }
}

/// Whether any of the first `k` outcomes failed.
pub open spec fn any_failed(outcomes: Seq<Result<(), Error>>, k: int) -> bool {
    exists|j: int| 0 <= j < k && #[trigger] outcomes[j] is Err
}

proof fn lemma_segment_nonempty(index: nat, e: Error)
    ensures
        release_segment(index, e).len() > 0,
{
    reveal_strlit("pool ");
}

/// Aggregates the outcome of releasing each pool, in pool order: success
/// when every pool released, and otherwise [`Error::Pools`] carrying every
/// failure as `pool <index>: <error>`, joined by `" | "`.
pub fn join_release_errors(outcomes: &[Result<(), Error>]) -> (r: Result<(), Error>)
    ensures
        !any_failed(outcomes@, outcomes@.len() as int) ==> r is Ok,
        any_failed(outcomes@, outcomes@.len() as int) ==> (r matches Err(Error::Pools(detail))
            && detail@ == release_report(outcomes@, outcomes@.len() as int)),
{
    let mut detail = String::new();
    let mut failed = false;
    let mut k: usize = 0;
    while k < outcomes.len()
        invariant
            k <= outcomes@.len(),
            detail@ == release_report(outcomes@, k as int),
            failed == any_failed(outcomes@, k as int),
            failed <==> detail@.len() > 0,
        decreases outcomes@.len() - k,
    {
        let ghost before = detail@;
        match &outcomes[k] {
            Ok(()) => {
                assert(failed == any_failed(outcomes@, k + 1)) by {
                    if any_failed(outcomes@, k + 1) {
                        let j = choose|j: int| 0 <= j < k + 1 && #[trigger] outcomes@[j] is Err;
                        assert(j != k);
                    }
                }
            },
            Err(e) => {
                proof {
                    reveal_strlit(" | ");
                    reveal_strlit("pool ");
                    reveal_strlit(": ");
                    lemma_segment_nonempty(k as nat, *e);
                }
                if failed {
                    detail.append(" | ");
                }
                detail.append("pool ");
                push_decimal(&mut detail, k as u64);
                detail.append(": ");
                let m = e.message();
                detail.append(m.as_str());
                failed = true;
                proof {
                    assert(outcomes@[k as int] is Err);
                    assert(any_failed(outcomes@, k + 1));
                    if before.len() == 0 {
                        assert(detail@ =~= release_segment(k as nat, *e));
                    } else {
                        assert(detail@ =~= before + " | "@ + release_segment(k as nat, *e));
                    }
                }
            },
        }
        k = k + 1;
    }
    if failed {
        Err(Error::Pools(detail))
    } else {
        Ok(())
    }
}

/// What a multi-pool needs from the pools it fronts.
pub trait Poolish: Sized {
    /// What one unit of work looks like for this pool flavour.
    type Arg;

    /// What building one pool takes besides its size and options: nothing
    /// for a pool of tasks, the function for a pool with a function.
    type Extra;

    /// Builds one pool of capacity `size`.
    fn build(size: i32, extra: &Self::Extra, options: &[Opt]) -> Result<Self, Error>;

    /// Hands `argument` to this pool, giving it back when delivery failed
    /// so that it can be retried elsewhere.
    fn deliver(&self, argument: Self::Arg) -> Result<(), (Error, Self::Arg)>;

    /// The pool's running workers.
    fn running(&self) -> i32;

    /// The pool's available workers.
    fn free(&self) -> i32;

    /// The pool's waiting callers.
    fn waiting(&self) -> i32;

    /// The pool's capacity.
    fn cap(&self) -> i32;

    /// Resizes the pool.
    fn tune(&self, size: i32);

    /// Closes the pool.
    fn release(&self);

    /// Closes every pool of `pools` at once, each waiting for its workers
    /// until `ctx` is done; one outcome per pool, in pool order.
    fn release_all(pools: &[Self], ctx: Option<&Context>) -> Vec<Result<(), Error>>;

    /// Reopens the pool.
    fn reboot(&self);
}

/// Whether `v` holds one reading of each pool's running workers, in pool order:
/// each `v[i]` is a value `running` may give for `pools[i]`.
pub open spec fn running_readings<P: Poolish>(pools: Seq<P>, v: Seq<i32>) -> bool {
    &&& v.len() == pools.len()
    &&& forall|i: int| 0 <= i < v.len() ==> call_ensures(P::running, (&pools[i],), #[trigger] v[i])
}

/// Whether `v` holds one reading of each pool's available workers, in pool order:
/// each `v[i]` is a value `free` may give for `pools[i]`.
pub open spec fn free_readings<P: Poolish>(pools: Seq<P>, v: Seq<i32>) -> bool {
    &&& v.len() == pools.len()
    &&& forall|i: int| 0 <= i < v.len() ==> call_ensures(P::free, (&pools[i],), #[trigger] v[i])
}

/// Whether `v` holds one reading of each pool's waiting callers, in pool order:
/// each `v[i]` is a value `waiting` may give for `pools[i]`.
pub open spec fn waiting_readings<P: Poolish>(pools: Seq<P>, v: Seq<i32>) -> bool {
    &&& v.len() == pools.len()
    &&& forall|i: int| 0 <= i < v.len() ==> call_ensures(P::waiting, (&pools[i],), #[trigger] v[i])
}

/// Whether `v` holds one reading of each pool's capacity, in pool order:
/// each `v[i]` is a value `cap` may give for `pools[i]`.
pub open spec fn cap_readings<P: Poolish>(pools: Seq<P>, v: Seq<i32>) -> bool {
    &&& v.len() == pools.len()
    &&& forall|i: int| 0 <= i < v.len() ==> call_ensures(P::cap, (&pools[i],), #[trigger] v[i])
}

/// Whether the strategy `lbs` may select pool `i` among `pools`: under
/// round-robin, the pool that a ticket drawn from the rotation cursor
/// (`drawn` says which tickets a draw may give) lands on; under
/// least-tasks, the first pool with the fewest running workers in one
/// reading of every pool.
pub open spec fn selectable<P: Poolish>(pools: Seq<P>, lbs: LoadBalancingStrategy, i: int, drawn: spec_fn(u32) -> bool) -> bool {
    if lbs.0 == ROUND_ROBIN_CODE {
        exists|t: u32| #[trigger] drawn(t) && i == round_robin_index(t, pools.len())
    } else {
        exists|v: Seq<i32>| running_readings(pools, v) && #[trigger] is_first_minimum(v, i)
    }
}

/// Whether `out` is what handing `argument` to `pool` may give.
pub open spec fn delivers<P: Poolish>(pool: P, argument: P::Arg, out: Result<(), (Error, P::Arg)>) -> bool {
    call_ensures(P::deliver, (&pool, argument), out)
}

/// What a delivery's outcome tells the submitter: the error, without the
/// argument handed back.
pub open spec fn delivery_result<A>(out: Result<(), (Error, A)>) -> Result<(), Error> {
    match out {
        Ok(()) => Ok(()),
        Err((e, _)) => Err(e),
    }
}

/// The outcome of submitting `argument` to the open multi-pool `pools`
/// under the strategy `lbs`: it goes to a pool the strategy selects; a
/// round-robin pick that refuses it as overloaded hands it back, and it
/// goes once more to a pool the least-tasks strategy selects; otherwise the
/// first pool's answer is the outcome. `drawn` says which tickets a draw
/// from the rotation cursor may give.
pub open spec fn dispatched<P: Poolish>(
    pools: Seq<P>,
    lbs: LoadBalancingStrategy,
    drawn: spec_fn(u32) -> bool,
    argument: P::Arg,
    r: Result<(), Error>,
) -> bool {
    exists|i: int, out: Result<(), (Error, P::Arg)>| {
        &&& 0 <= i < pools.len()
        &&& selectable(pools, lbs, i, drawn)
        &&& #[trigger] delivers(pools[i], argument, out)
        &&& match out {
            Ok(()) => r is Ok,
            Err((e, back)) => if e == Error::PoolOverload && lbs.0 == ROUND_ROBIN_CODE {
                exists|j: int, out2: Result<(), (Error, P::Arg)>| {
                    &&& 0 <= j < pools.len()
                    &&& selectable(pools, LoadBalancingStrategy(LEAST_TASKS_CODE), j, drawn)
                    &&& #[trigger] delivers(pools[j], back, out2)
                    &&& r == delivery_result(out2)
                }
            } else {
                r == Err::<(), Error>(e)
            },
        }
    }
}

/// Whether `r` reports the outcomes `o` of releasing each pool, in pool
/// order, as [`join_release_errors`] does.
pub open spec fn release_result(o: Seq<Result<(), Error>>, r: Result<(), Error>) -> bool {
    &&& !any_failed(o, o.len() as int) ==> r is Ok
    &&& any_failed(o, o.len() as int) ==> (r matches Err(Error::Pools(detail))
        && detail@ == release_report(o, o.len() as int))
}

/// Whether releasing every pool of `pools` at once, each bounded by `ctx`,
/// may be reported as `r`.
pub open spec fn released_with<P: Poolish>(pools: Seq<P>, ctx: Option<&Context>, r: Result<(), Error>) -> bool {
    exists|s: &[P], out: Vec<Result<(), Error>>| {
        &&& s@ == pools
        &&& #[trigger] call_ensures(P::release_all, (s, ctx), out)
        &&& release_result(out@, r)
    }
}

/// Whether `out` is what building one pool of capacity `size` from `extra`
/// and `options` may give.
pub open spec fn builds<P: Poolish>(size: i32, extra: &P::Extra, options: &[Opt], out: Result<P, Error>) -> bool {
    call_ensures(P::build, (size, extra, options), out)
}

/// The list of pools, the rotation cursor and the shared state that every
/// multi-pool flavour keeps.
pub(crate) struct MultiPoolCore<P: Poolish> {
    pools: Vec<P>,
    index: AtomicU32,
    state: AtomicI32,
    lbs: LoadBalancingStrategy,
}

/// Builds the rotation cursor so that the first ticket lands on pool 0.
fn new_cursor() -> (c: AtomicU32)
    ensures
        call_ensures(AtomicU32::new, (u32::MAX,), c),
{
    let make = AtomicU32::new;
    make(u32::MAX)
}

/// Builds the open/closed flag of a multi-pool, open.
fn new_state() -> (s: AtomicI32)
    ensures
        call_ensures(AtomicI32::new, (OPENED,), s),
{
    let make = AtomicI32::new;
    make(OPENED)
}

impl<P: Poolish> MultiPoolCore<P> {
    /// The pools, in index order.
    pub closed spec fn pool_seq(&self) -> Seq<P> {
        self.pools@
    }

    /// The load-balancing strategy.
    pub closed spec fn strategy(&self) -> LoadBalancingStrategy {
        self.lbs
    }

    /// At least one pool, each reachable by an `i32` index, and a strategy
    /// that names one.
    #[verifier::type_invariant]
    spec fn wf(&self) -> bool {
        &&& 0 < self.pools@.len() <= i32::MAX
        &&& self.lbs.is_valid()
    }

    /// Builds `size` pools of capacity `size_per_pool` and fronts them with
    /// the strategy `lbs`. When building one pool fails, the pools already
    /// built are released and that failure is returned.
    pub fn new(
        size: i32,
        size_per_pool: i32,
        lbs: LoadBalancingStrategy,
        extra: &P::Extra,
        options: &[Opt],
    ) -> (r: Result<MultiPoolCore<P>, Error>)
        ensures
            size <= 0 ==> r == Err::<MultiPoolCore<P>, Error>(Error::InvalidMultiPoolSize),
            size > 0 && !lbs.is_valid() ==> r == Err::<MultiPoolCore<P>, Error>(Error::InvalidLoadBalancingStrategy),
            r matches Ok(m) ==> m.pool_seq().len() == size && m.strategy() == lbs,
            r matches Ok(m) ==> forall|i: int| 0 <= i < size ==> builds(size_per_pool, extra, options, Ok::<P, Error>(#[trigger] m.pool_seq()[i])),
            size > 0 && lbs.is_valid() && r is Err ==> exists|built: Seq<P>| {
                &&& built.len() < size
                &&& #[trigger] builds(size_per_pool, extra, options, Err::<P, Error>(r->Err_0))
                &&& forall|i: int| 0 <= i < built.len() ==> builds(size_per_pool, extra, options, Ok::<P, Error>(#[trigger] built[i]))
                &&& forall|i: int| 0 <= i < built.len() ==> call_ensures(P::release, (&#[trigger] built[i],), ())
            },
    {
        match check_multi_pool(size, lbs) {
            Err(e) => {
                return Err(e);
            },
            Ok(()) => {},
        }
        let build = P::build;
        let close = P::release;
        let n = size as usize;
        let mut pools: Vec<P> = Vec::with_capacity(n);
        let mut k: usize = 0;
        while k < n
            invariant
                k <= n,
                n == size,
                size > 0,
                lbs.is_valid(),
                pools@.len() == k,
                build == P::build,
                close == P::release,
                forall|i: int| 0 <= i < k ==> builds(size_per_pool, extra, options, Ok::<P, Error>(#[trigger] pools@[i])),
            decreases n - k,
        {
            let out = build(size_per_pool, extra, options);
            assert(builds(size_per_pool, extra, options, out));
            match out {
                Ok(pool) => {
                    pools.push(pool);
                },
                Err(err) => {
                    let mut j: usize = 0;
                    while j < pools.len()
                        invariant
                            j <= pools@.len(),
                            pools@.len() == k,
                            close == P::release,
                            forall|i: int| 0 <= i < j ==> call_ensures(P::release, (&#[trigger] pools@[i],), ()),
                        decreases pools@.len() - j,
                    {
                        close(&pools[j]);
                        j = j + 1;
                    }
                    assert(builds(size_per_pool, extra, options, Err::<P, Error>(err)));
                    return Err(err);
                },
            }
            k = k + 1;
        }
        Ok(MultiPoolCore { pools, index: new_cursor(), state: new_state(), lbs })
    }

    /// The pools, in index order.
    pub fn pools(&self) -> (s: &[P])
        ensures
            s@ == self.pool_seq(),
    {
        self.pools.as_slice()
    }

    /// Whether `t` is what taking a ticket from the rotation cursor may give.
    pub closed spec fn draws_ticket(&self, t: u32) -> bool {
        call_ensures(AtomicU32::fetch_add, (&self.index, 1u32, Ordering::SeqCst), t)
    }

    /// Whether `res` is what switching the open/closed flag from `from` to
    /// `to` may give.
    pub closed spec fn switches_state(&self, from: i32, to: i32, res: Result<i32, i32>) -> bool {
        call_ensures(AtomicI32::compare_exchange, (&self.state, from, to, Ordering::SeqCst, Ordering::SeqCst), res)
    }

    /// Takes the next round-robin ticket.
    fn take_ticket(&self) -> (t: u32)
        ensures
            self.draws_ticket(t),
    {
        let fetch_add = AtomicU32::fetch_add;
        fetch_add(&self.index, 1, Ordering::SeqCst)
    }

    /// Reads every pool's running workers, in pool order.
    fn read_running(&self) -> (v: Vec<i32>)
        ensures
            running_readings(self.pools@, v@),
    {
        let mut v: Vec<i32> = Vec::with_capacity(self.pools.len());
        let mut k: usize = 0;
        let read = P::running;
        while k < self.pools.len()
            invariant
                k <= self.pools@.len(),
                v@.len() == k,
                read == P::running,
                forall|i: int| 0 <= i < v@.len() ==> call_ensures(P::running, (&self.pools@[i],), #[trigger] v@[i]),
            decreases self.pools@.len() - k,
        {
            let r = read(&self.pools[k]);
            v.push(r);
            k = k + 1;
        }
        v
    }

    /// Reads every pool's available workers, in pool order.
    fn read_free(&self) -> (v: Vec<i32>)
        ensures
            free_readings(self.pools@, v@),
    {
        let mut v: Vec<i32> = Vec::with_capacity(self.pools.len());
        let mut k: usize = 0;
        let read = P::free;
        while k < self.pools.len()
            invariant
                k <= self.pools@.len(),
                v@.len() == k,
                read == P::free,
                forall|i: int| 0 <= i < v@.len() ==> call_ensures(P::free, (&self.pools@[i],), #[trigger] v@[i]),
            decreases self.pools@.len() - k,
        {
            let r = read(&self.pools[k]);
            v.push(r);
            k = k + 1;
        }
        v
    }

    /// Reads every pool's waiting callers, in pool order.
    fn read_waiting(&self) -> (v: Vec<i32>)
        ensures
            waiting_readings(self.pools@, v@),
    {
        let mut v: Vec<i32> = Vec::with_capacity(self.pools.len());
        let mut k: usize = 0;
        let read = P::waiting;
        while k < self.pools.len()
            invariant
                k <= self.pools@.len(),
                v@.len() == k,
                read == P::waiting,
                forall|i: int| 0 <= i < v@.len() ==> call_ensures(P::waiting, (&self.pools@[i],), #[trigger] v@[i]),
            decreases self.pools@.len() - k,
        {
            let r = read(&self.pools[k]);
            v.push(r);
            k = k + 1;
        }
        v
    }

    /// Reads every pool's capacity, in pool order.
    fn read_cap(&self) -> (v: Vec<i32>)
        ensures
            cap_readings(self.pools@, v@),
    {
        let mut v: Vec<i32> = Vec::with_capacity(self.pools.len());
        let mut k: usize = 0;
        let read = P::cap;
        while k < self.pools.len()
            invariant
                k <= self.pools@.len(),
                v@.len() == k,
                read == P::cap,
                forall|i: int| 0 <= i < v@.len() ==> call_ensures(P::cap, (&self.pools@[i],), #[trigger] v@[i]),
            decreases self.pools@.len() - k,
        {
            let r = read(&self.pools[k]);
            v.push(r);
            k = k + 1;
        }
        v
    }

    /// Selects a pool by the strategy `lbs`: the next one in rotation, or
    /// the first one with the fewest running workers; `-1` for a value that
    /// names no strategy.
    pub fn next(&self, lbs: LoadBalancingStrategy) -> (i: i32)
        ensures
            lbs.is_valid() ==> 0 <= i < self.pool_seq().len()
                && selectable(self.pool_seq(), lbs, i as int, |t: u32| self.draws_ticket(t)),
            !lbs.is_valid() ==> i == -1,
    {
        proof {
            use_type_invariant(self);
        }
        let n = self.pools.len();
        if lbs.0 == ROUND_ROBIN_CODE {
            let ticket = self.take_ticket();
            let i = round_robin_pick(ticket, n);
            assert(i == round_robin_index(ticket, self.pool_seq().len()));
            assert((|t: u32| self.draws_ticket(t))(ticket));
            return i as i32;
        }
        if lbs.0 == LEAST_TASKS_CODE {
            let readings = self.read_running();
            let i = least_tasks_pick(readings.as_slice());
            assert(running_readings(self.pool_seq(), readings@) && is_first_minimum(readings@, i as int));
            return i as i32;
        }
        -1
    }

    /// Submits `argument` to a pool selected by the strategy. Under
    /// round-robin, a task refused because its pool is overloaded is retried
    /// once on the pool with the fewest running workers. A closed multi-pool
    /// refuses every task with [`Error::PoolClosed`].
    pub fn dispatch(&self, argument: P::Arg) -> (r: Result<(), Error>)
        ensures
            exists|s: i32| #[trigger] self.reads_state(s) && if s == CLOSED {
                r == Err::<(), Error>(Error::PoolClosed)
            } else {
                dispatched(self.pool_seq(), self.strategy(), |t: u32| self.draws_ticket(t), argument, r)
            },
    {
        proof {
            use_type_invariant(self);
        }
        let state = self.load_state();
        if state == CLOSED {
            return Err(Error::PoolClosed);
        }
        let ghost given = argument;
        let deliver = P::deliver;
        let first = self.next(self.lbs) as usize;
        let out = deliver(&self.pools[first], argument);
        assert(delivers(self.pool_seq()[first as int], given, out));
        let argument = match out {
            Ok(()) => {
                return Ok(());
            },
            Err((err, argument)) => {
                if !err.is_pool_overload() || self.lbs.0 != ROUND_ROBIN_CODE {
                    return Err(err);
                }
                argument
            },
        };
        let ghost back = argument;
        let second = self.next(LoadBalancingStrategy::least_tasks()) as usize;
        let out2 = deliver(&self.pools[second], argument);
        assert(delivers(self.pool_seq()[second as int], back, out2));
        match out2 {
            Ok(()) => Ok(()),
            Err((err, _)) => Err(err),
        }
    }

    /// Returns the number of the currently running workers across all pools:
    /// one reading of each pool, added up with wrap-around.
    pub fn running(&self) -> (r: i32)
        ensures
            exists|v: Seq<i32>| running_readings(self.pool_seq(), v) && r == wrapping_sum(v),
    {
        let readings = self.read_running();
        let r = sum_readings(readings.as_slice());
        assert(running_readings(self.pool_seq(), readings@) && r == wrapping_sum(readings@));
        r
    }

    /// The pool at `index`, or [`Error::InvalidPoolIndex`] when there is
    /// none.
    pub fn pool_at(&self, index: i32) -> (r: Result<&P, Error>)
        ensures
            (index < 0 || index >= self.pool_seq().len()) ==> r == Err::<&P, Error>(Error::InvalidPoolIndex),
            0 <= index < self.pool_seq().len() ==> r == Ok::<&P, Error>(&self.pool_seq()[index as int]),
    {
        match check_pool_index(index, self.pools.len()) {
            Ok(i) => Ok(&self.pools[i]),
            Err(e) => Err(e),
        }
    }

    /// Returns the number of the currently running workers in the pool at
    /// `index`.
    pub fn running_by_index(&self, index: i32) -> (r: Result<i32, Error>)
        ensures
            (index < 0 || index >= self.pool_seq().len()) ==> r == Err::<i32, Error>(Error::InvalidPoolIndex),
            0 <= index < self.pool_seq().len() ==> exists|v: i32| {
                &&& #[trigger] call_ensures(P::running, (&self.pool_seq()[index as int],), v)
                &&& r == Ok::<i32, Error>(v)
            },
    {
        let read = P::running;
        match self.pool_at(index) {
            Ok(p) => {
                let v = read(p);
                Ok(v)
            },
            Err(e) => Err(e),
        }
    }

    /// Returns the number of available workers across all pools: one reading of each pool, added up with wrap-around.
    pub fn free(&self) -> (r: i32)
        ensures
            exists|v: Seq<i32>| free_readings(self.pool_seq(), v) && r == wrapping_sum(v),
    {
        let readings = self.read_free();
        let r = sum_readings(readings.as_slice());
        assert(free_readings(self.pool_seq(), readings@) && r == wrapping_sum(readings@));
        r
    }

    /// Returns the number of available workers in the pool at `index`.
    pub fn free_by_index(&self, index: i32) -> (r: Result<i32, Error>)
        ensures
            (index < 0 || index >= self.pool_seq().len()) ==> r == Err::<i32, Error>(Error::InvalidPoolIndex),
            0 <= index < self.pool_seq().len() ==> exists|v: i32| {
                &&& #[trigger] call_ensures(P::free, (&self.pool_seq()[index as int],), v)
                &&& r == Ok::<i32, Error>(v)
            },
    {
        let read = P::free;
        match self.pool_at(index) {
            Ok(p) => {
                let v = read(p);
                Ok(v)
            },
            Err(e) => Err(e),
        }
    }

    /// Returns the number of the currently waiting callers across all pools: one reading of each pool, added up with wrap-around.
    pub fn waiting(&self) -> (r: i32)
        ensures
            exists|v: Seq<i32>| waiting_readings(self.pool_seq(), v) && r == wrapping_sum(v),
    {
        let readings = self.read_waiting();
        let r = sum_readings(readings.as_slice());
        assert(waiting_readings(self.pool_seq(), readings@) && r == wrapping_sum(readings@));
        r
    }

    /// Returns the number of the currently waiting callers in the pool at
    /// `index`.
    pub fn waiting_by_index(&self, index: i32) -> (r: Result<i32, Error>)
        ensures
            (index < 0 || index >= self.pool_seq().len()) ==> r == Err::<i32, Error>(Error::InvalidPoolIndex),
            0 <= index < self.pool_seq().len() ==> exists|v: i32| {
                &&& #[trigger] call_ensures(P::waiting, (&self.pool_seq()[index as int],), v)
                &&& r == Ok::<i32, Error>(v)
            },
    {
        let read = P::waiting;
        match self.pool_at(index) {
            Ok(p) => {
                let v = read(p);
                Ok(v)
            },
            Err(e) => Err(e),
        }
    }

    /// Returns the capacity of this multi-pool: the sum of its pools': one reading of each pool, added up with wrap-around.
    pub fn cap(&self) -> (r: i32)
        ensures
            exists|v: Seq<i32>| cap_readings(self.pool_seq(), v) && r == wrapping_sum(v),
    {
        let readings = self.read_cap();
        let r = sum_readings(readings.as_slice());
        assert(cap_readings(self.pool_seq(), readings@) && r == wrapping_sum(readings@));
        r
    }

    /// Resizes each pool in the multi-pool; the overall capacity is the sum.
    pub fn tune(&self, size: i32)
        ensures
            forall|i: int| 0 <= i < self.pool_seq().len() ==> call_ensures(P::tune, (&#[trigger] self.pool_seq()[i], size), ()),
    {
        let resize = P::tune;
        let mut k: usize = 0;
        while k < self.pools.len()
            invariant
                k <= self.pools@.len(),
                resize == P::tune,
                forall|i: int| 0 <= i < k ==> call_ensures(P::tune, (&#[trigger] self.pools@[i], size), ()),
            decreases self.pools@.len() - k,
        {
            resize(&self.pools[k], size);
            k = k + 1;
        }
    }

    /// Reads the open/closed flag.
    fn load_state(&self) -> (s: i32)
        ensures
            self.reads_state(s),
    {
        let load = AtomicI32::load;
        load(&self.state, Ordering::SeqCst)
    }

    /// Whether `s` is what loading the open/closed flag may give.
    pub closed spec fn reads_state(&self, s: i32) -> bool {
        call_ensures(AtomicI32::load, (&self.state, Ordering::SeqCst), s)
    }

    /// Indicates whether the multi-pool is closed: whether a load of its
    /// flag reads [`CLOSED`].
    pub fn is_closed(&self) -> (b: bool)
        ensures
            exists|s: i32| #[trigger] self.reads_state(s) && b == (s == CLOSED),
    {
        let s = self.load_state();
        s == CLOSED
    }

    /// Switches the flag from `from` to `to` if it reads `from`, reporting
    /// whether it did.
    fn switch_state(&self, from: i32, to: i32) -> (b: bool)
        ensures
            exists|res: Result<i32, i32>| {
                &&& #[trigger] self.switches_state(from, to, res)
                &&& b == res is Ok
            },
    {
        let exchange = AtomicI32::compare_exchange;
        let res = exchange(&self.state, from, to, Ordering::SeqCst, Ordering::SeqCst);
        assert(self.switches_state(from, to, res));
        res.is_ok()
    }

    /// Closes the multi-pool with a context; it waits for all pools to be
    /// closed before the context is done. A multi-pool closed already
    /// reports [`Error::PoolClosed`]; otherwise every pool is released and
    /// their failures are joined as [`join_release_errors`] does.
    pub fn release_context(&self, ctx: Option<&Context>) -> (r: Result<(), Error>)
        ensures
            exists|res: Result<i32, i32>| #[trigger] self.switches_state(OPENED, CLOSED, res) && if res is Ok {
                released_with(self.pool_seq(), ctx, r)
            } else {
                r == Err::<(), Error>(Error::PoolClosed)
            },
    {
        if !self.switch_state(OPENED, CLOSED) {
            return Err(Error::PoolClosed);
        }
        let release_all = P::release_all;
        let pools = self.pools.as_slice();
        let outcomes = release_all(pools, ctx);
        let r = join_release_errors(outcomes.as_slice());
        assert(pools@ == self.pool_seq() && call_ensures(P::release_all, (pools, ctx), outcomes)
            && release_result(outcomes@, r));
        r
    }

    /// Closes the multi-pool with a timeout; it waits for all pools to be
    /// closed before timing out.
    pub fn release_timeout(&self, timeout: Duration) -> (r: Result<(), Error>)
        ensures
            exists|res: Result<i32, i32>| #[trigger] self.switches_state(OPENED, CLOSED, res) && if res is Ok {
                exists|c: Context| c.deadline_after(std_duration_of_nanos(if timeout.nanos() <= 0 { 0 } else { timeout.nanos() as u64 })) && #[trigger] released_with(self.pool_seq(), Some(&c), r)
            } else {
                r == Err::<(), Error>(Error::PoolClosed)
            },
    {
        let (ctx, cancel) = Context::with_timeout(timeout);
        let result = self.release_context(Some(&ctx));
        cancel.cancel();
        result
    }

    /// Whether the rotation cursor was stored zero, so that the next ticket
    /// lands on pool 1 % n after it.
    pub closed spec fn rewound(&self) -> bool {
        call_ensures(AtomicU32::store, (&self.index, 0u32, Ordering::SeqCst), ())
    }

    /// Rewinds the rotation cursor to zero.
    fn rewind(&self)
        ensures
            self.rewound(),
    {
        let store = AtomicU32::store;
        store(&self.index, 0, Ordering::SeqCst);
    }

    /// Reboots a released multi-pool: reopens it, rewinds the rotation and
    /// reboots each pool. It does nothing to a multi-pool that is open.
    pub fn reboot(&self)
        ensures
            exists|res: Result<i32, i32>| #[trigger] self.switches_state(CLOSED, OPENED, res) && (res is Ok ==> {
                &&& self.rewound()
                &&& forall|i: int| 0 <= i < self.pool_seq().len() ==> call_ensures(P::reboot, (&#[trigger] self.pool_seq()[i],), ())
            }),
    {
        let reopen = P::reboot;
        if self.switch_state(CLOSED, OPENED) {
            self.rewind();
            let mut k: usize = 0;
            while k < self.pools.len()
                invariant
                    k <= self.pools@.len(),
                    reopen == P::reboot,
                    forall|i: int| 0 <= i < k ==> call_ensures(P::reboot, (&#[trigger] self.pools@[i],), ()),
                decreases self.pools@.len() - k,
            {
                reopen(&self.pools[k]);
                k = k + 1;
            }
        }
    }
}


/// Consists of multiple pools, from which you will benefit the performance
/// improvement on basis of the fine-grained locking that reduces the lock
/// contention.
///
/// `MultiPool` is a good fit for the scenario where you have a large number
/// of tasks to submit, and you don't want the single pool to be the
/// bottleneck.
pub struct MultiPool<P: Poolish> {
    core: MultiPoolCore<P>,
}

impl<P: Poolish> MultiPool<P> {
    /// The number of pools.
    pub closed spec fn pool_count(&self) -> nat {
        self.core.pool_seq().len()
    }

    /// The pools, in index order.
    pub closed spec fn pools_view(&self) -> Seq<P> {
        self.core.pool_seq()
    }

    /// Whether the rotation cursor was stored zero.
    pub closed spec fn rewound(&self) -> bool {
        self.core.rewound()
    }

    /// Whether `t` is what drawing a ticket from the rotation cursor may
    /// give.
    pub closed spec fn draws(&self, t: u32) -> bool {
        self.core.draws_ticket(t)
    }

    /// Whether `s` is what loading the open/closed flag may give.
    pub closed spec fn reads_flag(&self, s: i32) -> bool {
        self.core.reads_state(s)
    }

    /// Whether `res` is what switching the open/closed flag from `from` to
    /// `to` may give.
    pub closed spec fn switches_flag(&self, from: i32, to: i32, res: Result<i32, i32>) -> bool {
        self.core.switches_state(from, to, res)
    }

    /// The load-balancing strategy.
    pub closed spec fn strategy(&self) -> LoadBalancingStrategy {
        self.core.strategy()
    }


    /// Instantiates a `MultiPool` with a size of the pool list and a size
    /// per pool, and the load-balancing strategy.
    pub fn new(size: i32, size_per_pool: i32, lbs: LoadBalancingStrategy, options: &[Opt]) -> (r: Result<MultiPool<P>, Error>)
        where P: Poolish<Extra = ()>,
        ensures
            size <= 0 ==> r is Err && r->Err_0 == Error::InvalidMultiPoolSize,
            size > 0 && !lbs.is_valid() ==> r is Err && r->Err_0 == Error::InvalidLoadBalancingStrategy,
            r matches Ok(m) ==> m.pool_count() == size && m.strategy() == lbs,
            r matches Ok(m) ==> forall|i: int| 0 <= i < size ==> builds(size_per_pool, &(), options, Ok::<P, Error>(#[trigger] m.pools_view()[i])),
            size > 0 && lbs.is_valid() && r is Err ==> exists|built: Seq<P>| {
                &&& built.len() < size
                &&& #[trigger] builds(size_per_pool, &(), options, Err::<P, Error>(r->Err_0))
                &&& forall|i: int| 0 <= i < built.len() ==> builds(size_per_pool, &(), options, Ok::<P, Error>(#[trigger] built[i]))
                &&& forall|i: int| 0 <= i < built.len() ==> call_ensures(P::release, (&#[trigger] built[i],), ())
            },
    {
        match MultiPoolCore::new(size, size_per_pool, lbs, &(), options) {
            Ok(core) => {
                let m = MultiPool { core };
                assert(m.pools_view() == m.core.pool_seq());
                Ok(m)
            },
            Err(e) => Err(e),
        }
    }

    /// Submits a task to a pool selected by the load-balancing strategy.
    pub fn submit(&self, task: P::Arg) -> (r: Result<(), Error>)
        ensures
            exists|s: i32| #[trigger] self.reads_flag(s) && if s == CLOSED {
                r == Err::<(), Error>(Error::PoolClosed)
            } else {
                dispatched(self.pools_view(), self.strategy(), |t: u32| self.draws(t), task, r)
            },
    {
        let r = self.core.dispatch(task);
        proof {
            let s = choose|s: i32| #[trigger] self.core.reads_state(s) && if s == CLOSED {
                r == Err::<(), Error>(Error::PoolClosed)
            } else {
                dispatched(self.core.pool_seq(), self.core.strategy(), |t: u32| self.core.draws_ticket(t), task, r)
            };
            assert(self.reads_flag(s));
            assert((|t: u32| self.draws(t)) =~= (|t: u32| self.core.draws_ticket(t)));
        }
        r
    }

    /// Returns the number of the currently running workers across all pools.
    pub fn running(&self) -> (r: i32)
        ensures
            exists|v: Seq<i32>| running_readings(self.pools_view(), v) && r == wrapping_sum(v),
    {
        self.core.running()
    }

    /// Returns the number of the currently running workers in the specific
    /// pool.
    pub fn running_by_index(&self, index: i32) -> (r: Result<i32, Error>)
        ensures
            (index < 0 || index >= self.pool_count()) ==> r == Err::<i32, Error>(Error::InvalidPoolIndex),
            0 <= index < self.pool_count() ==> exists|v: i32| {
                &&& #[trigger] call_ensures(P::running, (&self.pools_view()[index as int],), v)
                &&& r == Ok::<i32, Error>(v)
            },
    {
        let r = self.core.running_by_index(index);
        proof {
            if 0 <= index < self.pool_count() {
                assert(self.pools_view() == self.core.pool_seq());
                assert(call_ensures(P::running, (&self.pools_view()[index as int],), r->Ok_0));
            }
        }
        r
    }

    /// Returns the number of available workers across all pools.
    pub fn free(&self) -> (r: i32)
        ensures
            exists|v: Seq<i32>| free_readings(self.pools_view(), v) && r == wrapping_sum(v),
    {
        self.core.free()
    }

    /// Returns the number of available workers in the specific pool.
    pub fn free_by_index(&self, index: i32) -> (r: Result<i32, Error>)
        ensures
            (index < 0 || index >= self.pool_count()) ==> r == Err::<i32, Error>(Error::InvalidPoolIndex),
            0 <= index < self.pool_count() ==> exists|v: i32| {
                &&& #[trigger] call_ensures(P::free, (&self.pools_view()[index as int],), v)
                &&& r == Ok::<i32, Error>(v)
            },
    {
        let r = self.core.free_by_index(index);
        proof {
            if 0 <= index < self.pool_count() {
                assert(self.pools_view() == self.core.pool_seq());
                assert(call_ensures(P::free, (&self.pools_view()[index as int],), r->Ok_0));
            }
        }
        r
    }

    /// Returns the number of the currently waiting callers across all pools.
    pub fn waiting(&self) -> (r: i32)
        ensures
            exists|v: Seq<i32>| waiting_readings(self.pools_view(), v) && r == wrapping_sum(v),
    {
        self.core.waiting()
    }

    /// Returns the number of the currently waiting callers in the specific
    /// pool.
    pub fn waiting_by_index(&self, index: i32) -> (r: Result<i32, Error>)
        ensures
            (index < 0 || index >= self.pool_count()) ==> r == Err::<i32, Error>(Error::InvalidPoolIndex),
            0 <= index < self.pool_count() ==> exists|v: i32| {
                &&& #[trigger] call_ensures(P::waiting, (&self.pools_view()[index as int],), v)
                &&& r == Ok::<i32, Error>(v)
            },
    {
        let r = self.core.waiting_by_index(index);
        proof {
            if 0 <= index < self.pool_count() {
                assert(self.pools_view() == self.core.pool_seq());
                assert(call_ensures(P::waiting, (&self.pools_view()[index as int],), r->Ok_0));
            }
        }
        r
    }

    /// Returns the capacity of this multi-pool.
    pub fn cap(&self) -> (r: i32)
        ensures
            exists|v: Seq<i32>| cap_readings(self.pools_view(), v) && r == wrapping_sum(v),
    {
        self.core.cap()
    }

    /// Resizes each pool in the multi-pool.
    ///
    /// Note that this method doesn't resize the overall capacity of the
    /// multi-pool.
    pub fn tune(&self, size: i32)
        ensures
            forall|i: int| 0 <= i < self.pool_count() ==> call_ensures(P::tune, (&#[trigger] self.pools_view()[i], size), ()),
    {
        self.core.tune(size);
        assert(self.pools_view() == self.core.pool_seq());
    }

    /// Indicates whether the multi-pool is closed.
    pub fn is_closed(&self) -> (b: bool)
        ensures
            exists|s: i32| #[trigger] self.reads_flag(s) && b == (s == CLOSED),
    {
        let b = self.core.is_closed();
        proof {
            let s = choose|s: i32| #[trigger] self.core.reads_state(s) && b == (s == CLOSED);
            assert(self.reads_flag(s));
        }
        b
    }

    /// Closes the multi-pool with a timeout; it waits for all pools to be
    /// closed before timing out.
    pub fn release_timeout(&self, timeout: Duration) -> (r: Result<(), Error>)
        ensures
            exists|res: Result<i32, i32>| #[trigger] self.switches_flag(OPENED, CLOSED, res) && if res is Ok {
                exists|c: Context| c.deadline_after(std_duration_of_nanos(if timeout.nanos() <= 0 { 0 } else { timeout.nanos() as u64 })) && #[trigger] released_with(self.pools_view(), Some(&c), r)
            } else {
                r == Err::<(), Error>(Error::PoolClosed)
            },
    {
        let r = self.core.release_timeout(timeout);
        proof {
            let res = choose|res: Result<i32, i32>| #[trigger] self.core.switches_state(OPENED, CLOSED, res) && if res is Ok {
                exists|c: Context| c.deadline_after(std_duration_of_nanos(if timeout.nanos() <= 0 { 0 } else { timeout.nanos() as u64 })) && #[trigger] released_with(self.core.pool_seq(), Some(&c), r)
            } else {
                r == Err::<(), Error>(Error::PoolClosed)
            };
            assert(self.switches_flag(OPENED, CLOSED, res));
            if res is Ok {
                let c = choose|c: Context| c.deadline_after(std_duration_of_nanos(if timeout.nanos() <= 0 { 0 } else { timeout.nanos() as u64 })) && #[trigger] released_with(self.core.pool_seq(), Some(&c), r);
                assert(released_with(self.pools_view(), Some(&c), r));
            }
        }
        r
    }

    /// Closes the multi-pool with a context; it waits for all pools to be
    /// closed before the context is done.
    pub fn release_context(&self, ctx: Option<&Context>) -> (r: Result<(), Error>)
        ensures
            exists|res: Result<i32, i32>| #[trigger] self.switches_flag(OPENED, CLOSED, res) && if res is Ok {
                released_with(self.pools_view(), ctx, r)
            } else {
                r == Err::<(), Error>(Error::PoolClosed)
            },
    {
        let r = self.core.release_context(ctx);
        proof {
            let res = choose|res: Result<i32, i32>| #[trigger] self.core.switches_state(OPENED, CLOSED, res) && if res is Ok {
                released_with(self.core.pool_seq(), ctx, r)
            } else {
                r == Err::<(), Error>(Error::PoolClosed)
            };
            assert(self.switches_flag(OPENED, CLOSED, res));
        }
        r
    }

    /// Reboots a released multi-pool.
    pub fn reboot(&self)
        ensures
            exists|res: Result<i32, i32>| #[trigger] self.switches_flag(CLOSED, OPENED, res) && (res is Ok ==> {
                &&& self.rewound()
                &&& forall|i: int| 0 <= i < self.pool_count() ==> call_ensures(P::reboot, (&#[trigger] self.pools_view()[i],), ())
            }),
    {
        self.core.reboot();
        proof {
            let res = choose|res: Result<i32, i32>| #[trigger] self.core.switches_state(CLOSED, OPENED, res) && (res is Ok ==> {
                &&& self.core.rewound()
                &&& forall|i: int| 0 <= i < self.core.pool_seq().len() ==> call_ensures(P::reboot, (&#[trigger] self.core.pool_seq()[i],), ())
            });
            assert(self.switches_flag(CLOSED, OPENED, res));
            assert(self.pools_view() == self.core.pool_seq());
        }
    }
}

/// Consists of multiple pools with a function, from which you will benefit
/// the performance improvement on basis of the fine-grained locking that
/// reduces the lock contention.
pub struct MultiPoolWithFunc<P: Poolish> {
    core: MultiPoolCore<P>,
}

impl<P: Poolish> MultiPoolWithFunc<P> {
    /// The number of pools.
    pub closed spec fn pool_count(&self) -> nat {
        self.core.pool_seq().len()
    }

    /// The pools, in index order.
    pub closed spec fn pools_view(&self) -> Seq<P> {
        self.core.pool_seq()
    }

    /// Whether the rotation cursor was stored zero.
    pub closed spec fn rewound(&self) -> bool {
        self.core.rewound()
    }

    /// Whether `t` is what drawing a ticket from the rotation cursor may
    /// give.
    pub closed spec fn draws(&self, t: u32) -> bool {
        self.core.draws_ticket(t)
    }

    /// Whether `s` is what loading the open/closed flag may give.
    pub closed spec fn reads_flag(&self, s: i32) -> bool {
        self.core.reads_state(s)
    }

    /// Whether `res` is what switching the open/closed flag from `from` to
    /// `to` may give.
    pub closed spec fn switches_flag(&self, from: i32, to: i32, res: Result<i32, i32>) -> bool {
        self.core.switches_state(from, to, res)
    }

    /// The load-balancing strategy.
    pub closed spec fn strategy(&self) -> LoadBalancingStrategy {
        self.core.strategy()
    }


    /// Instantiates a `MultiPoolWithFunc` with a size of the pool list, a
    /// size per pool, the function every pool runs, and the load-balancing
    /// strategy.
    pub fn new(
        size: i32,
        size_per_pool: i32,
        pf: P::Extra,
        lbs: LoadBalancingStrategy,
        options: &[Opt],
    ) -> (r: Result<MultiPoolWithFunc<P>, Error>)
        ensures
            size <= 0 ==> r is Err && r->Err_0 == Error::InvalidMultiPoolSize,
            size > 0 && !lbs.is_valid() ==> r is Err && r->Err_0 == Error::InvalidLoadBalancingStrategy,
            r matches Ok(m) ==> m.pool_count() == size && m.strategy() == lbs,
            r matches Ok(m) ==> forall|i: int| 0 <= i < size ==> builds(size_per_pool, &pf, options, Ok::<P, Error>(#[trigger] m.pools_view()[i])),
            size > 0 && lbs.is_valid() && r is Err ==> exists|built: Seq<P>| {
                &&& built.len() < size
                &&& #[trigger] builds(size_per_pool, &pf, options, Err::<P, Error>(r->Err_0))
                &&& forall|i: int| 0 <= i < built.len() ==> builds(size_per_pool, &pf, options, Ok::<P, Error>(#[trigger] built[i]))
                &&& forall|i: int| 0 <= i < built.len() ==> call_ensures(P::release, (&#[trigger] built[i],), ())
            },
    {
        match MultiPoolCore::new(size, size_per_pool, lbs, &pf, options) {
            Ok(core) => {
                let m = MultiPoolWithFunc { core };
                assert(m.pools_view() == m.core.pool_seq());
                Ok(m)
            },
            Err(e) => Err(e),
        }
    }

    /// Submits an argument to a pool selected by the load-balancing strategy.
    pub fn invoke(&self, argument: P::Arg) -> (r: Result<(), Error>)
        ensures
            exists|s: i32| #[trigger] self.reads_flag(s) && if s == CLOSED {
                r == Err::<(), Error>(Error::PoolClosed)
            } else {
                dispatched(self.pools_view(), self.strategy(), |t: u32| self.draws(t), argument, r)
            },
    {
        let r = self.core.dispatch(argument);
        proof {
            let s = choose|s: i32| #[trigger] self.core.reads_state(s) && if s == CLOSED {
                r == Err::<(), Error>(Error::PoolClosed)
            } else {
                dispatched(self.core.pool_seq(), self.core.strategy(), |t: u32| self.core.draws_ticket(t), argument, r)
            };
            assert(self.reads_flag(s));
            assert((|t: u32| self.draws(t)) =~= (|t: u32| self.core.draws_ticket(t)));
        }
        r
    }

    /// Returns the number of the currently running workers across all pools.
    pub fn running(&self) -> (r: i32)
        ensures
            exists|v: Seq<i32>| running_readings(self.pools_view(), v) && r == wrapping_sum(v),
    {
        self.core.running()
    }

    /// Returns the number of the currently running workers in the specific
    /// pool.
    pub fn running_by_index(&self, index: i32) -> (r: Result<i32, Error>)
        ensures
            (index < 0 || index >= self.pool_count()) ==> r == Err::<i32, Error>(Error::InvalidPoolIndex),
            0 <= index < self.pool_count() ==> exists|v: i32| {
                &&& #[trigger] call_ensures(P::running, (&self.pools_view()[index as int],), v)
                &&& r == Ok::<i32, Error>(v)
            },
    {
        let r = self.core.running_by_index(index);
        proof {
            if 0 <= index < self.pool_count() {
                assert(self.pools_view() == self.core.pool_seq());
                assert(call_ensures(P::running, (&self.pools_view()[index as int],), r->Ok_0));
            }
        }
        r
    }

    /// Returns the number of available workers across all pools.
    pub fn free(&self) -> (r: i32)
        ensures
            exists|v: Seq<i32>| free_readings(self.pools_view(), v) && r == wrapping_sum(v),
    {
        self.core.free()
    }

    /// Returns the number of available workers in the specific pool.
    pub fn free_by_index(&self, index: i32) -> (r: Result<i32, Error>)
        ensures
            (index < 0 || index >= self.pool_count()) ==> r == Err::<i32, Error>(Error::InvalidPoolIndex),
            0 <= index < self.pool_count() ==> exists|v: i32| {
                &&& #[trigger] call_ensures(P::free, (&self.pools_view()[index as int],), v)
                &&& r == Ok::<i32, Error>(v)
            },
    {
        let r = self.core.free_by_index(index);
        proof {
            if 0 <= index < self.pool_count() {
                assert(self.pools_view() == self.core.pool_seq());
                assert(call_ensures(P::free, (&self.pools_view()[index as int],), r->Ok_0));
            }
        }
        r
    }

    /// Returns the number of the currently waiting callers across all pools.
    pub fn waiting(&self) -> (r: i32)
        ensures
            exists|v: Seq<i32>| waiting_readings(self.pools_view(), v) && r == wrapping_sum(v),
    {
        self.core.waiting()
    }

    /// Returns the number of the currently waiting callers in the specific
    /// pool.
    pub fn waiting_by_index(&self, index: i32) -> (r: Result<i32, Error>)
        ensures
            (index < 0 || index >= self.pool_count()) ==> r == Err::<i32, Error>(Error::InvalidPoolIndex),
            0 <= index < self.pool_count() ==> exists|v: i32| {
                &&& #[trigger] call_ensures(P::waiting, (&self.pools_view()[index as int],), v)
                &&& r == Ok::<i32, Error>(v)
            },
    {
        let r = self.core.waiting_by_index(index);
        proof {
            if 0 <= index < self.pool_count() {
                assert(self.pools_view() == self.core.pool_seq());
                assert(call_ensures(P::waiting, (&self.pools_view()[index as int],), r->Ok_0));
            }
        }
        r
    }

    /// Returns the capacity of this multi-pool.
    pub fn cap(&self) -> (r: i32)
        ensures
            exists|v: Seq<i32>| cap_readings(self.pools_view(), v) && r == wrapping_sum(v),
    {
        self.core.cap()
    }

    /// Resizes each pool in the multi-pool.
    ///
    /// Note that this method doesn't resize the overall capacity of the
    /// multi-pool.
    pub fn tune(&self, size: i32)
        ensures
            forall|i: int| 0 <= i < self.pool_count() ==> call_ensures(P::tune, (&#[trigger] self.pools_view()[i], size), ()),
    {
        self.core.tune(size);
        assert(self.pools_view() == self.core.pool_seq());
    }

    /// Indicates whether the multi-pool is closed.
    pub fn is_closed(&self) -> (b: bool)
        ensures
            exists|s: i32| #[trigger] self.reads_flag(s) && b == (s == CLOSED),
    {
        let b = self.core.is_closed();
        proof {
            let s = choose|s: i32| #[trigger] self.core.reads_state(s) && b == (s == CLOSED);
            assert(self.reads_flag(s));
        }
        b
    }

    /// Closes the multi-pool with a timeout; it waits for all pools to be
    /// closed before timing out.
    pub fn release_timeout(&self, timeout: Duration) -> (r: Result<(), Error>)
        ensures
            exists|res: Result<i32, i32>| #[trigger] self.switches_flag(OPENED, CLOSED, res) && if res is Ok {
                exists|c: Context| c.deadline_after(std_duration_of_nanos(if timeout.nanos() <= 0 { 0 } else { timeout.nanos() as u64 })) && #[trigger] released_with(self.pools_view(), Some(&c), r)
            } else {
                r == Err::<(), Error>(Error::PoolClosed)
            },
    {
        let r = self.core.release_timeout(timeout);
        proof {
            let res = choose|res: Result<i32, i32>| #[trigger] self.core.switches_state(OPENED, CLOSED, res) && if res is Ok {
                exists|c: Context| c.deadline_after(std_duration_of_nanos(if timeout.nanos() <= 0 { 0 } else { timeout.nanos() as u64 })) && #[trigger] released_with(self.core.pool_seq(), Some(&c), r)
            } else {
                r == Err::<(), Error>(Error::PoolClosed)
            };
            assert(self.switches_flag(OPENED, CLOSED, res));
            if res is Ok {
                let c = choose|c: Context| c.deadline_after(std_duration_of_nanos(if timeout.nanos() <= 0 { 0 } else { timeout.nanos() as u64 })) && #[trigger] released_with(self.core.pool_seq(), Some(&c), r);
                assert(released_with(self.pools_view(), Some(&c), r));
            }
        }
        r
    }

    /// Closes the multi-pool with a context; it waits for all pools to be
    /// closed before the context is done.
    pub fn release_context(&self, ctx: Option<&Context>) -> (r: Result<(), Error>)
        ensures
            exists|res: Result<i32, i32>| #[trigger] self.switches_flag(OPENED, CLOSED, res) && if res is Ok {
                released_with(self.pools_view(), ctx, r)
            } else {
                r == Err::<(), Error>(Error::PoolClosed)
            },
    {
        let r = self.core.release_context(ctx);
        proof {
            let res = choose|res: Result<i32, i32>| #[trigger] self.core.switches_state(OPENED, CLOSED, res) && if res is Ok {
                released_with(self.core.pool_seq(), ctx, r)
            } else {
                r == Err::<(), Error>(Error::PoolClosed)
            };
            assert(self.switches_flag(OPENED, CLOSED, res));
        }
        r
    }

    /// Reboots a released multi-pool.
    pub fn reboot(&self)
        ensures
            exists|res: Result<i32, i32>| #[trigger] self.switches_flag(CLOSED, OPENED, res) && (res is Ok ==> {
                &&& self.rewound()
                &&& forall|i: int| 0 <= i < self.pool_count() ==> call_ensures(P::reboot, (&#[trigger] self.pools_view()[i],), ())
            }),
    {
        self.core.reboot();
        proof {
            let res = choose|res: Result<i32, i32>| #[trigger] self.core.switches_state(CLOSED, OPENED, res) && (res is Ok ==> {
                &&& self.core.rewound()
                &&& forall|i: int| 0 <= i < self.core.pool_seq().len() ==> call_ensures(P::reboot, (&#[trigger] self.core.pool_seq()[i],), ())
            });
            assert(self.switches_flag(CLOSED, OPENED, res));
            assert(self.pools_view() == self.core.pool_seq());
        }
    }
}

/// A fresh multi-pool's first round-robin pick is pool 0, and consecutive
/// tickets visit consecutive pools, wrapping after the last.
pub proof fn law_round_robin_rotates(previous: u32, len: nat)
    requires
        len > 0,
        previous < u32::MAX,
    ensures
        round_robin_index(u32::MAX, len) == 0,
        round_robin_index((previous + 1) as u32, len) == (round_robin_index(previous, len) + 1) % (len as int)
            || previous + 1 == u32::MAX,
{
    if previous + 1 < u32::MAX {
        let x = previous + 1;
        if len == 1 {
            assert((x + 1) % 1 == 0);
            assert((x % 1 + 1) % 1 == 0);
        } else {
            vstd::arithmetic::div_mod::lemma_small_mod(1, len);
            vstd::arithmetic::div_mod::lemma_add_mod_noop(x, 1, len as int);
        }
    }
}

} // verus!
