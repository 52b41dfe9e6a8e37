use std::cell::Cell;

use ants::multipool::{
    check_multi_pool, check_pool_index, join_release_errors, least_tasks_pick, round_robin_pick,
    sum_readings,
};
use ants::{Context, Duration, Error, LoadBalancingStrategy, MultiPool, MultiPoolWithFunc, Opt, Poolish};

#[test]
fn multi_pool_shape_is_checked() {
    let rr = LoadBalancingStrategy::round_robin();
    assert_eq!(Err(Error::InvalidMultiPoolSize), check_multi_pool(0, rr));
    assert_eq!(
        Err(Error::InvalidLoadBalancingStrategy),
        check_multi_pool(3, LoadBalancingStrategy(3))
    );
    assert_eq!(Ok(()), check_multi_pool(3, LoadBalancingStrategy::least_tasks()));
    assert_eq!(2, rr.0);
    assert_eq!(4, LoadBalancingStrategy::least_tasks().0);
}

#[test]
fn round_robin_rotates_from_the_first_pool() {
    assert_eq!(0, round_robin_pick(u32::MAX, 3));
    assert_eq!(1, round_robin_pick(0, 3));
    assert_eq!(2, round_robin_pick(1, 3));
    assert_eq!(0, round_robin_pick(2, 3));
}

#[test]
fn least_tasks_picks_the_first_smallest() {
    assert_eq!(1, least_tasks_pick(&[5, 2, 7, 2]));
    assert_eq!(0, least_tasks_pick(&[i32::MAX, i32::MAX]));
    assert_eq!(2, least_tasks_pick(&[3, 3, -1]));
}

#[test]
fn readings_add_up_with_wrap_around() {
    assert_eq!(6, sum_readings(&[1, 2, 3]));
    assert_eq!(-3, sum_readings(&[-1, -1, -1]));
    assert_eq!(i32::MIN, sum_readings(&[i32::MAX, 1]));
}

#[test]
fn pool_indices_are_checked() {
    assert_eq!(Err(Error::InvalidPoolIndex), check_pool_index(-1, 3));
    assert_eq!(Err(Error::InvalidPoolIndex), check_pool_index(3, 3));
    assert_eq!(Ok(2), check_pool_index(2, 3));
}

#[test]
fn release_failures_are_reported_in_pool_order() {
    assert_eq!(Ok(()), join_release_errors(&[Ok(()), Ok(())]));
    let r = join_release_errors(&[
        Err(Error::Canceled),
        Ok(()),
        Ok(()),
        Err(Error::Timeout),
    ]);
    assert_eq!(
        Err(Error::Pools(
            "pool 0: context canceled | pool 3: operation timed out".to_owned()
        )),
        r
    );
    let r = join_release_errors(&[Ok(()), Err(Error::DeadlineExceeded)]);
    assert_eq!(
        Err(Error::Pools("pool 1: context deadline exceeded".to_owned())),
        r
    );
}

/// A pool that counts what is asked of it and refuses when full.
struct FakePool {
    running: Cell<i32>,
    cap: i32,
    released: Cell<bool>,
}

impl FakePool {
    fn open(size: i32) -> FakePool {
        FakePool {
            running: Cell::new(0),
            cap: size,
            released: Cell::new(false),
        }
    }

    fn take(&self, argument: i32) -> Result<(), (Error, i32)> {
        if self.released.get() {
            return Err((Error::PoolClosed, argument));
        }
        if self.running.get() >= self.cap {
            return Err((Error::PoolOverload, argument));
        }
        self.running.set(self.running.get() + 1);
        Ok(())
    }

    /// Closing succeeds only when nothing is running.
    fn close(&self) -> Result<(), Error> {
        self.released.set(true);
        if self.running.get() > 0 {
            return Err(Error::DeadlineExceeded);
        }
        Ok(())
    }
}

/// A function pool: building it can be made to fail.
impl Poolish for FakePool {
    type Arg = i32;
    type Extra = bool;

    fn build(size: i32, refuse: &bool, _options: &[Opt]) -> Result<FakePool, Error> {
        if *refuse {
            return Err(Error::InvalidPreAllocSize);
        }
        Ok(FakePool::open(size))
    }

    fn deliver(&self, argument: i32) -> Result<(), (Error, i32)> {
        self.take(argument)
    }

    fn running(&self) -> i32 {
        self.running.get()
    }

    fn free(&self) -> i32 {
        self.cap - self.running.get()
    }

    fn waiting(&self) -> i32 {
        0
    }

    fn cap(&self) -> i32 {
        self.cap
    }

    fn tune(&self, _size: i32) {}

    fn release(&self) {
        self.released.set(true);
    }

    fn release_all(pools: &[FakePool], _ctx: Option<&Context>) -> Vec<Result<(), Error>> {
        pools.iter().map(FakePool::close).collect()
    }

    fn reboot(&self) {
        self.released.set(false);
    }
}

/// A task pool over the same bookkeeping.
struct FakeTaskPool(FakePool);

impl Poolish for FakeTaskPool {
    type Arg = i32;
    type Extra = ();

    fn build(size: i32, _extra: &(), _options: &[Opt]) -> Result<FakeTaskPool, Error> {
        Ok(FakeTaskPool(FakePool::open(size)))
    }

    fn deliver(&self, argument: i32) -> Result<(), (Error, i32)> {
        self.0.take(argument)
    }

    fn running(&self) -> i32 {
        self.0.running.get()
    }

    fn free(&self) -> i32 {
        self.0.cap - self.0.running.get()
    }

    fn waiting(&self) -> i32 {
        0
    }

    fn cap(&self) -> i32 {
        self.0.cap
    }

    fn tune(&self, _size: i32) {}

    fn release(&self) {
        self.0.released.set(true);
    }

    fn release_all(pools: &[FakeTaskPool], _ctx: Option<&Context>) -> Vec<Result<(), Error>> {
        pools.iter().map(|pool| pool.0.close()).collect()
    }

    fn reboot(&self) {
        self.0.released.set(false);
    }
}

#[test]
fn a_multi_pool_rotates_and_retries_overloaded_tasks() {
    let m = MultiPool::<FakeTaskPool>::new(2, 1, LoadBalancingStrategy::round_robin(), &[])
        .unwrap();
    assert_eq!(2, m.cap());
    assert_eq!(Ok(()), m.submit(1));
    assert_eq!(Ok(1), m.running_by_index(0));
    assert_eq!(Ok(()), m.submit(2));
    assert_eq!(Ok(1), m.running_by_index(1));
    assert_eq!(Err(Error::PoolOverload), m.submit(3));
    assert_eq!(2, m.running());
    assert_eq!(0, m.free());
    assert_eq!(Err(Error::InvalidPoolIndex), m.free_by_index(2));
    assert_eq!(Err(Error::InvalidPoolIndex), m.running_by_index(-1));
    assert_eq!(Ok(0), m.waiting_by_index(1));
    assert_eq!(0, m.waiting());

    assert_eq!(
        Err(Error::Pools(
            "pool 0: context deadline exceeded | pool 1: context deadline exceeded".to_owned()
        )),
        m.release_context(None)
    );
    assert!(m.is_closed());
    assert_eq!(Err(Error::PoolClosed), m.release_context(None));
    assert_eq!(Err(Error::PoolClosed), m.submit(4));
    m.reboot();
    assert!(!m.is_closed());
}

#[test]
fn releasing_an_idle_multi_pool_succeeds_once() {
    let m = MultiPool::<FakeTaskPool>::new(3, 4, LoadBalancingStrategy::least_tasks(), &[])
        .unwrap();
    assert_eq!(12, m.cap());
    assert_eq!(Ok(()), m.release_timeout(Duration::second()));
    assert!(m.is_closed());
    assert_eq!(Err(Error::PoolClosed), m.release_timeout(Duration::second()));
}

#[test]
fn an_overloaded_round_robin_pick_falls_back_to_the_least_busy_pool() {
    let m = MultiPool::<FakeTaskPool>::new(2, 2, LoadBalancingStrategy::round_robin(), &[])
        .unwrap();
    assert_eq!(Ok(()), m.submit(1)); // pool 0
    assert_eq!(Ok(()), m.submit(2)); // pool 1
    assert_eq!(Ok(()), m.submit(3)); // pool 0
    assert_eq!(Ok(()), m.submit(4)); // pool 1
    assert_eq!(Err(Error::PoolOverload), m.submit(5));
}

#[test]
fn a_multi_pool_that_fails_to_build_reports_why() {
    let r = MultiPoolWithFunc::<FakePool>::new(2, 1, true, LoadBalancingStrategy::least_tasks(), &[]);
    assert_eq!(Some(Error::InvalidPreAllocSize), r.err());
    let r = MultiPoolWithFunc::<FakePool>::new(0, 1, false, LoadBalancingStrategy::least_tasks(), &[]);
    assert_eq!(Some(Error::InvalidMultiPoolSize), r.err());
    let r = MultiPoolWithFunc::<FakePool>::new(2, 1, false, LoadBalancingStrategy(7), &[]);
    assert_eq!(Some(Error::InvalidLoadBalancingStrategy), r.err());
}

#[test]
fn least_tasks_dispatch_fills_the_idlest_pool() {
    let m = MultiPoolWithFunc::<FakePool>::new(3, 5, false, LoadBalancingStrategy::least_tasks(), &[])
        .unwrap();
    for i in 0..6 {
        assert_eq!(Ok(()), m.invoke(i));
    }
    assert_eq!(Ok(2), m.running_by_index(0));
    assert_eq!(Ok(2), m.running_by_index(1));
    assert_eq!(Ok(2), m.running_by_index(2));
    assert_eq!(Ok(3), m.free_by_index(2));
    assert_eq!(6, m.running());
}

/// A worker that records nothing but its stamp.
struct IdleWorker(std::sync::atomic::AtomicI64);

impl ants::internal::Worker for IdleWorker {
    fn finish(&self) {}

    fn last_used_time(&self) -> i64 {
        self.0.load(std::sync::atomic::Ordering::SeqCst)
    }

    fn set_last_used_time(&self, time: i64) {
        self.0.store(time, std::sync::atomic::Ordering::SeqCst);
    }
}

/// A pool run by the library's bookkeeping, whose workers run until it is
/// released and then exit at once.
struct BookkeptPool(std::cell::RefCell<ants::PoolCore<IdleWorker>>);

impl Poolish for BookkeptPool {
    type Arg = i32;
    type Extra = ();

    fn build(size: i32, _extra: &(), options: &[Opt]) -> Result<BookkeptPool, Error> {
        Ok(BookkeptPool(std::cell::RefCell::new(ants::PoolCore::new(size, options)?)))
    }

    fn deliver(&self, argument: i32) -> Result<(), (Error, i32)> {
        let mut core = self.0.borrow_mut();
        if core.is_closed() {
            return Err((Error::PoolClosed, argument));
        }
        match core.retrieve_worker() {
            Ok(ants::Retrieval::Spawn) | Ok(ants::Retrieval::Idle(_)) => Ok(()),
            Ok(ants::Retrieval::Wait) => {
                let _ = core.finish_wait();
                Err((Error::PoolOverload, argument))
            }
            Err(e) => Err((e, argument)),
        }
    }

    fn running(&self) -> i32 {
        self.0.borrow().running()
    }

    fn free(&self) -> i32 {
        self.0.borrow().free()
    }

    fn waiting(&self) -> i32 {
        self.0.borrow().waiting()
    }

    fn cap(&self) -> i32 {
        self.0.borrow().cap()
    }

    fn tune(&self, size: i32) {
        self.0.borrow_mut().tune(size);
    }

    fn release(&self) {
        self.0.borrow_mut().release();
    }

    fn release_all(pools: &[BookkeptPool], _ctx: Option<&Context>) -> Vec<Result<(), Error>> {
        pools
            .iter()
            .map(|pool| {
                let mut core = pool.0.borrow_mut();
                core.release();
                while core.running() > 0 {
                    core.worker_exit();
                }
                Ok(())
            })
            .collect()
    }

    fn reboot(&self) {
        self.0.borrow_mut().reboot();
    }
}

#[test]
fn a_multi_pool_of_bookkept_pools_serves_fifty_tasks_then_closes() {
    let r = MultiPool::<BookkeptPool>::new(-1, 10, LoadBalancingStrategy(8), &[]);
    assert_eq!(Some(Error::InvalidMultiPoolSize), r.err());
    let r = MultiPool::<BookkeptPool>::new(10, -1, LoadBalancingStrategy(8), &[]);
    assert_eq!(Some(Error::InvalidLoadBalancingStrategy), r.err());
    let r = MultiPool::<BookkeptPool>::new(
        10,
        10,
        LoadBalancingStrategy::round_robin(),
        &[ants::with_expiry_duration(Duration::from_nanos(-1))],
    );
    assert_eq!(Some(Error::InvalidPoolExpiry), r.err());

    for lbs in [LoadBalancingStrategy::round_robin(), LoadBalancingStrategy::least_tasks()] {
        let mp = MultiPool::<BookkeptPool>::new(10, 5, lbs, &[]).unwrap();
        for round in 0..2 {
            for _ in 0..50 {
                assert_eq!(Ok(()), mp.submit(round));
            }
            assert_eq!(0, mp.waiting());
            assert_eq!(Err(Error::InvalidPoolIndex), mp.waiting_by_index(-1));
            assert_eq!(Err(Error::InvalidPoolIndex), mp.waiting_by_index(11));
            assert_eq!(50, mp.running());
            assert_eq!(Err(Error::InvalidPoolIndex), mp.running_by_index(-1));
            assert_eq!(Err(Error::InvalidPoolIndex), mp.running_by_index(11));
            assert_eq!(0, mp.free());
            assert_eq!(Err(Error::InvalidPoolIndex), mp.free_by_index(-1));
            assert_eq!(Err(Error::InvalidPoolIndex), mp.free_by_index(11));
            assert_eq!(50, mp.cap());
            assert!(!mp.is_closed());
            for i in 0..10 {
                assert_eq!(Ok(0), mp.waiting_by_index(i));
                assert_eq!(Ok(5), mp.running_by_index(i));
                assert_eq!(Ok(0), mp.free_by_index(i));
            }
            assert_eq!(Ok(()), mp.release_timeout(Duration::second() * 3));
            assert_eq!(Err(Error::PoolClosed), mp.release_timeout(Duration::second() * 3));
            assert_eq!(Err(Error::PoolClosed), mp.submit(0));
            assert_eq!(0, mp.running());
            assert!(mp.is_closed());
            mp.reboot();
        }
    }
}
