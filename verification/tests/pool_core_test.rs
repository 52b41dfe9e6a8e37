use std::sync::atomic::{AtomicBool, AtomicI64, Ordering};
use std::sync::Arc;

use ants::internal::Worker;
use ants::pool_common::{release_start, require_pool_func};
use ants::{
    timeout_outcome, with_disable_purge, with_expiry_duration, with_max_blocking_tasks,
    with_nonblocking, with_pre_alloc, worker_chan_cap_for, Duration, Error, PoolCore, Retrieval,
    Wake, DEFAULT_ANTS_POOL_SIZE,
};

struct TestWorker {
    last_used: AtomicI64,
    finished: AtomicBool,
}

impl Worker for TestWorker {
    fn finish(&self) {
        self.finished.store(true, Ordering::SeqCst);
    }

    fn last_used_time(&self) -> i64 {
        self.last_used.load(Ordering::SeqCst)
    }

    fn set_last_used_time(&self, time: i64) {
        self.last_used.store(time, Ordering::SeqCst);
    }
}

fn worker() -> Arc<TestWorker> {
    Arc::new(TestWorker {
        last_used: AtomicI64::new(0),
        finished: AtomicBool::new(false),
    })
}

fn spawn(p: &mut PoolCore<TestWorker>) {
    assert!(matches!(p.retrieve_worker(), Ok(Retrieval::Spawn)));
}

#[test]
fn a_new_pool_is_open_and_empty() {
    let p = PoolCore::<TestWorker>::new(10, &[]).unwrap();
    assert_eq!(10, p.cap());
    assert_eq!(0, p.running());
    assert_eq!(10, p.free());
    assert_eq!(0, p.waiting());
    assert!(!p.is_closed());
    assert_eq!(Duration::second(), p.options().expiry_duration);
}

#[test]
fn a_non_positive_size_means_no_limit() {
    let p = PoolCore::<TestWorker>::new(0, &[]).unwrap();
    assert_eq!(-1, p.cap());
    assert_eq!(-1, p.free());
    let p = PoolCore::<TestWorker>::new(-7, &[]).unwrap();
    assert_eq!(-1, p.cap());
    assert_eq!(2147483647, DEFAULT_ANTS_POOL_SIZE);
}

#[test]
fn construction_errors() {
    let e = PoolCore::<TestWorker>::new(10, &[with_expiry_duration(Duration::from_nanos(-1))]);
    assert_eq!(Some(Error::InvalidPoolExpiry), e.err());
    let e = PoolCore::<TestWorker>::new(-1, &[with_pre_alloc(true)]);
    assert_eq!(Some(Error::InvalidPreAllocSize), e.err());
    // A negative expiry is of no concern once purging is off.
    let p = PoolCore::<TestWorker>::new(
        10,
        &[with_expiry_duration(Duration::from_nanos(-1)), with_disable_purge(true)],
    )
    .unwrap();
    assert_eq!(-1, p.options().expiry_duration.as_nanos());
}

#[test]
fn spawning_stops_at_capacity_then_callers_wait() {
    let mut p = PoolCore::<TestWorker>::new(2, &[]).unwrap();
    spawn(&mut p);
    spawn(&mut p);
    assert_eq!(2, p.running());
    assert_eq!(0, p.free());
    assert!(matches!(p.retrieve_worker(), Ok(Retrieval::Wait)));
    assert_eq!(1, p.waiting());
    assert_eq!(Ok(()), p.finish_wait());
    assert_eq!(0, p.waiting());
}

#[test]
fn nonblocking_and_bounded_blocking_overload() {
    let mut p = PoolCore::<TestWorker>::new(1, &[with_nonblocking(true)]).unwrap();
    spawn(&mut p);
    assert_eq!(Some(Error::PoolOverload), p.retrieve_worker().err());

    let mut p = PoolCore::<TestWorker>::new(1, &[with_max_blocking_tasks(1)]).unwrap();
    spawn(&mut p);
    assert!(matches!(p.retrieve_worker(), Ok(Retrieval::Wait)));
    assert_eq!(Some(Error::PoolOverload), p.retrieve_worker().err());
}

#[test]
fn a_returned_worker_is_handed_out_next() {
    let mut p = PoolCore::<TestWorker>::new(2, &[]).unwrap();
    spawn(&mut p);
    let w = worker();
    assert_eq!((true, Wake::One), p.revert_worker(Arc::clone(&w), 42));
    assert_eq!(42, w.last_used_time());
    match p.retrieve_worker() {
        Ok(Retrieval::Idle(got)) => assert!(Arc::ptr_eq(&got, &w)),
        _ => panic!("the idle worker should be handed out"),
    }
}

#[test]
fn a_closed_pool_refuses_returned_workers_and_wakes_waiters() {
    let mut p = PoolCore::<TestWorker>::new(2, &[]).unwrap();
    spawn(&mut p);
    assert_eq!((true, false), p.release());
    assert_eq!((false, Wake::All), p.revert_worker(worker(), 1));
    assert_eq!((false, false), p.release(), "releasing twice changes nothing");
    assert!(p.worker_exit(), "the last worker of a closed pool is done");
}

#[test]
fn release_finishes_idle_workers_and_reboot_reopens() {
    let mut p = PoolCore::<TestWorker>::new(3, &[]).unwrap();
    spawn(&mut p);
    let w = worker();
    p.revert_worker(Arc::clone(&w), 5);
    assert_eq!(1, p.idle_len());
    assert_eq!((true, false), p.release());
    assert!(w.finished.load(Ordering::SeqCst));
    assert_eq!(0, p.idle_len());
    assert!(p.is_closed());
    assert!(p.reboot());
    assert!(!p.is_closed());
    assert!(!p.reboot(), "an open pool is left alone");
    assert_eq!(3, p.cap());
}

#[test]
fn a_waiter_woken_in_a_closed_pool_fails() {
    let mut p = PoolCore::<TestWorker>::new(1, &[]).unwrap();
    spawn(&mut p);
    assert!(matches!(p.retrieve_worker(), Ok(Retrieval::Wait)));
    p.release();
    assert_eq!(Err(Error::PoolClosed), p.finish_wait());
}

#[test]
fn tune_changes_capacity_and_says_whom_to_wake() {
    let mut p = PoolCore::<TestWorker>::new(10, &[]).unwrap();
    assert_eq!(Wake::One, p.tune(11));
    assert_eq!(11, p.cap());
    assert_eq!(Wake::All, p.tune(20));
    assert_eq!(Wake::Nobody, p.tune(5));
    assert_eq!(5, p.cap());
    assert_eq!(Wake::Nobody, p.tune(0));
    assert_eq!(5, p.cap());

    let mut unlimited = PoolCore::<TestWorker>::new(-1, &[]).unwrap();
    assert_eq!(Wake::Nobody, unlimited.tune(10));
    assert_eq!(-1, unlimited.cap());

    let mut pre = PoolCore::<TestWorker>::new(10, &[with_pre_alloc(true)]).unwrap();
    assert_eq!(Wake::Nobody, pre.tune(20));
    assert_eq!(10, pre.cap());
}

#[test]
fn a_shrunk_pool_refuses_surplus_workers() {
    let mut p = PoolCore::<TestWorker>::new(3, &[]).unwrap();
    spawn(&mut p);
    spawn(&mut p);
    spawn(&mut p);
    p.tune(1);
    assert_eq!((false, Wake::All), p.revert_worker(worker(), 1));
    assert!(!p.worker_exit());
    assert_eq!(2, p.running());
}

#[test]
fn purge_removes_workers_idle_longer_than_the_expiry() {
    let mut p = PoolCore::<TestWorker>::new(3, &[with_expiry_duration(Duration::second())]).unwrap();
    spawn(&mut p);
    spawn(&mut p);
    let old = worker();
    let fresh = worker();
    let now = ants::now_unix_nano();
    p.revert_worker(Arc::clone(&old), now - 5_000_000_000);
    p.revert_worker(Arc::clone(&fresh), now + 5_000_000_000);
    assert_eq!(Some(false), p.purge_stale_workers());
    assert!(old.finished.load(Ordering::SeqCst));
    assert!(!fresh.finished.load(Ordering::SeqCst));
    assert_eq!(1, p.idle_len());
    p.release();
    assert_eq!(None, p.purge_stale_workers());
}

#[test]
fn purge_wakes_waiters_of_a_dormant_pool() {
    let mut p = PoolCore::<TestWorker>::new(1, &[with_expiry_duration(Duration::second())]).unwrap();
    spawn(&mut p);
    let w = worker();
    p.revert_worker(Arc::clone(&w), 0);
    match p.retrieve_worker() {
        Ok(Retrieval::Idle(got)) => assert!(Arc::ptr_eq(&got, &w)),
        _ => panic!("the idle worker should be handed out"),
    }
    assert!(matches!(p.retrieve_worker(), Ok(Retrieval::Wait)));
    assert_eq!((true, Wake::One), p.revert_worker(w, 0));
    // Every running worker was idle and expired while a caller waits.
    assert_eq!(Some(true), p.purge_stale_workers());
    assert_eq!(0, p.idle_len());
}

#[test]
fn the_deadline_of_a_release_reads_as_a_timeout() {
    assert_eq!(Err(Error::Timeout), timeout_outcome(Err(Error::DeadlineExceeded)));
    assert_eq!(Err(Error::Canceled), timeout_outcome(Err(Error::Canceled)));
    assert_eq!(Ok(()), timeout_outcome(Ok(())));
}

#[test]
fn worker_channels_block_only_on_a_single_processor() {
    assert_eq!(0, worker_chan_cap_for(1));
    assert_eq!(1, worker_chan_cap_for(8));
}

#[test]
fn a_closed_pool_refuses_callers_before_anything_else() {
    let mut p = PoolCore::<TestWorker>::new(10, &[]).unwrap();
    assert_eq!((true, true), p.release());
    assert!(matches!(p.retrieve_worker(), Err(Error::PoolClosed)));
    assert_eq!(0, p.running());
    assert!(p.reboot());
    assert!(matches!(p.retrieve_worker(), Ok(Retrieval::Spawn)));
}

#[test]
fn a_pool_with_purging_off_never_purges() {
    let mut p = PoolCore::<TestWorker>::new(10, &[with_disable_purge(true)]).unwrap();
    spawn(&mut p);
    assert_eq!((true, Wake::One), p.revert_worker(worker(), 0));
    assert_eq!(None, p.purge_stale_workers());
    assert_eq!(1, p.idle_len());
}

#[test]
fn a_release_with_a_context_starts_only_on_a_running_pool() {
    assert_eq!(Ok(true), release_start(false, false, true, true, true));
    assert_eq!(Ok(false), release_start(false, false, true, true, false));
    assert_eq!(Err(Error::PoolClosed), release_start(true, false, true, true, true));
    assert_eq!(Err(Error::PoolClosed), release_start(false, false, false, true, true));
    assert_eq!(Ok(true), release_start(false, true, false, true, true));
    assert_eq!(Err(Error::PoolClosed), release_start(false, true, true, false, true));
}

#[test]
fn durations_order_by_their_nanoseconds_and_scale() {
    assert!(Duration::from_nanos(-1) < Duration::zero());
    assert!(Duration::second() > Duration::millisecond());
    assert_eq!(Duration::from_millis(100), Duration::millisecond() * 100);
    assert_eq!(Duration::from_secs(3), Duration::second() * 3);
    let w = Duration::millisecond() * 100;
    assert_eq!(Duration::from_millis(150), w + w / 2);
}

#[test]
fn a_pool_running_one_function_needs_that_function() {
    assert_eq!(Ok(7), require_pool_func(Some(7)));
    assert_eq!(Err(Error::LackPoolFunc), require_pool_func(None::<i32>));
}
