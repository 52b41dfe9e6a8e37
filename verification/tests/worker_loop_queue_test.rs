use std::sync::Arc;

use ants::internal::{GoWorker, LoopQueue, Message, Worker};
use ants::{now_unix_nano, Duration, Error};

/// The queues are generic over their worker; these tests park the worker a
/// pool parks.
type Task = Option<Box<dyn FnOnce() + Send + 'static>>;
type TestWorker = GoWorker<Task>;

fn worker(last_used: i64) -> Arc<TestWorker> {
    Arc::new(GoWorker::with_last_used(last_used))
}

/// Lets `d` of wall-clock time pass.
fn pause(d: Duration) {
    let end = now_unix_nano() + d.as_nanos();
    while now_unix_nano() < end {
        std::hint::spin_loop();
    }
}

fn slots(q: &LoopQueue<TestWorker>, range: std::ops::Range<usize>) -> Vec<Arc<TestWorker>> {
    q.items()[range].iter().flatten().cloned().collect()
}

fn assert_same_workers(got: &[Arc<TestWorker>], want: &[Arc<TestWorker>], message: &str) {
    assert_eq!(want.len(), got.len(), "{message}");
    for (g, w) in got.iter().zip(want) {
        assert!(Arc::ptr_eq(g, w), "{message}");
    }
}

#[test]
fn test_new_loop_queue() {
    let size = 100;
    let mut q = LoopQueue::<TestWorker>::new(size).expect("a positive size yields a queue");
    assert_eq!(0, q.len(), "Len error");
    assert!(q.is_empty(), "IsEmpty error");
    assert!(q.detach().is_none(), "Dequeue error");

    assert!(LoopQueue::<TestWorker>::new(0).is_none());
}

#[test]
fn test_loop_queue() {
    let size = 10;
    let mut q = LoopQueue::<TestWorker>::new(size).expect("a positive size yields a queue");

    for _ in 0..5 {
        if q.insert(worker(now_unix_nano())).is_err() {
            break;
        }
    }
    assert_eq!(5, q.len(), "Len error");
    let _ = q.detach();
    assert_eq!(4, q.len(), "Len error");

    pause(Duration::second());

    for _ in 0..6 {
        if q.insert(worker(now_unix_nano())).is_err() {
            break;
        }
    }
    assert_eq!(10, q.len(), "Len error");

    let err = q.insert(worker(now_unix_nano()));
    assert_eq!(Err(Error::QueueIsFull), err, "Enqueue, error");

    q.refresh(Duration::second());
    assert_eq!(6, q.len(), "Len error: {}", q.len());
}

#[test]
fn test_rotated_queue_search() {
    let size = 10;
    let mut q = LoopQueue::<TestWorker>::new(size).expect("a positive size yields a queue");

    let mut curr_time = now_unix_nano();

    // 1
    let expiry1 = curr_time;
    curr_time += 1;
    let _ = q.insert(worker(curr_time));

    assert_eq!(0, q.binary_search(curr_time), "index should be 0");
    assert_eq!(-1, q.binary_search(expiry1), "index should be -1");

    // 2
    curr_time += 1;
    let expiry2 = curr_time;
    curr_time += 1;
    let _ = q.insert(worker(curr_time));

    assert_eq!(-1, q.binary_search(expiry1), "index should be -1");

    assert_eq!(0, q.binary_search(expiry2), "index should be 0");

    assert_eq!(1, q.binary_search(curr_time), "index should be 1");

    // more
    for _ in 0..5 {
        curr_time += 1;
        let _ = q.insert(worker(curr_time));
    }

    curr_time += 1;
    let expiry3 = curr_time;
    let _ = q.insert(worker(expiry3));

    let mut err = Ok(());
    while err != Err(Error::QueueIsFull) {
        curr_time += 1;
        err = q.insert(worker(curr_time));
    }

    assert_eq!(7, q.binary_search(expiry3), "index should be 7");

    // rotate
    for _ in 0..6 {
        let _ = q.detach();
    }

    curr_time += 1;
    let expiry4 = curr_time;
    let _ = q.insert(worker(expiry4));

    for _ in 0..4 {
        curr_time += 1;
        let _ = q.insert(worker(curr_time));
    }
    //	head = 6, tail = 5, insert direction ->
    // [expiry4, time, time, time,  time, nil/tail,  time/head, time, time, time]
    assert_eq!(0, q.binary_search(expiry4), "index should be 0");

    for _ in 0..3 {
        let _ = q.detach();
    }
    curr_time += 1;
    let expiry5 = curr_time;
    let _ = q.insert(worker(expiry5));

    //	head = 6, tail = 5, insert direction ->
    // [expiry4, time, time, time,  time, expiry5,  nil/tail, nil, nil, time/head]
    assert_eq!(5, q.binary_search(expiry5), "index should be 5");

    for _ in 0..3 {
        curr_time += 1;
        let _ = q.insert(worker(curr_time));
    }
    //	head = 9, tail = 9, insert direction ->
    // [expiry4, time, time, time,  time, expiry5,  time, time, time, time/head/tail]
    assert_eq!(-1, q.binary_search(expiry2), "index should be -1");

    assert_eq!(
        9,
        q.binary_search(q.items()[9].as_ref().unwrap().last_used_time()),
        "index should be 9"
    );
    assert_eq!(8, q.binary_search(curr_time), "index should be 8");
}

#[test]
fn test_retrieve_expiry() {
    let size = 10usize;
    let mut q = LoopQueue::<TestWorker>::new(size as i32).expect("a positive size yields a queue");
    let mut expirew: Vec<Arc<TestWorker>> = Vec::new();
    let u = Duration::second();

    // test [ time+1s, time+1s, time+1s, time+1s, time+1s, time, time, time, time, time]
    for _ in 0..size / 2 {
        let _ = q.insert(worker(now_unix_nano()));
    }
    expirew.extend(slots(&q, 0..size / 2));
    pause(u);

    for _ in 0..size / 2 {
        let _ = q.insert(worker(now_unix_nano()));
    }
    let workers = q.refresh(u);

    assert_same_workers(&workers, &expirew, "expired workers aren't right");

    // test [ time, time, time, time, time, time+1s, time+1s, time+1s, time+1s, time+1s]
    pause(u);

    for _ in 0..size / 2 {
        let _ = q.insert(worker(now_unix_nano()));
    }
    expirew.clear();
    expirew.extend(slots(&q, size / 2..size));

    let workers2 = q.refresh(u);

    assert_same_workers(&workers2, &expirew, "expired workers aren't right");

    // test [ time+1s, time+1s, time+1s, nil, nil, time+1s, time+1s, time+1s, time+1s, time+1s]
    for _ in 0..size / 2 {
        let _ = q.insert(worker(now_unix_nano()));
    }
    for _ in 0..size / 2 {
        let _ = q.detach();
    }
    for _ in 0..3 {
        let _ = q.insert(worker(now_unix_nano()));
    }
    pause(u);

    expirew.clear();
    expirew.extend(slots(&q, 0..3));
    expirew.extend(slots(&q, size / 2..size));

    let workers3 = q.refresh(u);

    assert_same_workers(&workers3, &expirew, "expired workers aren't right");
}

#[test]
fn ring_hands_workers_back_in_arrival_order() {
    let mut q = LoopQueue::<TestWorker>::new(3).unwrap();
    let ws: Vec<_> = (0..3).map(|t| worker(t)).collect();
    for w in &ws {
        q.insert(Arc::clone(w)).unwrap();
    }
    assert_eq!(Err(Error::QueueIsFull), q.insert(worker(9)));
    for w in &ws {
        assert!(Arc::ptr_eq(&q.detach().unwrap(), w));
    }
    assert!(q.detach().is_none());
}

#[test]
fn ring_refresh_of_a_wrapped_run_hands_back_the_front_of_the_storage_first() {
    let mut q = LoopQueue::<TestWorker>::new(4).unwrap();
    // Fill, drain two, then add two more so the oldest sit at the end of the
    // storage and the newer ones wrap to its start.
    for t in 0..4 {
        q.insert(worker(t)).unwrap();
    }
    q.detach();
    q.detach();
    let c = worker(10);
    let d = worker(11);
    q.insert(Arc::clone(&c)).unwrap();
    q.insert(Arc::clone(&d)).unwrap();
    let oldest = slots(&q, 2..4);
    let expired = q.refresh_before(10);
    assert_eq!(3, expired.len());
    assert!(Arc::ptr_eq(&expired[0], &c));
    assert!(Arc::ptr_eq(&expired[1], &oldest[0]));
    assert!(Arc::ptr_eq(&expired[2], &oldest[1]));
    assert_eq!(1, q.len());
    assert!(Arc::ptr_eq(&q.detach().unwrap(), &d));
}

#[test]
fn ring_reset_finishes_every_worker_and_keeps_its_capacity() {
    let mut q = LoopQueue::<TestWorker>::new(2).unwrap();
    let a = worker(1);
    q.insert(Arc::clone(&a)).unwrap();
    q.reset();
    assert!(q.is_empty());
    assert!(matches!(a.receive(), Some(Message::Finish)));
    q.insert(worker(2)).unwrap();
    q.insert(worker(3)).unwrap();
    assert_eq!(Err(Error::QueueIsFull), q.insert(worker(4)));
}

#[test]
fn a_rotated_ring_search_gives_storage_slots() {
    let mut q = LoopQueue::<TestWorker>::new(4).unwrap();
    for t in 1..=4 {
        q.insert(worker(t)).unwrap();
    }
    q.detach().unwrap();
    q.detach().unwrap();
    q.insert(worker(5)).unwrap();
    q.insert(worker(6)).unwrap();
    assert_eq!(-1, q.binary_search(2));
    assert_eq!(2, q.binary_search(3));
    assert_eq!(3, q.binary_search(4));
    assert_eq!(0, q.binary_search(5));
    assert_eq!(1, q.binary_search(100));
}

#[test]
fn a_new_ring_has_every_slot_empty() {
    let q = LoopQueue::<TestWorker>::new(100).unwrap();
    assert_eq!(100, q.items().len());
    assert!(q.items().iter().all(|slot| slot.is_none()));
}

#[test]
fn ring_refresh_cuts_where_the_stamps_pass_the_cutoff_even_out_of_order() {
    let mut q = LoopQueue::<TestWorker>::new(4).unwrap();
    let ws: Vec<_> = [0, 5, 0, 9].iter().map(|t| worker(*t)).collect();
    for w in &ws {
        q.insert(Arc::clone(w)).unwrap();
    }
    let expired = q.refresh_before(1);
    assert_eq!(1, expired.len());
    assert!(Arc::ptr_eq(&expired[0], &ws[0]));
    assert_eq!(3, q.len());
    // An oldest worker younger than the cutoff stops the search at once.
    let mut q = LoopQueue::<TestWorker>::new(3).unwrap();
    for t in [5, 0, 9] {
        q.insert(worker(t)).unwrap();
    }
    assert!(q.refresh_before(1).is_empty());
    assert_eq!(3, q.len());
}

#[test]
fn a_ring_takes_exactly_its_capacity() {
    for size in 1..6 {
        let mut q = LoopQueue::<TestWorker>::new(size).unwrap();
        for i in 0..size + 3 {
            let r = q.insert(worker(i as i64));
            if i < size {
                assert_eq!(Ok(()), r);
            } else {
                assert_eq!(Err(Error::QueueIsFull), r);
            }
        }
        assert_eq!(size as usize, q.len());
    }
}
