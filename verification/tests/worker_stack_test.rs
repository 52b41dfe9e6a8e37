use std::sync::Arc;

use ants::internal::{new_worker_queue, GoWorker, Message, QueueType, WorkerStack};
use ants::{now_unix_nano, Duration};

/// The queues are generic over their worker; these tests park the worker a
/// pool parks.
type Task = Option<Box<dyn FnOnce() + Send + 'static>>;
type TestWorker = GoWorker<Task>;

fn worker(last_used: i64) -> Arc<TestWorker> {
    Arc::new(GoWorker::with_last_used(last_used))
}

/// Lets `d` of wall-clock time pass.
fn pause(d: Duration) {
    let end = now_unix_nano() + d.as_nanos();
    while now_unix_nano() < end {
        std::hint::spin_loop();
    }
}

#[test]
fn test_new_worker_stack() {
    let size = 100;
    let mut q = WorkerStack::<TestWorker>::new(size);
    assert_eq!(0, q.len(), "Len error");
    assert!(q.is_empty(), "IsEmpty error");
    assert!(q.detach().is_none(), "Dequeue error");
}

#[test]
fn test_worker_stack() {
    let mut q = new_worker_queue::<TestWorker>(QueueType(-1), 0);

    for _ in 0..5 {
        if q.insert(worker(now_unix_nano())).is_err() {
            break;
        }
    }
    assert_eq!(5, q.len(), "Len error");

    let expired = now_unix_nano();

    assert!(q.insert(worker(expired)).is_ok(), "Enqueue error");

    pause(Duration::second());

    for _ in 0..6 {
        assert!(q.insert(worker(now_unix_nano())).is_ok(), "Enqueue error");
    }
    assert_eq!(12, q.len(), "Len error");
    q.refresh(Duration::second());
    assert_eq!(6, q.len(), "Len error");
}

#[test]
fn test_search() {
    let mut q = WorkerStack::<TestWorker>::new(0);

    let mut curr_time = now_unix_nano();

    // 1
    let expiry1 = curr_time;
    curr_time += 1;
    let _ = q.insert(worker(curr_time));

    let last = |q: &WorkerStack<TestWorker>| q.len() as i32 - 1;

    assert_eq!(0, q.binary_search(0, last(&q), curr_time), "index should be 0");
    assert_eq!(-1, q.binary_search(0, last(&q), expiry1), "index should be -1");

    // 2
    curr_time += 1;
    let expiry2 = curr_time;
    curr_time += 1;
    let _ = q.insert(worker(curr_time));

    assert_eq!(-1, q.binary_search(0, last(&q), expiry1), "index should be -1");

    assert_eq!(0, q.binary_search(0, last(&q), expiry2), "index should be 0");

    assert_eq!(1, q.binary_search(0, last(&q), curr_time), "index should be 1");

    // more
    for _ in 0..5 {
        curr_time += 1;
        let _ = q.insert(worker(curr_time));
    }

    curr_time += 1;
    let expiry3 = curr_time;

    let _ = q.insert(worker(expiry3));

    for _ in 0..10 {
        curr_time += 1;
        let _ = q.insert(worker(curr_time));
    }

    assert_eq!(7, q.binary_search(0, last(&q), expiry3), "index should be 7");
}

#[test]
fn stack_hands_back_the_newest_worker() {
    let mut q = WorkerStack::<TestWorker>::new(4);
    let a = worker(10);
    let b = worker(20);
    q.insert(Arc::clone(&a)).unwrap();
    q.insert(Arc::clone(&b)).unwrap();
    let got = q.detach().unwrap();
    assert!(Arc::ptr_eq(&got, &b));
    let got = q.detach().unwrap();
    assert!(Arc::ptr_eq(&got, &a));
    assert!(q.detach().is_none());
}

#[test]
fn stack_refresh_removes_the_expired_prefix_in_order() {
    let mut q = WorkerStack::<TestWorker>::new(0);
    let ws: Vec<_> = [10, 20, 30, 40].iter().map(|t| worker(*t)).collect();
    for w in &ws {
        q.insert(Arc::clone(w)).unwrap();
    }
    let expired = q.refresh_before(25);
    assert_eq!(2, expired.len());
    assert!(Arc::ptr_eq(&expired[0], &ws[0]));
    assert!(Arc::ptr_eq(&expired[1], &ws[1]));
    assert_eq!(2, q.len());
    assert!(Arc::ptr_eq(&q.items()[0], &ws[2]));
    // Nothing older than the oldest stamp: nothing leaves.
    assert!(q.refresh_before(5).is_empty());
    assert_eq!(2, q.len());
}

#[test]
fn stack_binary_search_on_an_empty_range_gives_back_r() {
    let q = WorkerStack::<TestWorker>::new(0);
    assert_eq!(-1, q.binary_search(0, -1, 100));
}

#[test]
fn stack_reset_finishes_every_worker() {
    let mut q = WorkerStack::<TestWorker>::new(0);
    let a = worker(1);
    let b = worker(2);
    q.insert(Arc::clone(&a)).unwrap();
    q.insert(Arc::clone(&b)).unwrap();
    q.reset();
    assert!(q.is_empty());
    assert!(matches!(a.receive(), Some(Message::Finish)));
    assert!(matches!(b.receive(), Some(Message::Finish)));
}

#[test]
fn stack_binary_search_reports_minus_one_when_nothing_in_range_expired() {
    let mut q = WorkerStack::<TestWorker>::new(0);
    q.insert(worker(5)).unwrap();
    q.insert(worker(10)).unwrap();
    assert_eq!(-1, q.binary_search(1, 1, 6));
    assert_eq!(1, q.binary_search(1, 1, 10));
    assert_eq!(0, q.binary_search(0, 1, 6));
    assert_eq!(-1, q.binary_search(0, 1, 4));
}

#[test]
fn stack_refresh_cuts_where_the_stamps_pass_the_cutoff_even_out_of_order() {
    let mut q = WorkerStack::<TestWorker>::new(0);
    let ws: Vec<_> = [5, 0, 9].iter().map(|t| worker(*t)).collect();
    for w in &ws {
        q.insert(Arc::clone(w)).unwrap();
    }
    // The search lands between the stamp 0 and the stamp 9.
    let expired = q.refresh_before(1);
    assert_eq!(2, expired.len());
    assert!(Arc::ptr_eq(&expired[0], &ws[0]));
    assert!(Arc::ptr_eq(&expired[1], &ws[1]));
    assert_eq!(1, q.len());
    assert!(Arc::ptr_eq(&q.items()[0], &ws[2]));
}
