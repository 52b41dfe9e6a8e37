use ants::internal::{GoWorker, Message, Worker};
use ants::pool_common::{release_step, ReleaseStep};
use ants::worker::panic_report;
use ants::Error;

#[test]
fn a_worker_receives_what_it_is_sent_in_order() {
    let w: GoWorker<i32> = GoWorker::new(2);
    w.input(7);
    w.finish();
    assert!(matches!(w.receive(), Some(Message::Payload(7))));
    assert!(matches!(w.receive(), Some(Message::Finish)));
}

#[test]
fn a_fresh_worker_carries_its_stamp() {
    let w: GoWorker<()> = GoWorker::with_last_used(42);
    assert_eq!(42, w.last_used_time());
    w.set_last_used_time(-5);
    assert_eq!(-5, w.last_used_time());
    let fresh: GoWorker<()> = GoWorker::new(0);
    assert_eq!(0, fresh.last_used_time());
}

#[test]
fn a_panic_without_handler_is_logged_with_its_backtrace() {
    assert_eq!(
        "worker exits from panic: boom\nframe 0\nframe 1\n",
        panic_report("boom", "frame 0\nframe 1")
    );
    assert_eq!("worker exits from panic: \n\n", panic_report("", ""));
}

#[test]
fn a_settled_pool_ends_the_wait_with_success() {
    assert!(matches!(
        release_step(true, 0, false, true, true, None),
        ReleaseStep::Finish(Ok(()))
    ));
    // Success wins over a context that is done at the same moment.
    assert!(matches!(
        release_step(true, 0, true, false, true, Some(Error::DeadlineExceeded)),
        ReleaseStep::Finish(Ok(()))
    ));
}

#[test]
fn a_done_context_ends_the_wait_with_its_error() {
    assert!(matches!(
        release_step(false, 3, false, false, false, Some(Error::Canceled)),
        ReleaseStep::Finish(Err(Error::Canceled))
    ));
    assert!(matches!(
        release_step(true, 0, false, false, true, Some(Error::DeadlineExceeded)),
        ReleaseStep::Finish(Err(Error::DeadlineExceeded))
    ));
}

#[test]
fn an_unsettled_pool_keeps_the_caller_waiting() {
    assert!(matches!(
        release_step(false, 2, false, true, true, None),
        ReleaseStep::WaitWorkers
    ));
    // The workers are done, but the scavenger has not stopped yet.
    assert!(matches!(
        release_step(true, 0, false, false, true, None),
        ReleaseStep::Yield
    ));
    // Purging is off, so only the clock matters.
    assert!(matches!(
        release_step(true, 0, true, false, false, None),
        ReleaseStep::Yield
    ));
}
