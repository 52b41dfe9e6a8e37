use ants::deps::cond::Waiters;
use ants::deps::context::{context_error, Context};
use ants::pkg::sync::next_backoff;
use ants::deps::golog::{ClockFields, LDATE, LMICROSECONDS, LMSGPREFIX, LSTD_FLAGS, LTIME, LUTC};
use ants::{now_unix_nano, Duration, Error, Logger, StdLogger, Target};

/// Lets `d` of wall-clock time pass.
fn pause(d: Duration) {
    let end = now_unix_nano() + d.as_nanos();
    while now_unix_nano() < end {
        std::hint::spin_loop();
    }
}

#[test]
fn test_error_messages() {
    assert_eq!("must provide function for pool", Error::LackPoolFunc.message());
    assert_eq!("invalid expiry for pool", Error::InvalidPoolExpiry.message());
    assert_eq!("this pool has been closed", Error::PoolClosed.message());
    assert_eq!(
        "too many goroutines blocked on submit or Nonblocking is set",
        Error::PoolOverload.message()
    );
    assert_eq!(
        "can not set up a negative capacity under PreAlloc mode",
        Error::InvalidPreAllocSize.message()
    );
    assert_eq!("operation timed out", Error::Timeout.message());
    assert_eq!("invalid pool index", Error::InvalidPoolIndex.message());
    assert_eq!(
        "invalid load-balancing strategy",
        Error::InvalidLoadBalancingStrategy.message()
    );
    assert_eq!(
        "invalid size for multiple pool",
        Error::InvalidMultiPoolSize.message()
    );
    assert_eq!("the queue is full", Error::QueueIsFull.message());
    assert_eq!("context canceled", Error::Canceled.message());
    assert_eq!("context deadline exceeded", Error::DeadlineExceeded.message());
    assert_eq!(
        "pool 0: context canceled | pool 3: operation timed out",
        Error::Pools("pool 0: context canceled | pool 3: operation timed out".to_owned()).message()
    );
}

#[test]
fn test_default_logger_line_format() {
    let logger = StdLogger::new(
        Target::Stderr,
        "[ants]: ",
        LSTD_FLAGS | LMSGPREFIX | LMICROSECONDS,
    );
    let line = logger.format("worker exits from panic: Oops!");

    let tail = "[ants]: worker exits from panic: Oops!\n";
    assert!(line.ends_with(tail), "unexpected line: {line:?}");

    // "2026/09/09 14:03:11.482913 " — date, time with microseconds, one space.
    let head = &line[..line.len() - tail.len()];
    assert_eq!(27, head.len(), "unexpected header: {head:?}");
    assert!(
        head[..4].bytes().all(|b| b.is_ascii_digit()),
        "year: {head:?}"
    );
    assert_eq!("/", &head[4..5]);
    assert_eq!("/", &head[7..8]);
    assert_eq!(" ", &head[10..11]);
    assert_eq!(":", &head[13..14]);
    assert_eq!(":", &head[16..17]);
    assert_eq!(".", &head[19..20]);
    assert!(
        head[20..26].bytes().all(|b| b.is_ascii_digit()),
        "microseconds: {head:?}"
    );
    assert_eq!(" ", &head[26..27]);
}

#[test]
fn test_logger_header_flags() {
    // No flags at all: the prefix leads, and nothing else is added.
    assert_eq!(
        "P: hello\n",
        StdLogger::new(Target::Stderr, "P: ", 0).format("hello")
    );

    // Lmsgprefix moves the prefix in front of the message, which with no
    // date or time is the same place.
    assert_eq!(
        "P: hello\n",
        StdLogger::new(Target::Stderr, "P: ", LMSGPREFIX).format("hello")
    );

    // A message that already ends in a newline does not get a second one.
    assert_eq!(
        "P: hello\n",
        StdLogger::new(Target::Stderr, "P: ", 0).format("hello\n")
    );

    // LstdFlags is date plus second-resolution time: "2026/09/09 14:03:11 ".
    let line = StdLogger::new(Target::Stderr, "", LSTD_FLAGS).format("hello");
    assert!(line.ends_with("hello\n"), "unexpected line: {line:?}");
    assert_eq!(20, line.len() - "hello\n".len());

    // Ldate alone is "2026/09/09 ".
    let line = StdLogger::new(Target::Stderr, "", LDATE).format("hello");
    assert_eq!(11, line.len() - "hello\n".len());

    // Ltime alone is "14:03:11 ".
    let line = StdLogger::new(Target::Stderr, "", LTIME).format("hello");
    assert_eq!(9, line.len() - "hello\n".len());

    // LUTC changes the clock, not the layout.
    let line = StdLogger::new(Target::Stderr, "", LSTD_FLAGS | LUTC).format("hello");
    assert_eq!(20, line.len() - "hello\n".len());

    // Without Lmsgprefix the prefix leads the whole line, ahead of the date.
    let line = StdLogger::new(Target::Stderr, "P: ", LDATE).format("hello");
    assert!(line.starts_with("P: "), "unexpected line: {line:?}");
    let line = StdLogger::new(Target::Stderr, "P: ", LDATE | LMSGPREFIX).format("hello");
    assert!(!line.starts_with("P: "), "unexpected line: {line:?}");
    assert!(line.ends_with("P: hello\n"), "unexpected line: {line:?}");
}

#[test]
fn test_logger_writes_to_both_targets() {
    let out = StdLogger::new(Target::Stdout, "out: ", 0);
    let err = StdLogger::new(Target::Stderr, "err: ", 0);
    assert_eq!("out: hello\n", out.format("hello"));
    assert_eq!("err: hello\n", err.format("hello"));
    out.printf("hello");
    err.printf("hello");
}

#[test]
fn test_duration_is_signed_nanoseconds() {
    assert_eq!(1, Duration::nanosecond().as_nanos());
    assert_eq!(1_000, Duration::microsecond().as_nanos());
    assert_eq!(1_000_000, Duration::millisecond().as_nanos());
    assert_eq!(1_000_000_000, Duration::second().as_nanos());
    assert_eq!(0, Duration::zero().as_nanos());
    assert_eq!(Duration::zero(), Duration::default());

    assert_eq!(-1, Duration::from_nanos(-1).as_nanos());
    assert!(Duration::from_nanos(-1) < Duration::zero());
    assert_eq!(Duration::millisecond() * 100, Duration::from_millis(100));
    assert_eq!(Duration::second() * 3, Duration::from_secs(3));

    let wait = Duration::millisecond() * 100;
    assert_eq!(Duration::from_millis(150), wait + wait / 2);

    assert_eq!(std::time::Duration::from_secs(1), Duration::second().to_std());
    // Every API that takes a duration treats a negative one as "no wait".
    assert_eq!(std::time::Duration::ZERO, Duration::from_nanos(-1).to_std());
    assert_eq!(std::time::Duration::ZERO, Duration::zero().to_std());
}

#[test]
fn test_now_unix_nano_advances() {
    let before = now_unix_nano();
    pause(Duration::millisecond() * 5);
    let after = now_unix_nano();
    assert!(after > before, "{after} should be after {before}");
    assert!(before > 1_600_000_000_000_000_000, "{before} looks unset");
}

#[test]
fn test_context_cancellation_and_deadline() {
    let background = Context::background();
    assert!(!background.is_done());
    assert_eq!(None, background.err());
    assert!(!background.wait_done_for(Duration::millisecond() * 5));

    let (ctx, cancel) = Context::with_cancel();
    assert!(!ctx.is_done());
    assert_eq!(None, ctx.err());
    cancel.cancel();
    assert!(ctx.is_done());
    assert_eq!(Some(Error::Canceled), ctx.err());
    // Cancelling twice is a no-op.
    cancel.cancel();
    assert_eq!(Some(Error::Canceled), ctx.err());

    let (ctx, _cancel) = Context::with_timeout(Duration::millisecond() * 20);
    assert!(!ctx.is_done());
    assert!(ctx.wait_done_for(Duration::second()));
    assert_eq!(Some(Error::DeadlineExceeded), ctx.err());

    // Cancellation wins over expiry.
    let (ctx, cancel) = Context::with_timeout(Duration::second() * 30);
    cancel.cancel();
    assert_eq!(Some(Error::Canceled), ctx.err());

    // A clone shares the same signal.
    let (ctx, cancel) = Context::with_cancel();
    let clone = ctx.clone();
    cancel.cancel();
    assert!(clone.is_done());
}

fn clock() -> ClockFields {
    ClockFields {
        year: 2026,
        month: 9,
        day: 9,
        hour: 14,
        minute: 3,
        second: 11,
        micros: 4913,
    }
}

#[test]
fn header_renders_a_fixed_clock_exactly() {
    let logger = StdLogger::new(Target::Stderr, "[ants]: ", LSTD_FLAGS | LMSGPREFIX | LMICROSECONDS);
    assert_eq!(
        "2026/09/09 14:03:11.004913 [ants]: hi\n",
        logger.format_at("hi", &clock())
    );
    let logger = StdLogger::new(Target::Stdout, "P ", LTIME);
    assert_eq!("P 14:03:11 x\n", logger.format_at("x\n", &clock()));
    let logger = StdLogger::new(Target::Stdout, "", LDATE);
    let mut c = clock();
    c.year = -5;
    assert_eq!("-005/09/09 m\n", logger.format_at("m", &c));
    c.year = 12345;
    assert_eq!("12345/09/09 m\n", logger.format_at("m", &c));
}

#[test]
fn a_clock_is_read_in_range() {
    let c = ants::deps::golog::read_clock(true);
    assert!((1..=12).contains(&c.month));
    assert!((1..=31).contains(&c.day));
    assert!(c.hour <= 23 && c.minute <= 59 && c.second <= 59);
    assert!(c.year >= 2020);
}

#[test]
fn unix_offsets_are_signed() {
    assert_eq!(5, ants::deps::gotime::unix_offset_nanos(true, 5));
    assert_eq!(-5, ants::deps::gotime::unix_offset_nanos(false, 5));
    assert_eq!(0, ants::deps::gotime::unix_offset_nanos(false, 0));
}

#[test]
fn context_errors_prefer_cancellation() {
    assert_eq!(Some(Error::Canceled), context_error(true, true));
    assert_eq!(Some(Error::Canceled), context_error(true, false));
    assert_eq!(Some(Error::DeadlineExceeded), context_error(false, true));
    assert_eq!(None, context_error(false, false));
}

#[test]
fn an_event_closes_once_and_for_everybody() {
    let e = ants::deps::event::Event::new();
    assert!(!e.is_closed());
    assert!(!e.wait_timeout(std::time::Duration::from_millis(1)));
    e.close();
    e.close();
    assert!(e.is_closed());
    assert!(e.wait_timeout(std::time::Duration::from_secs(5)));
    e.wait();
}

#[test]
fn condition_variable_bookkeeping() {
    let mut w = Waiters::new();
    assert!(!w.signal(), "nobody to wake");
    assert!(!w.broadcast(), "nobody to wake");
    assert_eq!(0, w.parked());
    let g1 = w.register();
    let g2 = w.register();
    assert_eq!(2, w.parked());
    assert!(!w.try_leave(g1), "no wake-up yet");
    assert!(w.signal());
    assert!(w.signal());
    assert!(!w.signal(), "never more tokens than waiters");
    assert!(w.try_leave(g1));
    assert!(w.try_leave(g2));
    let g3 = w.register();
    assert!(w.broadcast());
    assert!(w.try_leave(g3), "a broadcast releases earlier waiters");
}

#[test]
fn spin_backoff_doubles_up_to_its_cap() {
    assert_eq!(2, next_backoff(1));
    assert_eq!(16, next_backoff(8));
    assert_eq!(16, next_backoff(16));
}

#[test]
fn a_local_clock_is_read_in_range_too() {
    let utc = ants::deps::golog::read_clock(true);
    let local = ants::deps::golog::read_clock(false);
    assert!((1000..=9999).contains(&local.year));
    assert!((1..=12).contains(&local.month));
    assert!(local.micros < 1_000_000);
    // The zone is less than a day away from UTC.
    assert!((local.year - utc.year).abs() <= 1);
}

#[test]
fn a_context_without_time_left_is_done_at_once() {
    let (ctx, _cancel) = Context::with_timeout(Duration(0));
    assert!(ctx.is_done());
    assert_eq!(Some(Error::DeadlineExceeded), ctx.err());
    let (ctx, _cancel) = Context::with_timeout(Duration(-5));
    assert!(ctx.is_done());
    assert!(ctx.wait_done_for(Duration::second()));
}
