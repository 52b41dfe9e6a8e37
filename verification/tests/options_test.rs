use ants::options::load_options;
use ants::{
    with_disable_purge, with_expiry_duration, with_max_blocking_tasks, with_nonblocking,
    with_options, with_pre_alloc, Duration, Options,
};

#[test]
fn no_options_give_the_defaults() {
    let o = load_options(&[]);
    assert_eq!(Duration::zero(), o.expiry_duration);
    assert!(!o.pre_alloc);
    assert_eq!(0, o.max_blocking_tasks);
    assert!(!o.nonblocking);
    assert!(!o.disable_purge);
    assert!(o.logger.is_none());
    assert!(o.panic_handler.is_none());
}

#[test]
fn options_apply_in_order_and_the_last_wins() {
    let o = load_options(&[
        with_expiry_duration(Duration::second()),
        with_pre_alloc(true),
        with_expiry_duration(Duration::millisecond()),
        with_max_blocking_tasks(3),
        with_nonblocking(true),
        with_disable_purge(true),
    ]);
    assert_eq!(Duration::millisecond(), o.expiry_duration);
    assert!(o.pre_alloc);
    assert_eq!(3, o.max_blocking_tasks);
    assert!(o.nonblocking);
    assert!(o.disable_purge);
}

#[test]
fn a_whole_configuration_replaces_what_came_before() {
    let mut whole = Options::default();
    whole.max_blocking_tasks = 7;
    let o = load_options(&[with_pre_alloc(true), with_options(whole), with_nonblocking(true)]);
    assert!(!o.pre_alloc);
    assert_eq!(7, o.max_blocking_tasks);
    assert!(o.nonblocking);
}

#[test]
fn the_configured_logger_is_shared() {
    let logger = ants::default_logger();
    let o = load_options(&[ants::with_logger(logger)]);
    assert!(o.logger.is_some());
    let copy = o.clone();
    assert!(copy.logger.is_some());
    copy.logger().printf("a shared logger writes\n");
}
