//! The runtime facilities a pool relies on: a signed duration and the clock,
//! the log-line format, a one-shot latch, a cancellation context, and the
//! bookkeeping of a condition variable.

pub mod cond;
pub mod context;
pub mod event;
pub mod golog;
pub mod gotime;
