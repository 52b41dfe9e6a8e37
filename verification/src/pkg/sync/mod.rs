//! The spin lock's backoff schedule.

pub mod spinlock;

pub use crate::pkg::sync::spinlock::{next_backoff, MAX_BACKOFF};
