//! Handy synchronization helpers.

pub mod sync;
