//! Everything that can go wrong in a pool, and what each failure says.

use vstd::prelude::*;
use vstd::string::StringExecFns;

verus! {

/// Everything that can go wrong in `ants`.
#[derive(Clone, Debug, PartialEq, Eq)]
#[non_exhaustive]
pub enum Error {
    /// Returned when invokers don't provide a function for the pool.
    LackPoolFunc,
    /// Returned when setting a negative number as the periodic duration to
    /// purge workers.
    InvalidPoolExpiry,
    /// Returned when submitting a task to a closed pool.
    PoolClosed,
    /// Returned when the pool is full and no workers are available.
    PoolOverload,
    /// Returned when trying to set up a negative capacity under `PreAlloc`
    /// mode.
    InvalidPreAllocSize,
    /// Returned after the operations timed out.
    Timeout,
    /// Returned when trying to retrieve a pool with an invalid index.
    InvalidPoolIndex,
    /// Returned when trying to create a multi-pool with an invalid
    /// load-balancing strategy.
    InvalidLoadBalancingStrategy,
    /// Returned when trying to create a multi-pool with an invalid size.
    InvalidMultiPoolSize,
    /// Returned when a pre-allocated worker queue cannot take another worker.
    QueueIsFull,
    /// The context governing the operation was cancelled.
    Canceled,
    /// The context governing the operation reached its deadline.
    DeadlineExceeded,
    /// One or more pools of a multi-pool failed to release, each rendered as
    /// `pool <index>: <error>` and joined by `" | "`.
    Pools(String),
}

/// The text each error renders as.
pub open spec fn message_of(e: Error) -> Seq<char> {
    match e {
        Error::LackPoolFunc => "must provide function for pool"@,
        Error::InvalidPoolExpiry => "invalid expiry for pool"@,
        Error::PoolClosed => "this pool has been closed"@,
        Error::PoolOverload => "too many goroutines blocked on submit or Nonblocking is set"@,
        Error::InvalidPreAllocSize => "can not set up a negative capacity under PreAlloc mode"@,
        Error::Timeout => "operation timed out"@,
        Error::InvalidPoolIndex => "invalid pool index"@,
        Error::InvalidLoadBalancingStrategy => "invalid load-balancing strategy"@,
        Error::InvalidMultiPoolSize => "invalid size for multiple pool"@,
        Error::QueueIsFull => "the queue is full"@,
        Error::Canceled => "context canceled"@,
        Error::DeadlineExceeded => "context deadline exceeded"@,
        Error::Pools(detail) => detail@,
    }
}

impl Error {
    /// The message this error renders as, exactly as its `Display` shows it.
    pub fn message(&self) -> (s: String)
        ensures
            s@ == message_of(*self),
    {
        match self {
            Error::LackPoolFunc => String::from_str("must provide function for pool"),
            Error::InvalidPoolExpiry => String::from_str("invalid expiry for pool"),
            Error::PoolClosed => String::from_str("this pool has been closed"),
            Error::PoolOverload => String::from_str(
                "too many goroutines blocked on submit or Nonblocking is set",
            ),
            Error::InvalidPreAllocSize => String::from_str(
                "can not set up a negative capacity under PreAlloc mode",
            ),
            Error::Timeout => String::from_str("operation timed out"),
            Error::InvalidPoolIndex => String::from_str("invalid pool index"),
            Error::InvalidLoadBalancingStrategy => String::from_str(
                "invalid load-balancing strategy",
            ),
            Error::InvalidMultiPoolSize => String::from_str("invalid size for multiple pool"),
            Error::QueueIsFull => String::from_str("the queue is full"),
            Error::Canceled => String::from_str("context canceled"),
            Error::DeadlineExceeded => String::from_str("context deadline exceeded"),
            Error::Pools(detail) => detail.clone(),
        }
    }

    /// Whether this is [`Error::PoolOverload`].
    pub fn is_pool_overload(&self) -> (b: bool)
        ensures
            b <==> *self is PoolOverload,
    {
        match self {
            Error::PoolOverload => true,
            _ => false,
        }
    }

    /// Whether this is [`Error::DeadlineExceeded`].
    pub fn is_deadline_exceeded(&self) -> (b: bool)
        ensures
            b <==> *self is DeadlineExceeded,
    {
        match self {
            Error::DeadlineExceeded => true,
            _ => false,
        }
    }
}

} // verus!
