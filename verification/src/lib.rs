//! Crate `ants` implements an efficient and reliable thread pool.
//!
//! This crate holds the verified core of the pool: the worker queues, the
//! pool's bookkeeping state machine, option loading, the multi-pools with
//! their load balancing over any kind of pool, the signed duration type,
//! the cancellation context and the log-line format. The threads that run
//! the tasks belong to the runtime built on top of it.

pub mod deps;
pub mod error;
pub mod internal;
pub mod multipool;
pub mod options;
pub mod pkg;
pub mod pool_common;
pub mod worker;
pub mod worker_loop_queue;
pub mod worker_queue;
pub mod worker_stack;

pub use crate::deps::context::{CancelFunc, Context};
pub use crate::deps::golog::{default_logger, Logger, SharedLogger, StdLogger, Target};
pub use crate::deps::gotime::{now_unix_nano, Duration};
pub use crate::error::Error;
pub use crate::multipool::{LoadBalancingStrategy, MultiPool, MultiPoolWithFunc, Poolish};
pub use crate::options::{
    with_disable_purge, with_expiry_duration, with_logger, with_max_blocking_tasks, with_nonblocking,
    with_options, with_panic_handler, with_pre_alloc, Opt, Options, PanicHandler, PanicHook,
    PanicPayload,
};
pub use crate::pool_common::{
    default_clean_interval_time, timeout_outcome, worker_chan_cap_for, PoolCore, Retrieval, Wake, CLOSED, DEFAULT_ANTS_POOL_SIZE, OPENED,
};

