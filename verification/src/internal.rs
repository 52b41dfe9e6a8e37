//! The worker queues and the worker abstraction, for the pool runtime and
//! for white-box tests.

pub use crate::worker_loop_queue::LoopQueue;
pub use crate::worker_queue::{new_worker_queue, QueueType, Worker, WorkerQueue};
pub use crate::worker::{GoWorker, Message};
pub use crate::worker_stack::WorkerStack;
