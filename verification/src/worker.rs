//! The actual executor's handle: a payload channel and the time it was last
//! put back into a pool. The thread behind it belongs to the runtime.

use std::sync::atomic::{AtomicI64, Ordering};
use vstd::prelude::*;
use vstd::string::StringExecFns;

use crate::worker_queue::Worker;

verus! {

/// The sending half of a bounded std channel.
#[verifier::external_type_specification]
#[verifier::external_body]
#[verifier::reject_recursive_types(T)]
pub struct ExSyncSender<T>(std::sync::mpsc::SyncSender<T>);

/// The receiving half of a std channel.
#[verifier::external_type_specification]
#[verifier::external_body]
#[verifier::reject_recursive_types(T)]
pub struct ExReceiver<T>(std::sync::mpsc::Receiver<T>);

/// What a pool sends down a worker's channel.
#[verifier::reject_recursive_types(T)]
pub enum Message<T> {
    /// A payload to process.
    Payload(T),
    /// Stop.
    Finish,
}

/// Calls `std::sync::mpsc::sync_channel` with room for `capacity` messages.
#[verifier::external_body]
fn bounded_channel<T>(capacity: usize) -> (c: (std::sync::mpsc::SyncSender<T>, std::sync::mpsc::Receiver<T>)) {
    std::sync::mpsc::sync_channel(capacity)
}

/// Calls `std::sync::Mutex::new`.
#[verifier::external_body]
fn guarded<T>(value: T) -> (m: std::sync::Mutex<T>) {
    std::sync::Mutex::new(value)
}

/// Calls `SyncSender::send`, blocking while the channel is full; a message
/// for a receiver that is gone is dropped.
#[verifier::external_body]
fn send_message<T>(sender: &std::sync::mpsc::SyncSender<T>, message: T) {
    let _ = sender.send(message);
}

/// Calls `Mutex::lock` on the receiving half; a poisoned lock is taken as
/// it is.
#[verifier::external_body]
fn lock_receiver<'a, T>(
    receiver: &'a std::sync::Mutex<std::sync::mpsc::Receiver<T>>,
) -> (g: std::sync::MutexGuard<'a, std::sync::mpsc::Receiver<T>>) {
    receiver.lock().unwrap_or_else(std::sync::PoisonError::into_inner)
}

/// Calls `Receiver::recv`, blocking until a message comes: the message, or
/// `None` once no sender is left.
#[verifier::external_body]
fn receive_message<T>(receiver: &std::sync::MutexGuard<'_, std::sync::mpsc::Receiver<T>>) -> (m: Option<T>) {
    receiver.recv().ok()
}

/// The line a worker logs when its task panicked and no panic handler is
/// set: the panic's message, then the backtrace, each on a line of its own.
pub fn panic_report(message: &str, backtrace: &str) -> (r: String)
    ensures
        r@ == "worker exits from panic: "@ + message@ + "\n"@ + backtrace@ + "\n"@,
{
    let mut r = String::new();
    r.append("worker exits from panic: ");
    r.append(message);
    r.append("\n");
    r.append(backtrace);
    r.append("\n");
    r
}

/// The actual executor who runs the tasks: one channel and, while running,
/// one thread.
#[derive(Debug)]
#[verifier::reject_recursive_types(T)]
pub struct GoWorker<T: Send + 'static> {
    sender: std::sync::mpsc::SyncSender<Message<T>>,
    receiver: std::sync::Mutex<std::sync::mpsc::Receiver<Message<T>>>,
    last_used: AtomicI64,
}

/// Whether `a` is a fresh last-use cell holding `t`.
pub open spec fn stamp_cell(t: i64, a: AtomicI64) -> bool {
    call_ensures(AtomicI64::new, (t,), a)
}

/// A last-use cell reading zero.
fn new_stamp() -> (a: AtomicI64)
    ensures
        stamp_cell(0, a),
{
    let make = AtomicI64::new;
    make(0)
}

impl<T: Send + 'static> GoWorker<T> {
    /// Whether the worker was built around a fresh channel with room for
    /// `capacity` messages, its receiving half behind a fresh lock, and a
    /// fresh last-use cell reading zero.
    pub closed spec fn built_with(&self, capacity: usize) -> bool {
        &&& exists|r: std::sync::mpsc::Receiver<Message<T>>| {
            &&& #[trigger] call_ensures(bounded_channel::<Message<T>>, (capacity,), (self.sender, r))
            &&& call_ensures(guarded::<std::sync::mpsc::Receiver<Message<T>>>, (r,), self.receiver)
        }
        &&& stamp_cell(0, self.last_used)
    }

    /// Whether `t` was written to the last-use cell by a store.
    pub closed spec fn stamped(&self, t: i64) -> bool {
        call_ensures(AtomicI64::store, (&self.last_used, t, Ordering::Release), ())
    }

    /// Whether `t` is what loading the last-use cell may give.
    pub closed spec fn reads_stamp(&self, t: i64) -> bool {
        call_ensures(AtomicI64::load, (&self.last_used, Ordering::Acquire), t)
    }

    /// Whether `m` is what taking the next message, under the lock of the
    /// receiving half, may give.
    pub closed spec fn receives<'a>(&'a self, m: Option<Message<T>>) -> bool {
        exists|g: std::sync::MutexGuard<'a, std::sync::mpsc::Receiver<Message<T>>>| {
            &&& call_ensures(lock_receiver::<Message<T>>, (&self.receiver,), g)
            &&& #[trigger] call_ensures(receive_message::<Message<T>>, (&g,), m)
        }
    }

    /// A worker with a `capacity`-slot channel and no thread behind it yet.
    pub fn new(capacity: usize) -> (w: GoWorker<T>)
        ensures
            w.built_with(capacity),
    {
        let open_channel = bounded_channel::<Message<T>>;
        let lock = guarded::<std::sync::mpsc::Receiver<Message<T>>>;
        let (sender, receiver) = open_channel(capacity);
        let ghost r = receiver;
        let receiver = lock(receiver);
        let w = GoWorker { sender, receiver, last_used: new_stamp() };
        assert(call_ensures(bounded_channel::<Message<T>>, (capacity,), (w.sender, r)));
        w
    }

    /// A worker that has never run, stamped as last used at `last_used`; its
    /// channel has one slot.
    pub fn with_last_used(last_used: i64) -> (w: GoWorker<T>)
        ensures
            w.built_with(1),
            w.stamped(last_used),
    {
        let worker = GoWorker::new(1);
        worker.set_last_used_time(last_used);
        worker
    }

    /// Hands `payload` to the worker.
    pub fn input(&self, payload: T) {
        send_message(&self.sender, Message::Payload(payload));
    }

    /// Waits for the next message to the worker; `None` once the channel can
    /// no longer deliver.
    pub fn receive(&self) -> (m: Option<Message<T>>)
        ensures
            self.receives(m),
    {
        let lock = lock_receiver::<Message<T>>;
        let take = receive_message::<Message<T>>;
        let receiver = lock(&self.receiver);
        let m = take(&receiver);
        assert(call_ensures(lock_receiver::<Message<T>>, (&self.receiver,), receiver)
            && call_ensures(receive_message::<Message<T>>, (&receiver,), m));
        m
    }
}

impl<T: Send + 'static> Worker for GoWorker<T> {
    fn finish(&self) {
        send_message(&self.sender, Message::Finish);
    }

    fn last_used_time(&self) -> (t: i64)
        ensures
            self.reads_stamp(t),
    {
        let load = AtomicI64::load;
        load(&self.last_used, Ordering::Acquire)
    }

    fn set_last_used_time(&self, time: i64)
        ensures
            self.stamped(time),
    {
        let store = AtomicI64::store;
        store(&self.last_used, time, Ordering::Release);
    }
}

} // verus!
