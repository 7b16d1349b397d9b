//! One-directional unbounded queues between the update loop, the network
//! task and the per-connection server tasks.
//!
//! The queues are crossbeam channels. What a channel holds at a given
//! moment depends on every thread that touches it, so nothing is promised
//! about the outcome of a send or a receive: the verified callers state
//! what holds whatever comes back.

use vstd::prelude::*;

verus! {

#[verifier::external_type_specification]
#[verifier::external_body]
#[verifier::reject_recursive_types(T)]
pub struct ExSender<T>(crossbeam::channel::Sender<T>);

#[verifier::external_type_specification]
#[verifier::external_body]
#[verifier::reject_recursive_types(T)]
pub struct ExReceiver<T>(crossbeam::channel::Receiver<T>);

/// What one attempt to take a message from a queue found.
pub enum RecvAttempt<T> {
    /// A message was waiting.
    Received(T),
    /// The queue is empty but senders remain.
    Empty,
    /// The queue is empty and every sender is gone.
    Disconnected,
}

/// Creates an unbounded queue.
///
/// Relies on crossbeam's `channel::unbounded`: a fresh channel of
/// unlimited capacity whose two ends are returned.
#[verifier::external_body]
pub fn new_channel<T>() -> (crossbeam::channel::Sender<T>, crossbeam::channel::Receiver<T>) {
    crossbeam::channel::unbounded()
}

/// Queues one message, best-effort.
///
/// Relies on crossbeam's `Sender::send`: on an unbounded channel it
/// returns without blocking, `Ok` unless every receiver is gone. Whether
/// it succeeds depends on the other threads, so nothing is promised.
#[verifier::external_body]
pub fn channel_send<T>(sender: &crossbeam::channel::Sender<T>, message: T) -> bool {
    sender.send(message).is_ok()
}

/// Takes the oldest queued message without blocking, if one is there.
///
/// Relies on crossbeam's `Receiver::try_recv`: returns a waiting message,
/// or reports the queue empty or disconnected. Which of the three happens
/// depends on the other threads, so nothing is promised.
#[verifier::external_body]
pub fn channel_try_recv<T>(receiver: &crossbeam::channel::Receiver<T>) -> RecvAttempt<T> {
    match receiver.try_recv() {
        Ok(message) => RecvAttempt::Received(message),
        Err(crossbeam::channel::TryRecvError::Empty) => RecvAttempt::Empty,
        Err(crossbeam::channel::TryRecvError::Disconnected) => RecvAttempt::Disconnected,
    }
}

} // verus!
