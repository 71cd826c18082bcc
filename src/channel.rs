//! The parts of `std::sync::mpsc` that the library calls: the channel that
//! carries one line to one subscriber, or one input string to the relay.
use vstd::prelude::*;
use std::sync::mpsc::{Receiver, Sender};

verus! {

/// `std::sync::mpsc::Sender`, the sending end of a channel, held as an opaque value.
#[verifier::external_type_specification]
#[verifier::external_body]
#[verifier::reject_recursive_types(T)]
pub struct ExSender<T>(std::sync::mpsc::Sender<T>);

/// `std::sync::mpsc::Receiver`, the receiving end of a channel, held as an opaque value.
#[verifier::external_type_specification]
#[verifier::external_body]
#[verifier::reject_recursive_types(T)]
pub struct ExReceiver<T>(std::sync::mpsc::Receiver<T>);

/// What one non-blocking receive on a channel found.
pub enum Polled {
    /// A queued message, taken off the channel.
    Message(String),
    /// Nothing queued, but a sender is still alive.
    Empty,
    /// Nothing queued, and every sender has been dropped.
    Disconnected,
}

/// Relies on `std::sync::mpsc::channel`: a new unbounded channel, returned as
/// its sending and its receiving end.
#[verifier::external_body]
pub(crate) fn open_channel() -> (Sender<String>, Receiver<String>) {
    std::sync::mpsc::channel()
}

/// Relies on `Sender::send`: hands `message` to the channel and tells whether
/// the receiving end was still there. Which it was depends on the receiver's
/// owner, so nothing is promised of the result.
#[verifier::external_body]
pub(crate) fn deliver(tx: &Sender<String>, message: String) -> bool {
    tx.send(message).is_ok()
}

/// Relies on `Receiver::try_recv`: takes a queued message if there is one,
/// without blocking, and otherwise tells an empty channel from one whose
/// senders are all gone. What was queued depends on other threads, so nothing
/// is promised of the result.
#[verifier::external_body]
pub(crate) fn poll_channel(rx: &Receiver<String>) -> Polled {
    match rx.try_recv() {
        Ok(message) => Polled::Message(message),
        Err(std::sync::mpsc::TryRecvError::Empty) => Polled::Empty,
        Err(std::sync::mpsc::TryRecvError::Disconnected) => Polled::Disconnected,
    }
}

} // verus!
