//! The queue between producers and the export task: std's unbounded channel.

use std::sync::mpsc::Receiver;
use std::sync::mpsc::Sender;
use std::sync::mpsc::TryRecvError;
use vstd::prelude::*;

verus! {

/// The sending half of std's channel. Many producers may share one.
#[verifier::external_type_specification]
#[verifier::external_body]
#[verifier::reject_recursive_types(T)]
pub struct ExSender<T>(Sender<T>);

/// The receiving half of std's channel.
#[verifier::external_type_specification]
#[verifier::external_body]
#[verifier::reject_recursive_types(T)]
pub struct ExReceiver<T>(Receiver<T>);

/// What one look at the receiving half found.
pub enum Polled<T> {
    /// An item that was waiting.
    Item(T),
    /// Nothing is waiting now.
    Empty,
    /// Nothing is waiting and every sender is gone.
    Disconnected,
}

/// `std::sync::mpsc::channel`: a new unbounded channel. Nothing is claimed of
/// the two halves.
#[verifier::external_body]
pub(crate) fn open_channel<T>() -> (Sender<T>, Receiver<T>) {
    std::sync::mpsc::channel()
}

/// `Sender::send`: queues `item` without blocking. It fails only when the
/// receiving half is gone, and then hands the item back. Whether that half is
/// still there is not known here, so nothing is claimed of the result.
#[verifier::external_body]
pub(crate) fn send<T>(tx: &Sender<T>, item: T) -> Result<(), T> {
    tx.send(item).map_err(|e| e.0)
}

/// `Receiver::try_recv`: takes the item that has waited longest, without
/// blocking. What it finds depends on what the producers have done, so
/// nothing is claimed of the result.
#[verifier::external_body]
pub(crate) fn try_receive<T>(rx: &Receiver<T>) -> Polled<T> {
    match rx.try_recv() {
        Ok(item) => Polled::Item(item),
        Err(TryRecvError::Empty) => Polled::Empty,
        Err(TryRecvError::Disconnected) => Polled::Disconnected,
    }
}

} // verus!
