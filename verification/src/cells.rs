//! The three cells that a job shares between its supervisor and everyone
//! else: the cancel signal, the status cell and the completion watch.
//!
//! They are tokio's and std's, and other tasks act on them at any time, so no
//! contract here says what a read returns. The functions that take a read's
//! result as an argument say what follows from it.

use crate::job::JobStatus;
use std::sync::RwLock;
use tokio::sync::watch::{Receiver, Sender};
use tokio::sync::Notify;
use vstd::prelude::*;

verus! {

/// tokio's `Notify`: the cancel signal. Nothing is known of what is in it.
#[verifier::external_type_specification]
#[verifier::external_body]
pub struct ExNotify(Notify);

/// std's `RwLock`: the status cell. Nothing is known of what is in it.
#[verifier::external_type_specification]
#[verifier::external_body]
#[verifier::reject_recursive_types(T)]
pub struct ExRwLock<T: ?Sized>(RwLock<T>);

/// tokio's `watch::Sender`: the end of the completion watch that sets it.
/// Nothing is known of what is in it.
#[verifier::external_type_specification]
#[verifier::external_body]
#[verifier::reject_recursive_types(T)]
pub struct ExSender<T>(Sender<T>);

/// tokio's `watch::Receiver`: an end of the completion watch that reads it.
/// Nothing is known of what is in it.
#[verifier::external_type_specification]
#[verifier::external_body]
#[verifier::reject_recursive_types(T)]
pub struct ExReceiver<T>(Receiver<T>);

/// A cancel signal with no request stored in it.
///
/// Trusted: this is tokio's `Notify::new`. Nothing is claimed of the result.
#[verifier::external_body]
pub(crate) fn cancel_signal() -> Notify {
    Notify::new()
}

/// Asks for cancellation.
///
/// Trusted: this is tokio's `Notify::notify_one`, which wakes the task that
/// waits on the signal or, if none waits, stores one permit for the next wait.
/// A permit that is already stored stays the only one. The contract claims
/// nothing of this: the signal is another task's to take.
#[verifier::external_body]
pub(crate) fn request_cancel(signal: &Notify) {
    signal.notify_one()
}

/// A status cell that holds `status`.
///
/// Trusted: this is std's `RwLock::new`. Nothing is claimed of the result.
#[verifier::external_body]
pub(crate) fn status_cell(status: JobStatus) -> RwLock<JobStatus> {
    RwLock::new(status)
}

/// The status in the cell, if it can be read without waiting; `None` while a
/// writer holds the cell or after a writer died holding it.
///
/// Trusted: this is std's `RwLock::try_read`, with the status copied out of
/// the guard. Nothing is claimed of the result: the supervisor may write the
/// cell at any time.
#[verifier::external_body]
pub(crate) fn glimpse_status(cell: &RwLock<JobStatus>) -> Option<JobStatus> {
    match cell.try_read() {
        Ok(status) => Some(*status),
        Err(_) => None,
    }
}

/// The status in the cell, waiting for a writer to finish; `None` after a
/// writer died holding the cell.
///
/// Trusted: this is std's `RwLock::read`, with the status copied out of the
/// guard. Nothing is claimed of the result: the supervisor may write the cell
/// at any time.
#[verifier::external_body]
pub(crate) fn read_status(cell: &RwLock<JobStatus>) -> Option<JobStatus> {
    match cell.read() {
        Ok(status) => Some(*status),
        Err(_) => None,
    }
}

/// Puts `status` into the cell, unless a writer died holding it.
///
/// Trusted: this is std's `RwLock::write`, with the status stored through the
/// guard. Nothing is claimed of it.
#[verifier::external_body]
pub(crate) fn write_status(cell: &RwLock<JobStatus>, status: JobStatus) {
    if let Ok(mut held) = cell.write() {
        *held = status;
    }
}

/// A watch that reads `initial`, with its sending and its receiving end.
///
/// Trusted: this is tokio's `watch::channel`. Nothing is claimed of the
/// result.
#[verifier::external_body]
pub(crate) fn completion_watch(initial: bool) -> (Sender<bool>, Receiver<bool>) {
    tokio::sync::watch::channel(initial)
}

/// Another receiving end of the same watch: a duplicate of `receiver`.
///
/// Trusted: this is `Clone::clone` of tokio's `watch::Receiver`, which makes a
/// receiver with the same pointer to the channel and the same last version
/// seen as the one it is given. The contract claims that and no more: the
/// copy is equal to the receiver it was made from.
#[verifier::external_body]
pub(crate) fn another_receiver(receiver: &Receiver<bool>) -> (copy: Receiver<bool>)
    ensures
        copy == *receiver,
{
    receiver.clone()
}

/// Sets the watch to `value` and wakes its receivers. Returns whether there
/// was a receiver left to take it.
///
/// Trusted: this is tokio's `watch::Sender::send`, which fails when every
/// receiver has been dropped. Nothing is claimed of the result.
#[verifier::external_body]
pub(crate) fn announce(sender: &Sender<bool>, value: bool) -> bool {
    sender.send(value).is_ok()
}

} // verus!
