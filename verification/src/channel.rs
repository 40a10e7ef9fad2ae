//! The channel on which a refresh cycle hands its batch to the tracker.
//!
//! The two ends live on different threads, so nothing is claimed of what a
//! receive returns or of whether a send arrives.

use std::sync::mpsc::{Receiver, Sender};
use vstd::prelude::*;
use crate::row::FetchOutcome;

verus! {

/// `std::sync::mpsc::Sender`, carried through as it is.
#[verifier::external_type_specification]
#[verifier::external_body]
#[verifier::reject_recursive_types(T)]
pub struct ExSender<T>(Sender<T>);

/// `std::sync::mpsc::Receiver`, carried through as it is.
#[verifier::external_type_specification]
#[verifier::external_body]
#[verifier::reject_recursive_types(T)]
pub struct ExReceiver<T>(Receiver<T>);

/// A new channel for batches.
///
/// Calls `std::sync::mpsc::channel`.
#[verifier::external_body]
pub(crate) fn open_channel() -> (ends: (
    Sender<Vec<FetchOutcome>>,
    Receiver<Vec<FetchOutcome>>,
)) {
    std::sync::mpsc::channel()
}

/// Another sending end of the same channel.
///
/// Calls `Sender::clone`.
#[verifier::external_body]
pub(crate) fn clone_sender(outbox: &Sender<Vec<FetchOutcome>>) -> (copy: Sender<
    Vec<FetchOutcome>,
>) {
    outbox.clone()
}

/// Sends a batch; returns whether the channel took it.
///
/// Calls `Sender::send`, which never blocks and fails only where the
/// receiving end is gone.
#[verifier::external_body]
pub(crate) fn send_batch(outbox: &Sender<Vec<FetchOutcome>>, batch: Vec<FetchOutcome>) -> (sent:
    bool) {
    match outbox.send(batch) {
        Ok(()) => true,
        Err(_) => false,
    }
}

/// The next batch that has arrived, if any.
///
/// Calls `Receiver::try_recv`, which never blocks.  An empty channel and a
/// channel whose sending ends are gone both give `None`.
#[verifier::external_body]
pub(crate) fn try_receive(inbox: &Receiver<Vec<FetchOutcome>>) -> (batch: Option<
    Vec<FetchOutcome>,
>) {
    match inbox.try_recv() {
        Ok(batch) => Some(batch),
        Err(_) => None,
    }
}

} // verus!
