//! The channels of the standard library, as far as the buses use them.
//!
//! Nothing in this file is proved: it states what the documentation of
//! `std::sync::mpsc` says of the calls that the buses make.

use std::sync::mpsc::{channel, Receiver, Sender, SyncSender, TrySendError};
use vstd::prelude::*;

verus! {

/// `std::sync::mpsc::Sender`, the sending half of an unbounded channel.
#[verifier::external_type_specification]
#[verifier::external_body]
#[verifier::reject_recursive_types(T)]
pub struct ExSender<T>(Sender<T>);

/// `std::sync::mpsc::SyncSender`, the sending half of a bounded channel.
#[verifier::external_type_specification]
#[verifier::external_body]
#[verifier::reject_recursive_types(T)]
pub struct ExSyncSender<T>(SyncSender<T>);

/// `std::sync::mpsc::Receiver`, the receiving half of either channel.
#[verifier::external_type_specification]
#[verifier::external_body]
#[verifier::reject_recursive_types(T)]
pub struct ExReceiver<T>(Receiver<T>);

/// `Sender::clone` gives another handle on the same channel; nothing is
/// claimed of it.
pub assume_specification<T>[ <std::sync::mpsc::Sender<T> as Clone>::clone ](
    this: &std::sync::mpsc::Sender<T>,
) -> (r: std::sync::mpsc::Sender<T>)
;

/// `SyncSender::clone` gives another handle on the same channel; nothing is
/// claimed of it.
pub assume_specification<T>[ <std::sync::mpsc::SyncSender<T> as Clone>::clone ](
    this: &std::sync::mpsc::SyncSender<T>,
) -> (r: std::sync::mpsc::SyncSender<T>)
;

/// Why a bounded channel did not take a message at once.
#[verifier::reject_recursive_types(M)]
pub enum Refusal<M> {
    /// The channel holds as many messages as it has room for.
    Full(M),
    /// Nobody listens on the channel any more.
    Disconnected(M),
}

/// `std::sync::mpsc::channel`: the two halves of a new unbounded channel.
#[verifier::external_body]
pub(crate) fn open_channel<M>() -> (halves: (Sender<M>, Receiver<M>)) {
    channel()
}

/// `Sender::send`: a message that cannot be delivered comes back unchanged.
/// Whether it can depends on the receiver, so nothing is claimed of success.
#[verifier::external_body]
pub(crate) fn send_on<M>(sender: &Sender<M>, message: M) -> (r: Result<(), M>)
    ensures
        r matches Err(back) ==> back == message,
{
    sender.send(message).map_err(|e| e.0)
}

/// `SyncSender::send`, which waits for room: a message that cannot be
/// delivered comes back unchanged.
#[verifier::external_body]
pub(crate) fn send_on_bounded<M>(sender: &SyncSender<M>, message: M) -> (r: Result<(), M>)
    ensures
        r matches Err(back) ==> back == message,
{
    sender.send(message).map_err(|e| e.0)
}

/// `SyncSender::try_send`, which does not wait: a message that is not taken
/// comes back unchanged, with the reason.
#[verifier::external_body]
pub(crate) fn try_send_on_bounded<M>(sender: &SyncSender<M>, message: M) -> (r: Result<
    (),
    Refusal<M>,
>)
    ensures
        r matches Err(Refusal::Full(back)) ==> back == message,
        r matches Err(Refusal::Disconnected(back)) ==> back == message,
{
    sender.try_send(message).map_err(
        |e|
            match e {
                TrySendError::Full(m) => Refusal::Full(m),
                TrySendError::Disconnected(m) => Refusal::Disconnected(m),
            },
    )
}

/// `Receiver::recv`, which waits for a message: `None` once every sender is
/// gone and nothing is left to receive.
#[verifier::external_body]
pub(crate) fn receive_from<M>(receiver: &Receiver<M>) -> (r: Option<M>) {
    receiver.recv().ok()
}

} // verus!
