//! Trusted boundary to the in-process queues (tokio's unbounded mpsc
//! channels) and to the peer-identity generator (uuid). Everything here is
//! believed, not proved: each item's doc comment names the outside function
//! it relies on. Queue contents are shared with other tasks, so no contract
//! below claims anything about what a queue holds.
use crate::message::{PeerId, RecvPoll, ServerToClientMessage};
use vstd::prelude::*;

verus! {

#[verifier::external_type_specification]
#[verifier::external_body]
#[verifier::reject_recursive_types(T)]
pub struct ExUnboundedSender<T>(tokio::sync::mpsc::UnboundedSender<T>);

#[verifier::external_type_specification]
#[verifier::external_body]
#[verifier::reject_recursive_types(T)]
pub struct ExUnboundedReceiver<T>(tokio::sync::mpsc::UnboundedReceiver<T>);

/// Relies on tokio's `mpsc::unbounded_channel`: a fresh sender/receiver pair
/// over a new, empty, unbounded queue.
#[verifier::external_body]
pub(crate) fn new_channel<T>() -> (tokio::sync::mpsc::UnboundedSender<T>, tokio::sync::mpsc::UnboundedReceiver<T>) {
    tokio::sync::mpsc::unbounded_channel()
}

/// Relies on tokio's `UnboundedSender::send`: the message is appended to the
/// queue unless the receiving half is gone, in which case `false` comes back.
/// Whether the receiver is alive depends on other tasks, so neither outcome
/// can be promised.
#[verifier::external_body]
pub(crate) fn queue_send<T>(s: &tokio::sync::mpsc::UnboundedSender<T>, m: T) -> (delivered: bool) {
    s.send(m).is_ok()
}

/// Relies on tokio's `UnboundedSender::clone`: another handle to the same
/// queue.
#[verifier::external_body]
pub(crate) fn clone_sender<T>(s: &tokio::sync::mpsc::UnboundedSender<T>) -> (r: tokio::sync::mpsc::UnboundedSender<T>) {
    s.clone()
}

/// Relies on tokio's `UnboundedReceiver::try_recv`: a buffered message in
/// arrival order, or `Empty` while the queue is open but idle, or `Closed`
/// once every sender is gone and the queue is drained. Which of the three
/// comes back depends on other tasks.
#[verifier::external_body]
pub(crate) fn poll_queue(r: &mut tokio::sync::mpsc::UnboundedReceiver<ServerToClientMessage>) -> (p: RecvPoll) {
    match r.try_recv() {
        Ok(m) => RecvPoll::Received(m),
        Err(tokio::sync::mpsc::error::TryRecvError::Empty) => RecvPoll::Empty,
        Err(tokio::sync::mpsc::error::TryRecvError::Disconnected) => RecvPoll::Closed,
    }
}

/// Relies on uuid's `Uuid::new_v4` (via `as_u128`): a freshly drawn random
/// 128-bit version-4 token. The value is random, so nothing is promised of
/// it.
#[verifier::external_body]
pub(crate) fn fresh_peer_id() -> (id: PeerId) {
    PeerId { bits: uuid::Uuid::new_v4().as_u128() }
}

} // verus!
