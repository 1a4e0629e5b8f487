use vstd::prelude::*;

use tokio::sync::broadcast::Sender;

verus! {

/// tokio's `broadcast::Sender`, carried as an opaque handle: the router
/// keeps one per subscription and only sends through it.
#[verifier::external_type_specification]
#[verifier::external_body]
#[verifier::reject_recursive_types(T)]
pub struct ExSender<T>(tokio::sync::broadcast::Sender<T>);

/// The queue through which the router reaches one connection: it carries
/// encoded frames, ready to be written to that connection's socket.
pub type DeliveryChannel = Sender<Vec<u8>>;

/// Relies on tokio's `broadcast::Sender::send`, which fails exactly when no
/// receiver of the channel is left. Whether one is left depends on the
/// connection at the other end, so nothing is promised of the outcome.
#[verifier::external_body]
pub(crate) fn deliver(channel: &DeliveryChannel, frame: Vec<u8>) -> (delivered: bool) {
    channel.send(frame).is_ok()
}

} // verus!
