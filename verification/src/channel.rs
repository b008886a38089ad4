//! The outbound channel of an observer: the sending half of a `tokio`
//! unbounded channel that carries the bytes of one message at a time. Verus
//! takes the declarations in this file on trust.

use vstd::prelude::*;
use tokio::sync::mpsc::UnboundedSender;

verus! {

/// The sending half of a `tokio` unbounded channel. Nothing inside it is
/// visible to the proofs.
#[verifier::external_type_specification]
#[verifier::external_body]
#[verifier::reject_recursive_types(T)]
pub struct ExUnboundedSender<T>(UnboundedSender<T>);

/// Calls `UnboundedSender::send`, which never waits, and says whether the
/// channel took the payload. It does not take it once the receiving half has
/// been closed or dropped. Trusted; whether it takes the payload depends on
/// the receiver, so nothing is claimed about the answer.
#[verifier::external_body]
pub(crate) fn offer(channel: &UnboundedSender<Vec<u8>>, payload: Vec<u8>) -> (taken: bool) {
    channel.send(payload).is_ok()
}

/// Calls `clone` on the sender: a second handle to the same channel.
/// Trusted; nothing is claimed about the result.
#[verifier::external_body]
pub(crate) fn duplicate(channel: &UnboundedSender<Vec<u8>>) -> (copy: UnboundedSender<Vec<u8>>) {
    channel.clone()
}

} // verus!
