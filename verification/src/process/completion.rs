//! The promise of an answer to a client that waits for one.

use bytes::Bytes;
use tokio::sync::oneshot::Sender;
use vstd::prelude::*;

verus! {

/// `tokio::sync::oneshot::Sender`, the sending half of a channel for one
/// value. Nothing is known of a value.
#[verifier::external_type_specification]
#[verifier::external_body]
#[verifier::reject_recursive_types(T)]
pub struct ExSender<T>(tokio::sync::oneshot::Sender<T>);

/// `oneshot::Sender::send`. Says whether the value was handed over. Nothing
/// is promised: the waiting side may have gone away.
#[verifier::external_body]
fn send_bytes(tx: Sender<Bytes>, data: Bytes) -> (delivered: bool) {
    tx.send(data).is_ok()
}

/// The sending half of the channel on which a client waits for its answer.
/// To drop it is to fail the client's call.
#[derive(Debug)]
pub struct UserCompletion(Sender<Bytes>);

impl UserCompletion {
    /// The channel behind the promise.
    pub closed spec fn sender(&self) -> Sender<Bytes> {
        self.0
    }

    pub fn new(tx: Sender<Bytes>) -> (c: UserCompletion)
        ensures
            c.sender() == tx,
    {
        UserCompletion(tx)
    }

    /// Answers the client with `data`. Says whether the client was still
    /// waiting.
    pub fn complete_with(self, data: Bytes) -> (delivered: bool) {
        send_bytes(self.0, data)
    }
}

} // verus!
