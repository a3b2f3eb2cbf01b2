//! What the leader sends to a follower in one round of replication.

use crate::clock::Clock;
use crate::entry::EntryView;
use crate::node_id::NodeId;
use crate::payload::bytes_content;
use bytes::Bytes;
use vstd::prelude::*;

verus! {

/// One entry of a stream. The clock of the entry before it is that of the
/// element before it in the stream, or the stream's `prev_clock`.
#[derive(Clone, Debug)]
pub struct LogStreamElem {
    pub this_clock: Clock,
    pub command: Bytes,
}

/// What a [`LogStreamElem`] is, as a mathematical value.
pub struct ElemView {
    pub this_clock: Clock,
    pub command: Seq<u8>,
}

impl View for LogStreamElem {
    type V = ElemView;

    open spec fn view(&self) -> ElemView {
        ElemView { this_clock: self.this_clock, command: bytes_content(self.command) }
    }
}

/// The stream element that carries the entry `e`.
pub open spec fn elem_of(e: EntryView) -> ElemView {
    ElemView { this_clock: e.this_clock, command: e.command }
}

/// The views of the elements of a stream, in order.
pub open spec fn elem_views(elems: Seq<LogStreamElem>) -> Seq<ElemView> {
    Seq::new(elems.len(), |k: int| elems[k]@)
}

/// The head of a stream: who sends it, the clock that its first entry builds
/// on, and the indices `first .. end` of the entries that follow.
#[derive(Clone, Debug)]
pub struct LogStream {
    pub sender_id: NodeId,
    pub prev_clock: Clock,
    pub first: u64,
    pub end: u64,
}

} // verus!
