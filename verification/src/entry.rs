//! Log entries and snapshot tags.

use crate::clock::Clock;
use crate::payload::bytes_content;
use bytes::Bytes;
use vstd::prelude::*;

verus! {

/// One record of the log.
///
/// `prev_clock` names the record that precedes this one; a follower checks it
/// against its own log before it accepts the record.
#[derive(Clone, Debug)]
pub struct Entry {
    pub prev_clock: Clock,
    pub this_clock: Clock,
    pub command: Bytes,
}

/// What an [`Entry`] is, as a mathematical value.
pub struct EntryView {
    pub prev_clock: Clock,
    pub this_clock: Clock,
    pub command: Seq<u8>,
}

impl View for Entry {
    type V = EntryView;

    open spec fn view(&self) -> EntryView {
        EntryView {
            prev_clock: self.prev_clock,
            this_clock: self.this_clock,
            command: bytes_content(self.command),
        }
    }
}

impl Entry {
    /// A second handle on the same record.
    pub fn duplicate(&self) -> (e: Entry)
        ensures
            e@ == self@,
    {
        Entry {
            prev_clock: self.prev_clock,
            this_clock: self.this_clock,
            command: self.command.clone(),
        }
    }
}

/// Handle of the storage backend on a materialised snapshot. The engine
/// stores and returns it and never interprets it.
#[derive(Clone, Debug)]
pub struct SnapshotTag {
    pub contents: Bytes,
}

impl View for SnapshotTag {
    type V = Seq<u8>;

    open spec fn view(&self) -> Seq<u8> {
        bytes_content(self.contents)
    }
}

impl SnapshotTag {
    /// A second handle on the same tag.
    pub fn duplicate(&self) -> (t: SnapshotTag)
        ensures
            t@ == self@,
    {
        SnapshotTag { contents: self.contents.clone() }
    }
}

} // verus!
