//! The command log as a mathematical value, and what each operation does to
//! it.

use crate::clock::{Clock, Index, Term};
use crate::entry::EntryView;
use crate::process::log_stream::ElemView;
use crate::storage::memory::{below, is_last_index, not_before};
use vstd::prelude::*;

verus! {

/// The larger of two indices.
pub open spec fn max_index(a: Index, b: Index) -> Index {
    if a >= b {
        a
    } else {
        b
    }
}

/// The smaller of two indices.
pub open spec fn min_index(a: Index, b: Index) -> Index {
    if a <= b {
        a
    } else {
        b
    }
}

/// The entries of a log, its snapshot tags and its four pointers.
pub struct LogView {
    pub entries: Map<Index, EntryView>,
    pub tags: Map<Index, Seq<u8>>,
    /// Highest index covered by an installed snapshot.
    pub snapshot_pointer: Index,
    /// Highest index whose command was delivered to the application.
    pub user_pointer: Index,
    /// Highest index known to be stored on a quorum.
    pub commit_pointer: Index,
    /// Highest index present in the log.
    pub last_log_index: Index,
}

/// How the insertion of a stream ended.
pub enum StreamOutcome {
    /// Every entry of the stream is in the log.
    Accepted,
    /// The log does not hold the entry that the stream builds on.
    Rejected,
    /// An entry of the stream does not follow the one before it.
    Misplaced,
    /// An entry of the stream contradicts a committed entry.
    Violation,
}

/// The log after a stream, and how the insertion ended.
pub struct StreamEnd {
    pub log: LogView,
    pub outcome: StreamOutcome,
}

impl LogView {
    /// A log without entries, with every pointer at 0.
    pub open spec fn empty() -> LogView {
        LogView {
            entries: Map::empty(),
            tags: Map::empty(),
            snapshot_pointer: 0,
            user_pointer: 0,
            commit_pointer: 0,
            last_log_index: 0,
        }
    }

    /// The pointers stand in their order.
    pub open spec fn pointers_ordered(self) -> bool {
        self.snapshot_pointer <= self.user_pointer <= self.commit_pointer <= self.last_log_index
    }

    /// The clock of the entry before index `i`; that of position 0 where `i`
    /// is the first index.
    pub open spec fn clock_before(self, i: Index) -> Clock {
        if i <= 1 {
            Clock::spec_origin()
        } else {
            self.entries[(i - 1) as Index].this_clock
        }
    }

    /// The entry at `i` names the entry before it.
    pub open spec fn chained(self, i: Index) -> bool {
        self.entries[i].prev_clock == self.clock_before(i)
    }

    /// The entry at `i` carries `i` in its clock.
    pub open spec fn placed(self, i: Index) -> bool {
        self.entries[i].this_clock.index == i
    }

    /// The log holds an entry with clock `c`. Position 0 holds the clock of
    /// the origin.
    pub open spec fn holds_clock(self, c: Clock) -> bool {
        if c.index == 0 {
            c == Clock::spec_origin()
        } else {
            self.entries.contains_key(c.index) && self.entries[c.index].this_clock == c
        }
    }

    /// What holds of every log: the pointers stand in their order; the last
    /// index is that of the last entry; every entry sits at the index of its
    /// clock; from the snapshot on no index is missing; and every entry
    /// behind the snapshot names the entry before it.
    pub open spec fn wf(self) -> bool {
        &&& self.pointers_ordered()
        &&& self.last_log_index < u64::MAX
        &&& is_last_index(self.entries.dom(), self.last_log_index)
        &&& !self.entries.contains_key(0)
        &&& forall|i: Index| self.entries.contains_key(i) ==> #[trigger] self.placed(i)
        &&& forall|i: Index|
            1 <= i && self.snapshot_pointer <= i <= self.last_log_index
                ==> #[trigger] self.entries.contains_key(i)
        &&& forall|i: Index|
            self.entries.contains_key(i) && i > self.snapshot_pointer ==> #[trigger] self.chained(
                i,
            )
    }

    /// The entry that a leader of `term` appends for `command`.
    pub open spec fn next_entry(self, term: Term, command: Seq<u8>) -> EntryView {
        EntryView {
            prev_clock: self.clock_before((self.last_log_index + 1) as Index),
            this_clock: Clock { term, index: (self.last_log_index + 1) as Index },
            command,
        }
    }

    /// The log after a leader of `term` appended `command`.
    pub open spec fn append(self, term: Term, command: Seq<u8>) -> LogView {
        LogView {
            entries: self.entries.insert(
                (self.last_log_index + 1) as Index,
                self.next_entry(term, command),
            ),
            last_log_index: (self.last_log_index + 1) as Index,
            ..self
        }
    }

    /// The log after the commit pointer was raised towards `new_commit`: it
    /// never falls, and never passes the end of the log.
    pub open spec fn advance_commit(self, new_commit: Index) -> LogView {
        LogView {
            commit_pointer: max_index(
                self.commit_pointer,
                min_index(new_commit, self.last_log_index),
            ),
            ..self
        }
    }

    /// Whether a leader of `term` may commit up to `q`: `q` lies beyond the
    /// commit pointer and within the log, and the entry at `q` is of `term`.
    pub open spec fn may_commit(self, q: Index, term: Term) -> bool {
        &&& self.commit_pointer < q <= self.last_log_index
        &&& self.entries.contains_key(q)
        &&& self.entries[q].this_clock.term == term
    }

    /// The log after a leader of `term` found `q` stored on a majority: the
    /// commit pointer moves to `q` where the leader may commit it, and stays
    /// where it may not.
    pub open spec fn commit_quorum(self, q: Index, term: Term) -> LogView {
        if self.may_commit(q, term) {
            LogView { commit_pointer: q, ..self }
        } else {
            self
        }
    }

    /// The log after the command behind the user pointer was applied.
    pub open spec fn applied(self) -> LogView {
        if self.user_pointer < self.commit_pointer {
            LogView { user_pointer: (self.user_pointer + 1) as Index, ..self }
        } else {
            self
        }
    }

    /// `e` differs from the entry at its index, and that entry is committed.
    pub open spec fn conflicts_committed(self, e: EntryView) -> bool {
        let i = e.this_clock.index;
        &&& self.entries.contains_key(i)
        &&& self.entries[i].this_clock != e.this_clock
        &&& i <= self.commit_pointer
    }

    /// The log after `e` was offered for its index: nothing changes where the
    /// log holds an entry with that clock; an entry with another clock goes,
    /// with all that follow it, and `e` takes its place; where the index is
    /// free, `e` is stored.
    pub open spec fn place(self, e: EntryView) -> LogView {
        let i = e.this_clock.index;
        if self.entries.contains_key(i) && self.entries[i].this_clock == e.this_clock {
            self
        } else if self.entries.contains_key(i) {
            LogView {
                entries: self.entries.restrict(below(i)).insert(i, e),
                last_log_index: i,
                ..self
            }
        } else {
            LogView {
                entries: self.entries.insert(i, e),
                last_log_index: max_index(self.last_log_index, i),
                ..self
            }
        }
    }

    /// The log after the elements of a stream were offered one by one, the
    /// first building on `prev`. The insertion stops at the first element
    /// that does not follow its predecessor, or that contradicts a committed
    /// entry.
    pub open spec fn place_all(self, prev: Clock, elems: Seq<ElemView>) -> StreamEnd
        decreases elems.len(),
    {
        if elems.len() == 0 {
            StreamEnd { log: self, outcome: StreamOutcome::Accepted }
        } else {
            let head = elems[0];
            let e = EntryView {
                prev_clock: prev,
                this_clock: head.this_clock,
                command: head.command,
            };
            if head.this_clock.index != prev.index + 1 || head.this_clock.index == u64::MAX {
                StreamEnd { log: self, outcome: StreamOutcome::Misplaced }
            } else if self.conflicts_committed(e) {
                StreamEnd { log: self, outcome: StreamOutcome::Violation }
            } else {
                self.place(e).place_all(head.this_clock, elems.drop_first())
            }
        }
    }

    /// The log after a follower was sent a stream that builds on `prev`: it
    /// is rejected, and nothing changes, unless the log holds `prev`.
    pub open spec fn insert_stream(self, prev: Clock, elems: Seq<ElemView>) -> StreamEnd {
        if self.holds_clock(prev) {
            self.place_all(prev, elems)
        } else {
            StreamEnd { log: self, outcome: StreamOutcome::Rejected }
        }
    }

    /// The snapshot entry `e` differs from the committed entry at its index.
    pub open spec fn snapshot_conflicts(self, e: EntryView) -> bool {
        self.conflicts_committed(e)
    }

    /// Whether the entries behind the index of the snapshot entry `e` stay
    /// when it is installed: they do where the index is committed, and where
    /// the log holds an entry with the clock of `e`.
    pub open spec fn snapshot_keeps_suffix(self, e: EntryView) -> bool {
        let i = e.this_clock.index;
        i <= self.commit_pointer || (self.entries.contains_key(i) && self.entries[i].this_clock
            == e.this_clock)
    }

    /// The log after the snapshot entry `e` was installed under `tag`: the
    /// entry and the tag are stored at its index, and the snapshot, user and
    /// commit pointers rise to that index where they were below it.
    pub open spec fn install_snapshot(self, e: EntryView, tag: Seq<u8>) -> LogView {
        let i = e.this_clock.index;
        LogView {
            entries: if self.snapshot_keeps_suffix(e) {
                self.entries.insert(i, e)
            } else {
                self.entries.restrict(below(i)).insert(i, e)
            },
            tags: self.tags.insert(i, tag),
            snapshot_pointer: max_index(self.snapshot_pointer, i),
            user_pointer: max_index(self.user_pointer, i),
            commit_pointer: max_index(self.commit_pointer, i),
            last_log_index: if self.snapshot_keeps_suffix(e) {
                max_index(self.last_log_index, i)
            } else {
                i
            },
        }
    }

    /// `r` is the index of the newest tag at or below the snapshot pointer.
    pub open spec fn is_retained_snapshot(self, r: Index) -> bool {
        &&& self.tags.contains_key(r)
        &&& r <= self.snapshot_pointer
        &&& forall|t: Index|
            self.tags.contains_key(t) && t <= self.snapshot_pointer ==> t <= r
    }

    /// No tag lies at or below the snapshot pointer.
    pub open spec fn no_snapshot_to_retain(self) -> bool {
        forall|t: Index| self.tags.contains_key(t) ==> t > self.snapshot_pointer
    }

    /// The log after the entries and the tags below `r` were deleted.
    pub open spec fn collect(self, r: Index) -> LogView {
        LogView {
            entries: self.entries.restrict(not_before(r)),
            tags: self.tags.restrict(not_before(r)),
            ..self
        }
    }

    /// No committed entry of `self` has another clock in `later`, and the
    /// commit pointer has not fallen.
    pub open spec fn committed_kept_by(self, later: LogView) -> bool {
        &&& self.commit_pointer <= later.commit_pointer
        &&& forall|i: Index|
            i <= self.commit_pointer && self.entries.contains_key(i)
                && #[trigger] later.entries.contains_key(i) ==> later.entries[i].this_clock
                == self.entries[i].this_clock
    }
}

} // verus!
