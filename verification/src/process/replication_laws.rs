//! What replication preserves between the log of a leader and the log of a
//! follower.

use crate::clock::{Clock, Index, Term};
use crate::entry::EntryView;
use crate::process::command_log_laws::lemma_place;
use crate::process::command_log_model::LogView;
use crate::process::log_stream::{elem_of, ElemView};
use vstd::prelude::*;

verus! {

/// The element at place `k` of `elems` carries the entry of `leader` at
/// index `first + k`.
pub open spec fn carried_at(elems: Seq<ElemView>, leader: LogView, first: Index, k: int) -> bool {
    leader.entries.contains_key((first + k) as Index) && elems[k] == elem_of(
        leader.entries[(first + k) as Index],
    )
}

/// `elems` carry the entries of `leader` from index `first` on, one for each
/// index.
pub open spec fn carried(elems: Seq<ElemView>, leader: LogView, first: Index) -> bool {
    forall|k: int| 0 <= k < elems.len() ==> #[trigger] carried_at(elems, leader, first, k)
}

/// `follower` holds at `i` an entry with the clock of the leader's entry at
/// `i`, and the same entry where `i` lies behind the follower's snapshot.
pub open spec fn copied_at(leader: LogView, follower: LogView, i: Index) -> bool {
    &&& follower.entries.contains_key(i)
    &&& follower.entries[i].this_clock == leader.entries[i].this_clock
    &&& i > follower.snapshot_pointer ==> follower.entries[i] == leader.entries[i]
}

/// What `before` holds at `j`, `after` holds, and the other way round.
pub open spec fn same_at(before: LogView, after: LogView, j: Index) -> bool {
    &&& before.entries.contains_key(j) == after.entries.contains_key(j)
    &&& before.entries.contains_key(j) ==> before.entries[j] == after.entries[j]
}

/// Below `bound` the two logs hold the same entries.
pub open spec fn same_below(before: LogView, after: LogView, bound: Index) -> bool {
    forall|j: Index| j < bound ==> #[trigger] same_at(before, after, j)
}

/// Appending on the leader keeps a clock standing for one entry, where no
/// other log holds the new clock yet.
pub proof fn lemma_append_keeps_agreement(
    leader: LogView,
    other: LogView,
    term: Term,
    command: Seq<u8>,
)
    requires
        leader.wf(),
        leader.agrees_with(other),
        !other.holds_clock(Clock { term, index: (leader.last_log_index + 1) as Index }),
    ensures
        leader.append(term, command).agrees_with(other),
{
    let after = leader.append(term, command);
    let n = (leader.last_log_index + 1) as Index;
    assert forall|i: Index| #[trigger] after.agrees_at(other, i) by {
        if i != n {
            assert(leader.agrees_at(other, i));
        }
    }
}

/// Offering the follower an entry of the leader keeps a clock standing for
/// one entry, and changes nothing below the entry's index.
pub proof fn lemma_place_keeps_agreement(leader: LogView, follower: LogView, i: Index)
    requires
        leader.wf(),
        follower.wf(),
        leader.agrees_with(follower),
        leader.entries.contains_key(i),
        i > leader.snapshot_pointer,
        follower.admits(leader.entries[i]),
    ensures
        leader.agrees_with(follower.place(leader.entries[i])),
        copied_at(leader, follower.place(leader.entries[i]), i),
        same_below(follower, follower.place(leader.entries[i]), i),
        follower.place(leader.entries[i]).snapshot_pointer == follower.snapshot_pointer,
{
    let e = leader.entries[i];
    let after = follower.place(e);
    assert(leader.placed(i));
    assert(leader.agrees_at(follower, i));
    assert forall|j: Index| #[trigger] leader.agrees_at(after, j) by {
        assert(leader.agrees_at(follower, j));
    }
    assert forall|j: Index| j < i implies #[trigger] same_at(follower, after, j) by {
    }
}

/// Replication copies the leader's log: a stream that carries entries of
/// the leader from `first` on, behind the leader's snapshot, is never
/// misplaced; it keeps a clock standing for one entry; and where it is
/// accepted the follower holds, at each index of the stream, the leader's
/// entry.
pub proof fn lemma_stream_copies(
    leader: LogView,
    follower: LogView,
    first: Index,
    elems: Seq<ElemView>,
)
    requires
        leader.wf(),
        follower.wf(),
        leader.agrees_with(follower),
        first >= 1,
        first > leader.snapshot_pointer,
        carried(elems, leader, first),
        follower.holds_clock(leader.clock_before(first)),
    ensures
        ({
            let end = follower.place_all(leader.clock_before(first), elems);
            &&& end.log.wf()
            &&& leader.agrees_with(end.log)
            &&& end.outcome is Accepted || end.outcome is Violation
            &&& same_below(follower, end.log, first)
            &&& end.log.snapshot_pointer == follower.snapshot_pointer
            &&& end.outcome is Accepted ==> forall|k: int|
                0 <= k < elems.len() ==> #[trigger] copied_at(
                    leader,
                    end.log,
                    (first + k) as Index,
                )
        }),
    decreases elems.len(),
{
    let prev = leader.clock_before(first);
    let end = follower.place_all(prev, elems);
    if elems.len() == 0 {
        assert forall|j: Index| j < first implies #[trigger] same_at(follower, end.log, j) by {
        }
    } else {
        assert(carried_at(elems, leader, first, 0));
        let e = leader.entries[first];
        assert(leader.placed(first));
        assert(leader.chained(first));
        assert(first <= leader.last_log_index);
        if first >= 2 {
            assert(leader.entries.contains_key((first - 1) as Index));
            assert(leader.placed((first - 1) as Index));
        }
        let head = elems[0];
        let offered = EntryView {
            prev_clock: prev,
            this_clock: head.this_clock,
            command: head.command,
        };
        assert(offered == e);
        if follower.conflicts_committed(e) {
            assert forall|j: Index| j < first implies #[trigger] same_at(follower, end.log, j) by {
            }
        } else {
            lemma_place(follower, e);
            lemma_place_keeps_agreement(leader, follower, first);
            let next = follower.place(e);
            let rest = elems.drop_first();
            let then = (first + 1) as Index;
            assert(leader.clock_before(then) == e.this_clock);
            assert forall|k: int| 0 <= k < rest.len() implies #[trigger] carried_at(
                rest,
                leader,
                then,
                k,
            ) by {
                assert(carried_at(elems, leader, first, k + 1));
            }
            if rest.len() > 0 {
                assert(carried_at(rest, leader, then, 0));
            }
            lemma_stream_copies(leader, next, then, rest);
            assert(end == next.place_all(e.this_clock, rest));
            assert forall|j: Index| j < first implies #[trigger] same_at(follower, end.log, j) by {
                assert(same_at(follower, next, j));
                assert(same_at(next, end.log, j));
            }
            if end.outcome is Accepted {
                assert forall|k: int| 0 <= k < elems.len() implies #[trigger] copied_at(
                    leader,
                    end.log,
                    (first + k) as Index,
                ) by {
                    if k == 0 {
                        assert(copied_at(leader, next, first));
                        assert(same_at(next, end.log, first));
                    } else {
                        assert(copied_at(leader, end.log, (then + (k - 1)) as Index));
                    }
                }
            }
        }
    }
}

/// One round of replication, as the follower sees it: a stream that carries
/// entries of the leader from `first` on, and builds on the leader's entry
/// before `first`, is rejected and changes nothing where the follower does
/// not hold that entry; else it is merged as [`lemma_stream_copies`] says.
/// Either way a clock goes on standing for one entry in both logs.
pub proof fn lemma_replication_round(
    leader: LogView,
    follower: LogView,
    first: Index,
    elems: Seq<ElemView>,
)
    requires
        leader.wf(),
        follower.wf(),
        leader.agrees_with(follower),
        first >= 1,
        first > leader.snapshot_pointer,
        carried(elems, leader, first),
    ensures
        ({
            let end = follower.insert_stream(leader.clock_before(first), elems);
            &&& end.log.wf()
            &&& leader.agrees_with(end.log)
            &&& !(end.outcome is Misplaced)
            &&& end.outcome is Rejected ==> end.log == follower
            &&& end.outcome is Accepted ==> forall|k: int|
                0 <= k < elems.len() ==> #[trigger] copied_at(
                    leader,
                    end.log,
                    (first + k) as Index,
                )
        }),
{
    if follower.holds_clock(leader.clock_before(first)) {
        lemma_stream_copies(leader, follower, first, elems);
    }
}

} // verus!
