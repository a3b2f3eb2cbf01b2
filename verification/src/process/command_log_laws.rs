//! What every operation on the command log preserves.

use crate::clock::{Clock, Index, Term};
use crate::entry::EntryView;
use crate::process::command_log_model::LogView;
use crate::process::log_stream::ElemView;
use vstd::prelude::*;

verus! {

impl LogView {
    /// No committed entry of `self` is missing from `later` or differs
    /// there, and the commit pointer has not fallen.
    pub open spec fn committed_untouched_by(self, later: LogView) -> bool {
        &&& self.commit_pointer <= later.commit_pointer
        &&& forall|i: Index|
            i <= self.commit_pointer && #[trigger] self.entries.contains_key(i)
                ==> later.entries.contains_key(i) && later.entries[i] == self.entries[i]
    }

    /// The snapshot, user and commit pointers of `later` are not behind
    /// those of `self`.
    pub open spec fn not_ahead_of(self, later: LogView) -> bool {
        &&& self.snapshot_pointer <= later.snapshot_pointer
        &&& self.user_pointer <= later.user_pointer
        &&& self.commit_pointer <= later.commit_pointer
    }

    /// `e` may be offered for its index: that index is neither 0 nor the
    /// greatest, the log holds the entry that `e` names as the one before
    /// it, and `e` contradicts no committed entry.
    pub open spec fn admits(self, e: EntryView) -> bool {
        &&& 1 <= e.this_clock.index < u64::MAX
        &&& e.prev_clock.index + 1 == e.this_clock.index
        &&& self.holds_clock(e.prev_clock)
        &&& !self.conflicts_committed(e)
    }
}

impl LogView {
    /// Where both logs hold an entry of the same clock at `i`, behind both
    /// snapshots, they hold the same entry.
    pub open spec fn agrees_at(self, other: LogView, i: Index) -> bool {
        self.entries.contains_key(i) && other.entries.contains_key(i) && i > self.snapshot_pointer
            && i > other.snapshot_pointer && self.entries[i].this_clock
            == other.entries[i].this_clock ==> self.entries[i] == other.entries[i]
    }

    /// A clock stands for one entry: where both logs hold an entry of the
    /// same clock at the same index, behind both snapshots, it is the same
    /// entry.
    pub open spec fn agrees_with(self, other: LogView) -> bool {
        forall|i: Index| #[trigger] self.agrees_at(other, i)
    }
}

/// Log matching: if two logs hold an entry of the same clock at `i`, then at
/// every index `k` up to `i` that neither snapshot covers they hold the same
/// entry. This is stated of logs in which a clock stands for one entry.
pub proof fn lemma_log_matching(a: LogView, b: LogView, i: Index, k: Index)
    requires
        a.wf(),
        b.wf(),
        a.agrees_with(b),
        a.entries.contains_key(i),
        b.entries.contains_key(i),
        a.entries[i].this_clock == b.entries[i].this_clock,
        k <= i,
        k > a.snapshot_pointer,
        k > b.snapshot_pointer,
    ensures
        a.entries.contains_key(k),
        b.entries.contains_key(k),
        a.entries[k] == b.entries[k],
    decreases i - k,
{
    assert(a.agrees_at(b, i));
    if k < i {
        assert(a.chained(i));
        assert(b.chained(i));
        let before = (i - 1) as Index;
        assert(i <= a.last_log_index && i <= b.last_log_index);
        assert(a.entries.contains_key(before));
        assert(b.entries.contains_key(before));
        lemma_log_matching(a, b, before, k);
    }
}

/// Pointer order: in every log the snapshot pointer is at most the user
/// pointer, that at most the commit pointer, and that at most the last index.
/// Every operation keeps a log a log, and moves none of the three pointers
/// back: see the law of each.
pub proof fn lemma_pointer_order(log: LogView)
    requires
        log.wf(),
    ensures
        log.snapshot_pointer <= log.user_pointer,
        log.user_pointer <= log.commit_pointer,
        log.commit_pointer <= log.last_log_index,
{
}

/// The empty log is a log.
pub proof fn lemma_empty_wf()
    ensures
        LogView::empty().wf(),
{
}

/// A committed entry that is untouched has kept its clock.
pub proof fn lemma_untouched_is_kept(a: LogView, b: LogView)
    requires
        a.committed_untouched_by(b),
    ensures
        a.committed_kept_by(b),
{
}

/// What was untouched in each of two steps was untouched in both.
pub proof fn lemma_untouched_transitive(a: LogView, b: LogView, c: LogView)
    requires
        a.committed_untouched_by(b),
        b.committed_untouched_by(c),
    ensures
        a.committed_untouched_by(c),
{
    assert forall|i: Index| i <= a.commit_pointer && #[trigger] a.entries.contains_key(i) implies
        c.entries.contains_key(i) && c.entries[i] == a.entries[i] by {
        assert(b.entries.contains_key(i));
    }
}

/// Appending keeps a log a log, past its old end, and touches no committed
/// entry.
pub proof fn lemma_append(log: LogView, term: Term, command: Seq<u8>)
    requires
        log.wf(),
        log.last_log_index + 1 < u64::MAX,
    ensures
        log.append(term, command).wf(),
        log.committed_untouched_by(log.append(term, command)),
        log.append(term, command).holds_clock(
            Clock { term, index: (log.last_log_index + 1) as Index },
        ),
        log.not_ahead_of(log.append(term, command)),
{
    let after = log.append(term, command);
    let n = (log.last_log_index + 1) as Index;
    assert(!log.entries.contains_key(n));
    assert forall|i: Index| after.entries.contains_key(i) implies #[trigger] after.placed(i) by {
        if i != n {
            assert(log.placed(i));
        }
    }
    assert forall|i: Index|
        1 <= i && after.snapshot_pointer <= i <= after.last_log_index
            implies #[trigger] after.entries.contains_key(i) by {
        if i != n {
            assert(log.entries.contains_key(i));
        }
    }
    assert forall|i: Index|
        after.entries.contains_key(i) && i > after.snapshot_pointer
            implies #[trigger] after.chained(i) by {
        if i != n {
            assert(log.chained(i));
            assert(i - 1 != n);
        } else {
            assert(log.clock_before(n) == after.clock_before(n));
        }
    }
}

/// Raising the commit pointer keeps a log a log and touches no entry.
pub proof fn lemma_advance_commit(log: LogView, new_commit: Index)
    requires
        log.wf(),
    ensures
        log.advance_commit(new_commit).wf(),
        log.committed_untouched_by(log.advance_commit(new_commit)),
        log.not_ahead_of(log.advance_commit(new_commit)),
{
    let after = log.advance_commit(new_commit);
    assert forall|i: Index| after.entries.contains_key(i) implies #[trigger] after.placed(i) by {
        assert(log.placed(i));
    }
    assert forall|i: Index|
        after.entries.contains_key(i) && i > after.snapshot_pointer
            implies #[trigger] after.chained(i) by {
        assert(log.chained(i));
    }
}

/// Committing what a majority stores keeps a log a log, touches no entry,
/// and never moves the commit pointer back.
pub proof fn lemma_commit_quorum(log: LogView, q: Index, term: Term)
    requires
        log.wf(),
    ensures
        log.commit_quorum(q, term).wf(),
        log.committed_untouched_by(log.commit_quorum(q, term)),
        log.commit_quorum(q, term).entries == log.entries,
        log.not_ahead_of(log.commit_quorum(q, term)),
{
    let after = log.commit_quorum(q, term);
    assert forall|i: Index| after.entries.contains_key(i) implies #[trigger] after.placed(i) by {
        assert(log.placed(i));
    }
    assert forall|i: Index|
        after.entries.contains_key(i) && i > after.snapshot_pointer
            implies #[trigger] after.chained(i) by {
        assert(log.chained(i));
    }
}

/// Application in order: applying moves the user pointer by one step, to an
/// index that is committed, and by none where nothing is left to apply.
pub proof fn lemma_applied(log: LogView)
    requires
        log.wf(),
    ensures
        log.applied().wf(),
        log.applied().entries == log.entries,
        log.user_pointer < log.commit_pointer ==> log.applied().user_pointer == log.user_pointer
            + 1,
        log.user_pointer >= log.commit_pointer ==> log.applied() == log,
        log.applied().user_pointer <= log.commit_pointer,
        log.not_ahead_of(log.applied()),
{
    let after = log.applied();
    assert forall|i: Index| after.entries.contains_key(i) implies #[trigger] after.placed(i) by {
        assert(log.placed(i));
    }
    assert forall|i: Index|
        after.entries.contains_key(i) && i > after.snapshot_pointer
            implies #[trigger] after.chained(i) by {
        assert(log.chained(i));
    }
}

impl LogView {
    /// The log after `n` applications, one after the other.
    pub open spec fn applied_times(self, n: nat) -> LogView
        decreases n,
    {
        if n == 0 {
            self
        } else {
            self.applied_times((n - 1) as nat).applied()
        }
    }
}

/// Exactly-once application: `n` applications move the user pointer over `n`
/// indices, one at a time and none twice, and never past the commit
/// pointer; they change no entry.
pub proof fn lemma_applied_times(log: LogView, n: nat)
    requires
        log.wf(),
    ensures
        log.applied_times(n).wf(),
        log.applied_times(n).entries == log.entries,
        log.applied_times(n).commit_pointer == log.commit_pointer,
        log.applied_times(n).user_pointer == if log.user_pointer + n <= log.commit_pointer {
            log.user_pointer + n
        } else {
            log.commit_pointer as int
        },
    decreases n,
{
    if n > 0 {
        lemma_applied_times(log, (n - 1) as nat);
        lemma_applied(log.applied_times((n - 1) as nat));
    }
}

/// Offering an admissible entry keeps a log a log, leaves the log holding
/// the entry's clock, and touches no committed entry.
pub proof fn lemma_place(log: LogView, e: EntryView)
    requires
        log.wf(),
        log.admits(e),
    ensures
        log.place(e).wf(),
        log.place(e).holds_clock(e.this_clock),
        log.committed_untouched_by(log.place(e)),
        log.not_ahead_of(log.place(e)),
        log.place(e).not_ahead_of(log),
{
    let after = log.place(e);
    let i = e.this_clock.index;
    if log.entries.contains_key(i) && log.entries[i].this_clock == e.this_clock {
    } else {
        if i >= 2 {
            assert(log.entries.contains_key((i - 1) as Index));
            assert((i - 1) as Index <= log.last_log_index);
        }
        if log.entries.contains_key(i) {
            assert(i > log.commit_pointer);
            assert(after.entries.dom().contains(i));
        } else {
            assert(i < log.snapshot_pointer || i == log.last_log_index + 1) by {
                if 1 <= i && log.snapshot_pointer <= i <= log.last_log_index {
                    assert(log.entries.contains_key(i));
                }
            }
            assert(after.entries.dom().contains(i));
            if log.entries.dom().is_empty() {
            } else {
                assert(after.entries.dom().contains(log.last_log_index));
            }
        }
        assert forall|k: Index| after.entries.contains_key(k) implies #[trigger] after.placed(
            k,
        ) by {
            if k != i {
                assert(log.placed(k));
            }
        }
        assert forall|k: Index|
            1 <= k && after.snapshot_pointer <= k <= after.last_log_index
                implies #[trigger] after.entries.contains_key(k) by {
            if k != i {
                assert(log.entries.contains_key(k));
            }
        }
        assert forall|k: Index|
            after.entries.contains_key(k) && k > after.snapshot_pointer
                implies #[trigger] after.chained(k) by {
            if k != i {
                assert(log.chained(k));
                if k == i + 1 {
                    // only where a free index below the snapshot was filled
                    assert(log.entries.contains_key(k));
                    assert(!log.entries.contains_key(i));
                    assert(i < log.snapshot_pointer);
                }
            } else {
                if i >= 2 {
                    assert(after.entries[(i - 1) as Index] == log.entries[(i - 1) as Index]);
                }
            }
        }
        assert forall|k: Index|
            k <= log.commit_pointer && #[trigger] log.entries.contains_key(k)
                implies after.entries.contains_key(k) && after.entries[k] == log.entries[k] by {
            assert(k != i);
        }
    }
}

/// Committed immutability under replication: a stream, however it ends,
/// leaves a log a log and touches no committed entry.
pub proof fn lemma_place_all(log: LogView, prev: Clock, elems: Seq<ElemView>)
    requires
        log.wf(),
        log.holds_clock(prev),
    ensures
        log.place_all(prev, elems).log.wf(),
        log.committed_untouched_by(log.place_all(prev, elems).log),
        log.not_ahead_of(log.place_all(prev, elems).log),
        log.place_all(prev, elems).log.not_ahead_of(log),
        log.place_all(prev, elems).log.tags == log.tags,
        log.place_all(prev, elems).outcome !is Rejected,
        log.place_all(prev, elems).outcome is Accepted && elems.len() > 0 ==> log.place_all(
            prev,
            elems,
        ).log.holds_clock(elems.last().this_clock),
    decreases elems.len(),
{
    if elems.len() == 0 {
    } else {
        let head = elems[0];
        let e = EntryView { prev_clock: prev, this_clock: head.this_clock, command: head.command };
        if head.this_clock.index != prev.index + 1 || head.this_clock.index == u64::MAX {
        } else if log.conflicts_committed(e) {
        } else {
            lemma_place(log, e);
            let next = log.place(e);
            lemma_place_all(next, head.this_clock, elems.drop_first());
            lemma_untouched_transitive(
                log,
                next,
                next.place_all(head.this_clock, elems.drop_first()).log,
            );
            if elems.drop_first().len() > 0 {
                assert(elems.drop_first().last() == elems.last());
            }
        }
    }
}

/// Committed immutability on the follower: a stream, accepted or not,
/// leaves a log a log and touches no committed entry.
pub proof fn lemma_insert_stream(log: LogView, prev: Clock, elems: Seq<ElemView>)
    requires
        log.wf(),
    ensures
        log.insert_stream(prev, elems).log.wf(),
        log.committed_untouched_by(log.insert_stream(prev, elems).log),
        log.not_ahead_of(log.insert_stream(prev, elems).log),
        log.insert_stream(prev, elems).outcome is Rejected <==> !log.holds_clock(prev),
        log.insert_stream(prev, elems).outcome is Rejected ==> log.insert_stream(prev, elems).log
            == log,
{
    if log.holds_clock(prev) {
        lemma_place_all(log, prev, elems);
    }
}

/// Installing a snapshot that contradicts no committed entry keeps a log a
/// log and changes the clock of no committed entry.
pub proof fn lemma_install_snapshot(log: LogView, e: EntryView, tag: Seq<u8>)
    requires
        log.wf(),
        1 <= e.this_clock.index < u64::MAX,
        !log.snapshot_conflicts(e),
    ensures
        log.install_snapshot(e, tag).wf(),
        log.committed_kept_by(log.install_snapshot(e, tag)),
        log.install_snapshot(e, tag).snapshot_pointer >= e.this_clock.index,
        log.install_snapshot(e, tag).user_pointer >= e.this_clock.index,
        log.not_ahead_of(log.install_snapshot(e, tag)),
{
    let after = log.install_snapshot(e, tag);
    let i = e.this_clock.index;
    assert(after.entries.dom().contains(i));
    if log.snapshot_keeps_suffix(e) {
        if !log.entries.dom().is_empty() {
            assert(after.entries.dom().contains(log.last_log_index));
        }
        if !log.entries.contains_key(i) {
            assert(i < log.snapshot_pointer) by {
                if 1 <= i && log.snapshot_pointer <= i <= log.last_log_index {
                    assert(log.entries.contains_key(i));
                }
            }
        } else {
            assert(i <= log.last_log_index);
        }
    }
    assert forall|k: Index| after.entries.contains_key(k) implies #[trigger] after.placed(k) by {
        if k != i {
            assert(log.placed(k));
        }
    }
    assert forall|k: Index|
        1 <= k && after.snapshot_pointer <= k <= after.last_log_index
            implies #[trigger] after.entries.contains_key(k) by {
        if k != i {
            assert(log.entries.contains_key(k));
        }
    }
    assert forall|k: Index|
        after.entries.contains_key(k) && k > after.snapshot_pointer
            implies #[trigger] after.chained(k) by {
        assert(k != i);
        assert(log.entries.contains_key(k));
        assert(log.chained(k));
        if k - 1 != i && k >= 2 {
            assert(log.entries.contains_key((k - 1) as Index));
        }
    }
}

/// Deleting what lies below a snapshot keeps a log a log and changes no
/// entry that stays.
pub proof fn lemma_collect(log: LogView, r: Index)
    requires
        log.wf(),
        r <= log.snapshot_pointer,
    ensures
        log.collect(r).wf(),
        log.committed_kept_by(log.collect(r)),
        log.not_ahead_of(log.collect(r)),
        forall|i: Index| i >= r && log.entries.contains_key(i) ==> log.collect(r).entries[i]
            == log.entries[i],
{
    let after = log.collect(r);
    if !log.entries.dom().is_empty() {
        assert(after.entries.dom().contains(log.last_log_index));
    } else {
        assert(after.entries.dom() =~= log.entries.dom());
    }
    assert forall|k: Index| after.entries.contains_key(k) implies #[trigger] after.placed(k) by {
        assert(log.placed(k));
    }
    assert forall|k: Index|
        1 <= k && after.snapshot_pointer <= k <= after.last_log_index
            implies #[trigger] after.entries.contains_key(k) by {
        assert(log.entries.contains_key(k));
    }
    assert forall|k: Index|
        after.entries.contains_key(k) && k > after.snapshot_pointer
            implies #[trigger] after.chained(k) by {
        assert(log.chained(k));
    }
}

} // verus!
