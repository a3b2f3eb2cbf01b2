//! One round of replication to one follower: what to send, and what the
//! follower's answer does to the leader's record of it.

use crate::clock::Index;
use crate::node_id::NodeId;
use crate::process::command_log::CommandLog;
use crate::process::log_stream::{elem_of, elem_views, LogStream, LogStreamElem};
use crate::process::replication_laws::{carried, carried_at};
use crate::process::peer_svc::PeerSvc;
use vstd::prelude::*;

verus! {

/// What the leader knows of one follower.
#[derive(Clone, Copy, Debug, PartialEq, Eq, Structural)]
pub struct ReplicationProgress {
    /// Highest index known to be stored on the follower.
    pub match_index: Index,
    /// Next index to send.
    pub next_index: Index,
    /// How many entries the next round may carry.
    pub next_max_cnt: u64,
}

impl ReplicationProgress {
    /// The progress of a follower of which nothing is known yet.
    pub open spec fn spec_new(init_next_index: Index) -> ReplicationProgress {
        ReplicationProgress { match_index: 0, next_index: init_next_index, next_max_cnt: 1 }
    }

    /// The progress of a follower of which nothing is known yet: the round
    /// after it sends one entry, starting at `init_next_index`.
    #[verifier::when_used_as_spec(spec_new)]
    pub fn new(init_next_index: Index) -> (p: ReplicationProgress)
        ensures
            p == ReplicationProgress::spec_new(init_next_index),
    {
        ReplicationProgress { match_index: 0, next_index: init_next_index, next_max_cnt: 1 }
    }

    /// A window is never empty.
    pub open spec fn wf(self) -> bool {
        self.next_max_cnt >= 1
    }
}

/// What a round of replication does.
#[derive(Clone, Copy, Debug, PartialEq, Eq, Structural)]
pub enum Plan {
    /// The follower has been sent everything.
    Idle,
    /// The entries that the follower needs next were compacted away:
    /// replication starts over from the snapshot.
    Reset { progress: ReplicationProgress },
    /// Send the `count` entries that start at `first`.
    Send { first: Index, count: u64 },
}

/// How a follower answered a stream.
#[derive(Clone, Copy, Debug, PartialEq, Eq, Structural)]
pub enum Reply {
    /// The follower stored the entries.
    Accepted,
    /// The follower's log does not hold the entry that the stream builds on;
    /// `log_last_index` is the last index of its log.
    Rejected { log_last_index: Index },
    /// No answer: the peer was unreachable or the call timed out.
    Lost,
}

/// The smaller of two numbers.
pub open spec fn min_of(a: int, b: int) -> int {
    if a <= b {
        a
    } else {
        b
    }
}

/// Twice `n`, or the largest window where that does not fit.
pub open spec fn doubled(n: u64) -> u64 {
    if 2 * n <= u64::MAX {
        (2 * n) as u64
    } else {
        u64::MAX
    }
}

/// What a round does, given the follower's progress, the last index of the
/// leader's log and the index of the leader's snapshot.
pub open spec fn spec_plan(
    progress: ReplicationProgress,
    last_log_index: Index,
    snapshot_index: Index,
) -> Plan {
    if last_log_index < progress.next_index {
        Plan::Idle
    } else if progress.next_index < snapshot_index {
        Plan::Reset { progress: ReplicationProgress::spec_new(snapshot_index) }
    } else {
        Plan::Send {
            first: progress.next_index,
            count: min_of(
                progress.next_max_cnt as int,
                last_log_index - progress.next_index + 1,
            ) as u64,
        }
    }
}

/// The follower's progress after a round that sent `count` entries.
pub open spec fn spec_progress_after(
    old_progress: ReplicationProgress,
    count: u64,
    reply: Reply,
) -> ReplicationProgress {
    match reply {
        Reply::Accepted => ReplicationProgress {
            match_index: (old_progress.next_index + count - 1) as u64,
            next_index: (old_progress.next_index + count) as u64,
            next_max_cnt: doubled(count),
        },
        Reply::Rejected { log_last_index } => ReplicationProgress {
            match_index: old_progress.match_index,
            next_index: min_of(old_progress.next_index - 1, log_last_index + 1) as u64,
            next_max_cnt: 1,
        },
        Reply::Lost => old_progress,
    }
}

/// Decides what a round of replication to one follower does.
///
/// A plan to send carries at least one entry and none beyond the end of the
/// log.
pub fn plan_replication(
    progress: ReplicationProgress,
    last_log_index: Index,
    snapshot_index: Index,
) -> (plan: Plan)
    requires
        progress.wf(),
        last_log_index < u64::MAX,
    ensures
        plan == spec_plan(progress, last_log_index, snapshot_index),
        plan matches Plan::Send { first, count } ==> {
            &&& count >= 1
            &&& count <= progress.next_max_cnt
            &&& first + count - 1 <= last_log_index
        },
        plan matches Plan::Reset { progress: fresh } ==> fresh.wf(),
{
    if last_log_index < progress.next_index {
        return Plan::Idle;
    }
    if progress.next_index < snapshot_index {
        return Plan::Reset { progress: ReplicationProgress::new(snapshot_index) };
    }
    let n_max_possible: u64 = last_log_index - progress.next_index + 1;
    let n: u64 = if progress.next_max_cnt <= n_max_possible {
        progress.next_max_cnt
    } else {
        n_max_possible
    };
    Plan::Send { first: progress.next_index, count: n }
}

/// The follower's progress after it answered a stream of `count` entries that
/// started at its `next_index`.
///
/// Acceptance moves both indices past the entries and doubles the window;
/// rejection steps back and shrinks the window to one entry; a lost answer
/// changes nothing.
pub fn progress_after(old_progress: ReplicationProgress, count: u64, reply: Reply) -> (p:
    ReplicationProgress)
    requires
        count >= 1,
        old_progress.next_index >= 1,
        old_progress.next_index + count <= u64::MAX,
        old_progress.wf(),
    ensures
        p == spec_progress_after(old_progress, count, reply),
        p.wf(),
{
    match reply {
        Reply::Accepted => {
            let window: u64 = if count <= u64::MAX / 2 {
                count * 2
            } else {
                u64::MAX
            };
            ReplicationProgress {
                match_index: old_progress.next_index + (count - 1),
                next_index: old_progress.next_index + count,
                next_max_cnt: window,
            }
        },
        Reply::Rejected { log_last_index } => {
            let back: u64 = old_progress.next_index - 1;
            let next: u64 = if log_last_index < back {
                log_last_index + 1
            } else {
                back
            };
            ReplicationProgress {
                match_index: old_progress.match_index,
                next_index: next,
                next_max_cnt: 1,
            }
        },
        Reply::Lost => old_progress,
    }
}

/// Why a round of replication could not be prepared.
#[derive(Clone, Copy, Debug, PartialEq, Eq, Structural)]
pub enum ReplicationError {
    /// The leader's log holds no entry at the index that the stream starts
    /// at.
    EntryNotFound { index: Index },
}

/// What a round of replication has done, or asks its caller to do.
#[derive(Debug)]
pub enum Advance {
    /// Nothing is left to send.
    Idle,
    /// The follower's progress was reset to the snapshot.
    Reset,
    /// `stream` is to be sent. It carries `count` entries, and was planned
    /// from `progress`. Where `from_snapshot` is set, its first entry is the
    /// leader's snapshot: a follower that does not hold the entry before it
    /// has to install the snapshot instead.
    Send { stream: LogStream, count: u64, progress: ReplicationProgress, from_snapshot: bool },
}

impl Advance {
    /// Whether another round is due at once.
    pub open spec fn spec_again(&self) -> bool {
        !(self is Idle)
    }

    /// Whether another round is due at once: it is unless nothing was left
    /// to send.
    #[verifier::when_used_as_spec(spec_again)]
    pub fn again(&self) -> (r: bool)
        ensures
            r == self.spec_again(),
    {
        match self {
            Advance::Idle => false,
            _ => true,
        }
    }
}

impl PeerSvc {
    /// The head of the stream that carries the entries `l .. r`: it builds on
    /// the clock that the entry at `l` names as its predecessor. Fails
    /// exactly where the log holds no entry at `l`.
    pub fn prepare_replication_stream(
        selfid: NodeId,
        command_log: &CommandLog,
        l: Index,
        r: Index,
    ) -> (out: Result<LogStream, ReplicationError>)
        ensures
            match out {
                Ok(stream) => {
                    &&& command_log@.entries.contains_key(l)
                    &&& stream.sender_id == selfid
                    &&& stream.prev_clock == command_log@.entries[l].prev_clock
                    &&& stream.first == l
                    &&& stream.end == r
                },
                Err(e) => {
                    &&& !command_log@.entries.contains_key(l)
                    &&& e == ReplicationError::EntryNotFound { index: l }
                },
            },
    {
        match command_log.get_entry(l) {
            Some(head) => Ok(
                LogStream { sender_id: selfid, prev_clock: head.prev_clock, first: l, end: r },
            ),
            None => Err(ReplicationError::EntryNotFound { index: l }),
        }
    }

    /// The element of a stream that carries the entry at `idx`, if the log
    /// holds one.
    pub fn stream_elem(command_log: &CommandLog, idx: Index) -> (out: Option<LogStreamElem>)
        ensures
            match out {
                Some(elem) => {
                    &&& command_log@.entries.contains_key(idx)
                    &&& elem@ == elem_of(command_log@.entries[idx])
                },
                None => !command_log@.entries.contains_key(idx),
            },
    {
        match command_log.get_entry(idx) {
            Some(x) => Some(LogStreamElem { this_clock: x.this_clock, command: x.command }),
            None => None,
        }
    }

    /// The elements of a stream, in order: one for each index of
    /// `first .. end`. There are none to give where the log lacks one of
    /// the entries.
    pub fn stream_elems(command_log: &CommandLog, first: Index, end: Index) -> (out: Option<
        Vec<LogStreamElem>,
    >)
        ensures
            match out {
                Some(elems) => {
                    &&& elems@.len() == if first <= end {
                        end - first
                    } else {
                        0
                    }
                    &&& carried(elem_views(elems@), command_log@, first)
                },
                None => exists|i: Index|
                    first <= i < end && !command_log@.entries.contains_key(i),
            },
    {
        let mut elems: Vec<LogStreamElem> = Vec::new();
        let mut idx: Index = first;
        while idx < end
            invariant
                first <= idx,
                first <= end ==> idx <= end,
                first > end ==> idx == first,
                elems@.len() == idx - first,
                carried(elem_views(elems@), command_log@, first),
            decreases end - idx,
        {
            match PeerSvc::stream_elem(command_log, idx) {
                Some(elem) => {
                    let ghost before = elem_views(elems@);
                    elems.push(elem);
                    proof {
                        let after = elem_views(elems@);
                        assert forall|k: int| 0 <= k < after.len() implies #[trigger] carried_at(
                            after,
                            command_log@,
                            first,
                            k,
                        ) by {
                            if k < before.len() {
                                assert(carried_at(before, command_log@, first, k));
                                assert(after[k] == before[k]);
                            }
                        }
                    }
                },
                None => {
                    return None;
                },
            }
            idx = idx + 1;
        }
        Some(elems)
    }

    /// Starts a round of replication to `follower_id`.
    ///
    /// Nothing happens where the follower has been sent everything. Where
    /// the entries that it needs next were compacted away, its progress is
    /// reset to the snapshot. Else the head of the stream to send is
    /// returned, with the number of entries that it carries and the progress
    /// that it was planned from; the follower's progress stays as it is
    /// until [`PeerSvc::complete_replication`] records the answer.
    pub fn advance_replication(&mut self, follower_id: &NodeId, command_log: &CommandLog) -> (out:
        Result<Advance, ReplicationError>)
        requires
            old(self).wf(),
            old(self).has_peer(follower_id),
            command_log.wf(),
        ensures
            final(self).wf(),
            final(self).ids() == old(self).ids(),
            final(self).selfid() == old(self).selfid(),
            match spec_plan(
                old(self).progress_of(follower_id),
                command_log@.last_log_index,
                command_log@.snapshot_pointer,
            ) {
                Plan::Idle => {
                    &&& out matches Ok(Advance::Idle)
                    &&& final(self).progresses() == old(self).progresses()
                },
                Plan::Reset { progress } => {
                    &&& out matches Ok(Advance::Reset)
                    &&& final(self).progresses() == old(self).progresses().update(
                        old(self).position(follower_id),
                        progress,
                    )
                },
                Plan::Send { first, count } => {
                    &&& final(self).progresses() == old(self).progresses()
                    &&& if command_log@.entries.contains_key(first) {
                        &&& out matches Ok(
                            Advance::Send { stream, count: n, progress, from_snapshot },
                        )
                        &&& n == count
                        &&& from_snapshot == (first == command_log@.snapshot_pointer)
                        &&& count >= 1
                        &&& first >= 1
                        &&& progress == old(self).progress_of(follower_id)
                        &&& stream.sender_id == old(self).selfid()
                        &&& stream.prev_clock == command_log@.entries[first].prev_clock
                        &&& stream.first == first
                        &&& stream.end == first + count
                        &&& stream.end <= command_log@.last_log_index + 1
                    } else {
                        out == Err::<Advance, ReplicationError>(
                            ReplicationError::EntryNotFound { index: first },
                        )
                    }
                },
            },
    {
        let at = self.find(follower_id);
        let old_progress = self.progress_at(at);
        let cur_last_log_index = command_log.get_log_last_index();
        let cur_snapshot_index = command_log.snapshot_pointer();
        match plan_replication(old_progress, cur_last_log_index, cur_snapshot_index) {
            Plan::Idle => Ok(Advance::Idle),
            Plan::Reset { progress } => {
                self.set_progress_at(at, progress);
                Ok(Advance::Reset)
            },
            Plan::Send { first, count } => {
                let selfid = self.selfid_value();
                match PeerSvc::prepare_replication_stream(
                    selfid,
                    command_log,
                    first,
                    first + count,
                ) {
                    Ok(stream) => Ok(
                        Advance::Send {
                            stream,
                            count,
                            progress: old_progress,
                            from_snapshot: first == cur_snapshot_index,
                        },
                    ),
                    Err(e) => Err(e),
                }
            },
        }
    }

    /// Ends a round of replication to `follower_id`: records what the
    /// follower's answer to a stream of `count` entries, planned from
    /// `progress`, makes of its progress.
    pub fn complete_replication(
        &mut self,
        follower_id: &NodeId,
        progress: ReplicationProgress,
        count: u64,
        reply: Reply,
    )
        requires
            old(self).wf(),
            old(self).has_peer(follower_id),
            progress.wf(),
            count >= 1,
            progress.next_index >= 1,
            progress.next_index + count <= u64::MAX,
        ensures
            final(self).wf(),
            final(self).ids() == old(self).ids(),
            final(self).selfid() == old(self).selfid(),
            final(self).progresses() == old(self).progresses().update(
                old(self).position(follower_id),
                spec_progress_after(progress, count, reply),
            ),
    {
        let at = self.find(follower_id);
        let new_progress = progress_after(progress, count, reply);
        self.set_progress_at(at, new_progress);
    }
}

} // verus!
