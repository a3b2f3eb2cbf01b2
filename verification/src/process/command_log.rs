//! The command log: the entries of a node, and the four pointers that drive
//! commit, application and truncation.

use crate::clock::{Clock, Index, Term};
use crate::entry::{Entry, SnapshotTag};
use crate::payload::bytes_content;
use crate::process::command_log_laws::{
    lemma_advance_commit, lemma_append, lemma_applied, lemma_collect, lemma_commit_quorum,
    lemma_empty_wf, lemma_install_snapshot, lemma_place,
};
use crate::process::command_log_model::{LogView, StreamOutcome};
use crate::process::log_stream::{elem_views, LogStreamElem};
use crate::storage::memory::Storage;
use bytes::Bytes;
use std::collections::BTreeSet;
use vstd::prelude::*;

verus! {

/// Why the log refused an operation.
#[derive(Clone, Copy, Debug, PartialEq, Eq, Structural)]
pub enum LogError {
    /// The log has no index left.
    Full,
    /// An entry was offered for an index that is not the one of its clock,
    /// or not the one that follows its predecessor.
    Misplaced,
    /// An entry contradicts a committed entry.
    InvariantViolation,
}

/// The follower's answer to a stream.
#[derive(Clone, Copy, Debug, PartialEq, Eq, Structural)]
pub enum TryInsertResult {
    Accept,
    /// The log does not hold the entry that the stream builds on;
    /// `log_last_index` is the last index of the log.
    Reject { log_last_index: Index },
}

/// The greatest member of `set` that is at most `bound`.
fn greatest_at_most(set: &BTreeSet<u64>, bound: u64) -> (r: Option<u64>)
    ensures
        match r {
            Some(g) => set@.contains(g) && g <= bound && forall|t: u64|
                set@.contains(t) && t <= bound ==> t <= g,
            None => forall|t: u64| set@.contains(t) ==> t > bound,
        },
{
    let mut best: Option<u64> = None;
    for t in it: set.iter()
        invariant
            it.seq().unref().to_set() == set@,
            match best {
                Some(g) => set@.contains(g) && g <= bound && forall|j: int|
                    0 <= j < it.index() && *it.seq()[j] <= bound ==> *it.seq()[j] <= g,
                None => forall|j: int| 0 <= j < it.index() ==> *it.seq()[j] > bound,
            },
    {
        proof {
            assert(it.seq().unref()[it.index() as int] == *t);
            assert(it.seq().unref().to_set().contains(*t));
        }
        if *t <= bound {
            let better = match best {
                Some(g) => *t > g,
                None => true,
            };
            if better {
                best = Some(*t);
            }
        }
    }
    best
}

/// The entries of a node and its pointers.
pub struct CommandLog {
    storage: Storage,
    snapshot_pointer: Index,
    user_pointer: Index,
    commit_pointer: Index,
    last_log_index: Index,
}

impl View for CommandLog {
    type V = LogView;

    closed spec fn view(&self) -> LogView {
        LogView {
            entries: self.storage.entries(),
            tags: self.storage.tags(),
            snapshot_pointer: self.snapshot_pointer,
            user_pointer: self.user_pointer,
            commit_pointer: self.commit_pointer,
            last_log_index: self.last_log_index,
        }
    }
}

impl CommandLog {
    /// The store's own snapshot index is the snapshot pointer.
    pub closed spec fn storage_agrees(&self) -> bool {
        self.storage.snapshot_index() == self.snapshot_pointer
    }

    /// What holds of every command log between two operations.
    pub open spec fn wf(&self) -> bool {
        self@.wf() && self.storage_agrees()
    }

    /// An empty log with every pointer at 0.
    pub fn new() -> (log: CommandLog)
        ensures
            log.wf(),
            log@ == LogView::empty(),
    {
        proof {
            lemma_empty_wf();
        }
        CommandLog {
            storage: Storage::new(),
            snapshot_pointer: 0,
            user_pointer: 0,
            commit_pointer: 0,
            last_log_index: 0,
        }
    }

    /// Highest index covered by an installed snapshot.
    pub fn snapshot_pointer(&self) -> (r: Index)
        ensures
            r == self@.snapshot_pointer,
    {
        self.snapshot_pointer
    }

    /// Highest index whose command was delivered to the application.
    pub fn user_pointer(&self) -> (r: Index)
        ensures
            r == self@.user_pointer,
    {
        self.user_pointer
    }

    /// Highest index known to be stored on a quorum.
    pub fn commit_pointer(&self) -> (r: Index)
        ensures
            r == self@.commit_pointer,
    {
        self.commit_pointer
    }

    /// Highest index present in the log.
    pub fn get_log_last_index(&self) -> (r: Index)
        ensures
            r == self@.last_log_index,
    {
        self.last_log_index
    }

    /// The entry at `i`, if the log holds one.
    pub fn get_entry(&self, i: Index) -> (r: Option<Entry>)
        ensures
            match r {
                Some(e) => self@.entries.contains_key(i) && e@ == self@.entries[i],
                None => !self@.entries.contains_key(i),
            },
    {
        self.storage.get_entry(i)
    }

    /// The tag of the snapshot at `i`, if the log holds one.
    pub fn get_tag(&self, i: Index) -> (r: Option<SnapshotTag>)
        ensures
            match r {
                Some(tag) => self@.tags.contains_key(i) && tag@ == self@.tags[i],
                None => !self@.tags.contains_key(i),
            },
    {
        self.storage.get_tag(i)
    }

    /// Whether the log holds an entry with clock `c`.
    pub fn holds_clock(&self, c: Clock) -> (r: bool)
        ensures
            r == self@.holds_clock(c),
    {
        if c.index == 0 {
            c.term == 0
        } else {
            match self.storage.get_entry(c.index) {
                Some(e) => e.this_clock == c,
                None => false,
            }
        }
    }

    /// The clock of the last entry; that of position 0 where the log is
    /// empty.
    pub fn last_clock(&self) -> (c: Clock)
        requires
            self.wf(),
        ensures
            c == self@.clock_before((self@.last_log_index + 1) as Index),
            self@.holds_clock(c),
            c.index == self@.last_log_index,
    {
        if self.last_log_index == 0 {
            Clock::origin()
        } else {
            proof {
                assert(self@.entries.contains_key(self.last_log_index));
                assert(self@.placed(self.last_log_index));
            }
            match self.storage.get_entry(self.last_log_index) {
                Some(e) => e.this_clock,
                None => Clock::origin(),
            }
        }
    }

    /// Appends `command` as a leader of `term` does: at the index after the
    /// last, building on the last entry. Fails only where no index is left.
    pub fn append_new_entry(&mut self, command: Bytes, term: Term) -> (r: Result<Index, LogError>)
        requires
            old(self).wf(),
        ensures
            final(self).wf(),
            match r {
                Ok(i) => {
                    &&& old(self)@.last_log_index + 1 < u64::MAX
                    &&& i == old(self)@.last_log_index + 1
                    &&& final(self)@ == old(self)@.append(term, bytes_content(command))
                },
                Err(e) => {
                    &&& e == LogError::Full
                    &&& old(self)@.last_log_index + 1 == u64::MAX
                    &&& final(self)@ == old(self)@
                },
            },
    {
        if self.last_log_index >= u64::MAX - 1 {
            return Err(LogError::Full);
        }
        let prev_clock = self.last_clock();
        let index: Index = self.last_log_index + 1;
        proof {
            lemma_append(self@, term, bytes_content(command));
        }
        let entry = Entry { prev_clock, this_clock: Clock { term, index }, command };
        self.storage.insert_entry(index, entry);
        self.last_log_index = index;
        Ok(index)
    }

    /// Offers one entry for its index.
    fn place(&mut self, entry: Entry)
        requires
            old(self).wf(),
            old(self)@.admits(entry@),
        ensures
            final(self).wf(),
            final(self)@ == old(self)@.place(entry@),
    {
        let i: Index = entry.this_clock.index;
        proof {
            lemma_place(self@, entry@);
        }
        match self.storage.get_entry(i) {
            Some(cur) => {
                if cur.this_clock == entry.this_clock {
                } else {
                    self.storage.delete_from(i);
                    self.storage.insert_entry(i, entry);
                    self.last_log_index = i;
                }
            },
            None => {
                self.storage.insert_entry(i, entry);
                if i > self.last_log_index {
                    self.last_log_index = i;
                }
            },
        }
    }

    /// Whether `this_clock` differs from the clock of the committed entry at
    /// its index.
    fn conflicts_committed(&self, this_clock: Clock) -> (r: bool)
        ensures
            r == {
                &&& self@.entries.contains_key(this_clock.index)
                &&& self@.entries[this_clock.index].this_clock != this_clock
                &&& this_clock.index <= self@.commit_pointer
            },
    {
        if this_clock.index > self.commit_pointer {
            return false;
        }
        match self.storage.get_entry(this_clock.index) {
            Some(cur) => cur.this_clock != this_clock,
            None => false,
        }
    }

    /// Merges a stream into the log, as a follower does.
    ///
    /// The stream is rejected, with the last index of the log as a hint,
    /// unless the log holds `prev_clock`. Else its entries are offered one by
    /// one: an entry that the log holds already changes nothing; one that
    /// differs from an uncommitted entry replaces it and all that follow.
    /// The merge stops with `Misplaced` at an entry that does not follow its
    /// predecessor, and with `InvariantViolation` at one that contradicts a
    /// committed entry; what was merged before stays.
    pub fn try_insert_stream(&mut self, prev_clock: Clock, entries: &Vec<LogStreamElem>) -> (r:
        Result<TryInsertResult, LogError>)
        requires
            old(self).wf(),
        ensures
            final(self).wf(),
            final(self)@ == old(self)@.insert_stream(prev_clock, elem_views(entries@)).log,
            match old(self)@.insert_stream(prev_clock, elem_views(entries@)).outcome {
                StreamOutcome::Accepted => r == Ok::<TryInsertResult, LogError>(
                    TryInsertResult::Accept,
                ),
                StreamOutcome::Rejected => r == Ok::<TryInsertResult, LogError>(
                    TryInsertResult::Reject { log_last_index: old(self)@.last_log_index },
                ),
                StreamOutcome::Misplaced => r == Err::<TryInsertResult, LogError>(
                    LogError::Misplaced,
                ),
                StreamOutcome::Violation => r == Err::<TryInsertResult, LogError>(
                    LogError::InvariantViolation,
                ),
            },
    {
        if !self.holds_clock(prev_clock) {
            return Ok(TryInsertResult::Reject { log_last_index: self.last_log_index });
        }
        let ghost views = elem_views(entries@);
        let ghost start = self@;
        let mut prev: Clock = prev_clock;
        let mut k: usize = 0;
        proof {
            assert(views.skip(0) =~= views);
        }
        while k < entries.len()
            invariant
                self.wf(),
                self@.holds_clock(prev),
                k <= entries.len(),
                views == elem_views(entries@),
                start == old(self)@,
                start.holds_clock(prev_clock),
                self@.place_all(prev, views.skip(k as int)) == start.place_all(prev_clock, views),
            decreases entries.len() - k,
        {
            let elem = &entries[k];
            let ghost rest = views.skip(k as int);
            proof {
                assert(rest.len() > 0);
                assert(rest[0] == elem@);
                assert(rest.drop_first() =~= views.skip(k + 1));
                if prev.index != 0 {
                    assert(self@.entries.dom().contains(prev.index));
                }
            }
            let i: Index = elem.this_clock.index;
            if i == u64::MAX || i != prev.index + 1 {
                return Err(LogError::Misplaced);
            }
            if self.conflicts_committed(elem.this_clock) {
                return Err(LogError::InvariantViolation);
            }
            let entry = Entry {
                prev_clock: prev,
                this_clock: elem.this_clock,
                command: elem.command.clone(),
            };
            proof {
                lemma_place(self@, entry@);
            }
            self.place(entry);
            prev = elem.this_clock;
            k = k + 1;
        }
        Ok(TryInsertResult::Accept)
    }

    /// Raises the commit pointer to `new_commit`, or to the end of the log
    /// where `new_commit` lies beyond it. The pointer never falls.
    pub fn advance_commit_pointer(&mut self, new_commit: Index)
        requires
            old(self).wf(),
        ensures
            final(self).wf(),
            final(self)@ == old(self)@.advance_commit(new_commit),
    {
        proof {
            lemma_advance_commit(self@, new_commit);
        }
        let target: Index = if new_commit <= self.last_log_index {
            new_commit
        } else {
            self.last_log_index
        };
        if target > self.commit_pointer {
            self.commit_pointer = target;
        }
    }

    /// Commits up to `q`, an index that a majority stores, as a leader of
    /// `current_term` may: only where `q` lies beyond the commit pointer and
    /// the entry at `q` is of `current_term`. Says whether the pointer moved.
    pub fn commit_quorum(&mut self, q: Index, current_term: Term) -> (moved: bool)
        requires
            old(self).wf(),
        ensures
            final(self).wf(),
            final(self)@ == old(self)@.commit_quorum(q, current_term),
            moved == old(self)@.may_commit(q, current_term),
    {
        proof {
            lemma_commit_quorum(self@, q, current_term);
        }
        if q <= self.commit_pointer || q > self.last_log_index {
            return false;
        }
        match self.storage.get_entry(q) {
            Some(e) => {
                if e.this_clock.term == current_term {
                    self.commit_pointer = q;
                    true
                } else {
                    false
                }
            },
            None => false,
        }
    }

    /// The entry whose command the application is to be given next: the one
    /// behind the user pointer, where that is committed.
    pub fn next_to_apply(&self) -> (r: Option<Entry>)
        requires
            self.wf(),
        ensures
            match r {
                Some(e) => {
                    &&& self@.user_pointer < self@.commit_pointer
                    &&& e@ == self@.entries[(self@.user_pointer + 1) as Index]
                    &&& e@.this_clock.index == self@.user_pointer + 1
                },
                None => self@.user_pointer >= self@.commit_pointer,
            },
    {
        if self.user_pointer >= self.commit_pointer {
            return None;
        }
        let next: Index = self.user_pointer + 1;
        proof {
            assert(self@.entries.contains_key(next));
            assert(self@.placed(next));
        }
        match self.storage.get_entry(next) {
            Some(e) => Some(e),
            None => None,
        }
    }

    /// Records that the application took the command behind the user
    /// pointer. Says whether the pointer moved: it does not where nothing
    /// committed is left to apply.
    pub fn advance_user_pointer(&mut self) -> (moved: bool)
        requires
            old(self).wf(),
        ensures
            final(self).wf(),
            final(self)@ == old(self)@.applied(),
            moved == (old(self)@.user_pointer < old(self)@.commit_pointer),
    {
        proof {
            lemma_applied(self@);
        }
        if self.user_pointer < self.commit_pointer {
            self.user_pointer = self.user_pointer + 1;
            true
        } else {
            false
        }
    }

    /// Installs a snapshot: stores `snapshot_entry` at `index` and `tag` with
    /// it, and raises the snapshot, user and commit pointers to `index`
    /// where they were below it. The result says whether the user pointer
    /// rose, that is whether the application has to load the snapshot.
    ///
    /// Entries behind `index` stay where `index` is committed or the log
    /// holds an entry with the snapshot's clock there; else they go. Fails
    /// with `Misplaced` where `index` is 0 or the greatest index or is not
    /// that of the entry's clock, and with `InvariantViolation` where the
    /// committed entry at `index` has another clock.
    pub fn install_snapshot(&mut self, index: Index, snapshot_entry: Entry, tag: SnapshotTag) -> (r:
        Result<bool, LogError>)
        requires
            old(self).wf(),
        ensures
            final(self).wf(),
            match r {
                Ok(load) => {
                    &&& 1 <= index < u64::MAX
                    &&& snapshot_entry@.this_clock.index == index
                    &&& !old(self)@.snapshot_conflicts(snapshot_entry@)
                    &&& final(self)@ == old(self)@.install_snapshot(snapshot_entry@, tag@)
                    &&& load == (index > old(self)@.user_pointer)
                },
                Err(e) => {
                    &&& final(self)@ == old(self)@
                    &&& if index == 0 || index == u64::MAX || snapshot_entry@.this_clock.index
                        != index {
                        e == LogError::Misplaced
                    } else {
                        e == LogError::InvariantViolation && old(self)@.snapshot_conflicts(
                            snapshot_entry@,
                        )
                    }
                },
            },
    {
        if index == 0 || index == u64::MAX || snapshot_entry.this_clock.index != index {
            return Err(LogError::Misplaced);
        }
        if self.conflicts_committed(snapshot_entry.this_clock) {
            return Err(LogError::InvariantViolation);
        }
        proof {
            lemma_install_snapshot(self@, snapshot_entry@, tag@);
        }
        let same_clock = match self.storage.get_entry(index) {
            Some(cur) => cur.this_clock == snapshot_entry.this_clock,
            None => false,
        };
        let keeps_suffix = index <= self.commit_pointer || same_clock;
        let load = index > self.user_pointer;
        if !keeps_suffix {
            self.storage.delete_from(index);
        }
        self.storage.insert_snapshot(index, snapshot_entry);
        self.storage.put_tag(index, tag);
        if !keeps_suffix || index > self.last_log_index {
            self.last_log_index = index;
        }
        if index > self.snapshot_pointer {
            self.snapshot_pointer = index;
        }
        if index > self.user_pointer {
            self.user_pointer = index;
        }
        if index > self.commit_pointer {
            self.commit_pointer = index;
        }
        Ok(load)
    }

    /// Deletes what an installed snapshot has made superfluous: of the tags
    /// at or below the snapshot pointer the newest stays, and every tag and
    /// every entry below it goes. Returns the index of the tag that stayed;
    /// nothing changes where there is none.
    pub fn delete_old_snapshots(&mut self) -> (r: Option<Index>)
        requires
            old(self).wf(),
        ensures
            final(self).wf(),
            match r {
                Some(retained) => {
                    &&& old(self)@.is_retained_snapshot(retained)
                    &&& final(self)@ == old(self)@.collect(retained)
                },
                None => old(self)@.no_snapshot_to_retain() && final(self)@ == old(self)@,
            },
    {
        let tags = self.storage.list_tags();
        match greatest_at_most(&tags, self.snapshot_pointer) {
            Some(retained) => {
                proof {
                    lemma_collect(self@, retained);
                }
                self.storage.delete_before(retained);
                Some(retained)
            },
            None => None,
        }
    }
}

} // verus!
