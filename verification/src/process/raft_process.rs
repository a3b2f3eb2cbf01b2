//! A node as a whole: what a client write and a client read do to it, and
//! what the application of a committed entry does.

use crate::clock::{Clock, Index, Term};
use crate::node_id::NodeId;
use crate::payload::bytes_content;
use crate::process::command::{frame, unframe, Command, CommandView};
use crate::process::command_log::CommandLog;
use crate::process::command_log_model::LogView;
use crate::process::completion::UserCompletion;
use crate::process::peer_svc::commit::{is_quorum_index, match_indices};
use crate::process::peer_svc::replication::ReplicationProgress;
use crate::process::peer_svc::PeerSvc;
use crate::process::query_queue::{waiting_at, Query, QueryQueue};
use crate::process::request_registry::{
    same_bytes, Recall, RecallView, RegistryView, RequestRegistry,
};
use crate::process::voter::{Ballot, Voter, VoterView};
use bytes::Bytes;
use vstd::prelude::*;

verus! {

/// Whether the entry at `i` stores a write with request id `id`.
pub open spec fn holds_request(log: LogView, i: Index, id: Seq<u8>) -> bool {
    &&& log.entries.contains_key(i)
    &&& unframe(log.entries[i].command) matches Some(c)
    &&& c.request_id == id
}

/// The first index from `from` on whose entry stores a write with request id
/// `id`; the index after the last where there is none.
pub open spec fn first_with_request(log: LogView, id: Seq<u8>, from: int) -> int
    decreases log.last_log_index + 1 - from,
{
    if from > log.last_log_index {
        log.last_log_index + 1
    } else if holds_request(log, from as Index, id) {
        from
    } else {
        first_with_request(log, id, from + 1)
    }
}

/// The first unapplied entry that stores a write with request id `id`; the
/// index after the last where there is none.
pub open spec fn unapplied_with_request(log: LogView, id: Seq<u8>) -> int {
    first_with_request(log, id, log.user_pointer + 1)
}

/// What became of a client write.
#[derive(Debug)]
pub enum WriteOutcome {
    /// This node does not lead. The client is to try `leader`, where one is
    /// known. The promise comes back unanswered.
    NotLeader { leader: Option<NodeId>, completion: UserCompletion },
    /// The write was appended at `index`. The client is answered when the
    /// entry has been applied.
    Appended { index: Index },
    /// An entry for this request id is in the log at `index` already. The
    /// client is answered when it has been applied.
    Attached { index: Index },
    /// The write was applied before, and the client was given the answer of
    /// that time; `delivered` says whether it was still waiting.
    Answered { delivered: bool },
    /// The log has no index left. The promise comes back unanswered.
    Full { completion: UserCompletion },
}

/// What became of a client read.
#[derive(Debug)]
pub enum ReadOutcome {
    /// This node does not lead. The query comes back.
    NotLeader { leader: Option<NodeId>, query: Query },
    /// The query waits for the log to be applied up to `read_index`.
    Registered { read_index: Index },
}

/// The parts of a node.
pub struct RaftProcess {
    pub voter: Voter,
    pub command_log: CommandLog,
    pub peers: PeerSvc,
    pub query_queue: QueryQueue,
    pub registry: RequestRegistry,
}

impl RaftProcess {
    /// What holds of every node between two operations.
    pub open spec fn wf(&self) -> bool {
        &&& self.command_log.wf()
        &&& self.peers.wf()
        &&& self.registry.wf()
    }

    /// A node that has just started, with an empty log and no peers. Its
    /// registry keeps at most `capacity` answers, each for `ttl_millis`
    /// milliseconds.
    pub fn new(selfid: NodeId, capacity: usize, ttl_millis: u64) -> (p: RaftProcess)
        ensures
            p.wf(),
            p.command_log@ == LogView::empty(),
            p.voter@ == VoterView::initial(selfid),
            p.peers.selfid() == selfid,
            p.peers.ids() == Seq::<NodeId>::empty(),
            p.query_queue.reserved() == Map::<Index, Seq<Query>>::empty(),
            p.registry@ == (RegistryView {
                pending: Seq::empty(),
                answered: Seq::empty(),
                capacity: capacity as nat,
                ttl: ttl_millis,
            }),
    {
        let peers_id = selfid.duplicate();
        RaftProcess {
            voter: Voter::new(selfid),
            command_log: CommandLog::new(),
            peers: PeerSvc::new(peers_id),
            query_queue: QueryQueue::new(),
            registry: RequestRegistry::new(capacity, ttl_millis),
        }
    }

    /// Counts the votes of the election of `term`: `grants` nodes agreed,
    /// this one among them, in a cluster of this node and its peers. Where
    /// that makes this node the leader, it starts over with every follower:
    /// each is to be sent the entry after the last of the log next. Says
    /// whether this node now leads.
    pub fn conclude_election(&mut self, term: Term, grants: usize) -> (won: bool)
        requires
            old(self).wf(),
            old(self).peers.ids().len() < usize::MAX,
        ensures
            final(self).wf(),
            final(self).command_log == old(self).command_log,
            final(self).query_queue == old(self).query_queue,
            final(self).registry == old(self).registry,
            final(self).peers.ids() == old(self).peers.ids(),
            final(self).voter@ == old(self).voter@.counted(
                term,
                grants as nat,
                old(self).peers.ids().len() + 1,
            ),
            won == old(self).voter@.wins(term, grants as nat, old(self).peers.ids().len() + 1),
            won ==> final(self).peers.progresses() == Seq::new(
                old(self).peers.ids().len(),
                |i: int|
                    ReplicationProgress::spec_new(
                        (old(self).command_log@.last_log_index + 1) as Index,
                    ),
            ),
            !won ==> final(self).peers.progresses() == old(self).peers.progresses(),
    {
        let cluster_size = self.peers.len() + 1;
        let won = self.voter.count_votes(term, grants, cluster_size);
        if won {
            let last = self.command_log.get_log_last_index();
            self.peers.reset_progress(last);
        }
        won
    }

    /// Answers the request of `candidate` for a vote in `term`, whose log
    /// ends in `candidate_last`: see [`Voter::receive_request_vote`], with
    /// the clock of the last entry of this node's log as its own.
    pub fn receive_request_vote(&mut self, term: Term, candidate: &NodeId, candidate_last: Clock) -> (ballot:
        Ballot)
        requires
            old(self).wf(),
        ensures
            final(self).wf(),
            final(self).command_log == old(self).command_log,
            final(self).peers == old(self).peers,
            final(self).query_queue == old(self).query_queue,
            final(self).registry == old(self).registry,
            final(self).voter@ == old(self).voter@.asked(
                term,
                *candidate,
                candidate_last,
                old(self).command_log@.clock_before(
                    (old(self).command_log@.last_log_index + 1) as Index,
                ),
            ),
            ballot.granted == old(self).voter@.grants(
                term,
                *candidate,
                candidate_last,
                old(self).command_log@.clock_before(
                    (old(self).command_log@.last_log_index + 1) as Index,
                ),
            ),
            ballot.term == final(self).voter@.current_term,
    {
        let own_last = self.command_log.last_clock();
        self.voter.receive_request_vote(term, candidate, candidate_last, own_last)
    }

    /// Answers a heartbeat of `term` from `leader` that carries the leader's
    /// commit pointer: see [`Voter::receive_heartbeat`]. Where the heartbeat
    /// is accepted, the commit pointer rises towards `commit_index`.
    pub fn receive_heartbeat(&mut self, term: Term, leader: &NodeId, commit_index: Index) -> (ballot:
        Ballot)
        requires
            old(self).wf(),
        ensures
            final(self).wf(),
            final(self).peers == old(self).peers,
            final(self).query_queue == old(self).query_queue,
            final(self).registry == old(self).registry,
            final(self).voter@ == old(self).voter@.heartbeat(term, *leader),
            ballot.granted == old(self).voter@.follows(term),
            ballot.term == final(self).voter@.current_term,
            final(self).command_log@ == if ballot.granted {
                old(self).command_log@.advance_commit(commit_index)
            } else {
                old(self).command_log@
            },
    {
        let ballot = self.voter.receive_heartbeat(term, leader);
        if ballot.granted {
            self.command_log.advance_commit_pointer(commit_index);
        }
        ballot
    }

    /// Commits what a majority of the cluster stores, as a leader does after
    /// a follower's match index has moved: up to the greatest index that a
    /// majority stores, where the entry at that index is of the leader's
    /// term. Says whether the commit pointer moved. A node that does not
    /// lead commits nothing.
    pub fn commit_replicated(&mut self) -> (moved: bool)
        requires
            old(self).wf(),
        ensures
            final(self).wf(),
            final(self).voter == old(self).voter,
            final(self).peers == old(self).peers,
            final(self).query_queue == old(self).query_queue,
            final(self).registry == old(self).registry,
            !(old(self).voter@.role is Leader) ==> !moved && final(self).command_log@ == old(
                self,
            ).command_log@,
            old(self).voter@.role is Leader ==> exists|q: Index|
                {
                    &&& #[trigger] is_quorum_index(
                        match_indices(old(self).peers.progresses()).push(
                            old(self).command_log@.last_log_index,
                        ),
                        q,
                    )
                    &&& final(self).command_log@ == old(self).command_log@.commit_quorum(
                        q,
                        old(self).voter@.current_term,
                    )
                    &&& moved == old(self).command_log@.may_commit(
                        q,
                        old(self).voter@.current_term,
                    )
                },
    {
        if !self.voter.is_leader() {
            return false;
        }
        let last = self.command_log.get_log_last_index();
        let q = self.peers.find_new_commit_index(last);
        self.command_log.commit_quorum(q, self.voter.current_term())
    }

    /// The first unapplied entry that stores a write with `request_id`, if
    /// there is one.
    pub fn find_unapplied(&self, request_id: &Vec<u8>) -> (r: Option<Index>)
        requires
            self.command_log.wf(),
        ensures
            match r {
                Some(i) => i == unapplied_with_request(self.command_log@, request_id@) && i
                    <= self.command_log@.last_log_index,
                None => unapplied_with_request(self.command_log@, request_id@)
                    == self.command_log@.last_log_index + 1,
            },
    {
        let last = self.command_log.get_log_last_index();
        let mut i: Index = self.command_log.user_pointer() + 1;
        while i <= last
            invariant
                self.command_log.wf(),
                last == self.command_log@.last_log_index,
                self.command_log@.user_pointer + 1 <= i <= last + 1,
                unapplied_with_request(self.command_log@, request_id@) == first_with_request(
                    self.command_log@,
                    request_id@,
                    i as int,
                ),
            decreases last + 1 - i,
        {
            let found = match self.command_log.get_entry(i) {
                Some(entry) => match Command::decode(&entry.command) {
                    Some(command) => same_bytes(&command.request_id, request_id),
                    None => false,
                },
                None => false,
            };
            if found {
                return Some(i);
            }
            i = i + 1;
        }
        None
    }

    /// Takes a client write.
    ///
    /// A node that does not lead hands the promise back with a hint at the
    /// leader. A leader looks the request id up: a write that was applied of
    /// late is answered at once with the answer of that time; one whose
    /// entry waits to be applied, or is found unapplied in the log, is
    /// attached to that entry; only a write that is new is appended, as an
    /// entry of the leader's term that stores the request id and the
    /// message.
    pub fn write(
        &mut self,
        request_id: Vec<u8>,
        message: Vec<u8>,
        completion: UserCompletion,
        now: u64,
    ) -> (out: WriteOutcome)
        requires
            old(self).wf(),
        ensures
            final(self).wf(),
            final(self).voter@ == old(self).voter@,
            final(self).peers == old(self).peers,
            final(self).query_queue == old(self).query_queue,
            !(old(self).voter@.role is Leader) ==> {
                &&& out matches WriteOutcome::NotLeader { leader, completion: back }
                &&& leader == old(self).voter@.leader
                &&& back == completion
                &&& final(self).command_log@ == old(self).command_log@
                &&& final(self).registry@ == old(self).registry@
            },
            old(self).voter@.role is Leader ==> match old(self).registry@.recall(request_id@, now) {
                RecallView::Done { response } => {
                    &&& out is Answered
                    &&& final(self).command_log@ == old(self).command_log@
                    &&& final(self).registry@ == old(self).registry@.recalled(request_id@, now)
                },
                RecallView::Pending { index } => {
                    &&& out matches WriteOutcome::Attached { index: at }
                    &&& at == index
                    &&& final(self).command_log@ == old(self).command_log@
                    &&& final(self).registry@ == old(self).registry@.begun(
                        request_id@,
                        index,
                        completion,
                    )
                },
                RecallView::Unknown => {
                    let log = old(self).command_log@;
                    let found = unapplied_with_request(log, request_id@);
                    if found <= log.last_log_index {
                        &&& out matches WriteOutcome::Attached { index: at }
                        &&& at == found
                        &&& final(self).command_log@ == log
                        &&& final(self).registry@ == old(self).registry@.begun(
                            request_id@,
                            found as Index,
                            completion,
                        )
                    } else if log.last_log_index + 1 < u64::MAX {
                        &&& out matches WriteOutcome::Appended { index: at }
                        &&& at == log.last_log_index + 1
                        &&& final(self).command_log@ == log.append(
                            old(self).voter@.current_term,
                            frame(CommandView { request_id: request_id@, message: message@ }),
                        )
                        &&& final(self).registry@ == old(self).registry@.begun(
                            request_id@,
                            at,
                            completion,
                        )
                    } else {
                        &&& out matches WriteOutcome::Full { completion: back }
                        &&& back == completion
                        &&& final(self).command_log@ == log
                        &&& final(self).registry@ == old(self).registry@
                    }
                },
            },
    {
        if !self.voter.is_leader() {
            return WriteOutcome::NotLeader { leader: self.voter.leader_hint(), completion };
        }
        match self.registry.recall(&request_id, now) {
            Recall::Done { response } => {
                let delivered = completion.complete_with(response);
                WriteOutcome::Answered { delivered }
            },
            Recall::Pending { index } => {
                self.registry.begin(request_id, index, completion);
                WriteOutcome::Attached { index }
            },
            Recall::Unknown => {
                match self.find_unapplied(&request_id) {
                    Some(index) => {
                        self.registry.begin(request_id, index, completion);
                        WriteOutcome::Attached { index }
                    },
                    None => {
                        let command = Command { request_id, message };
                        let term = self.voter.current_term();
                        match self.command_log.append_new_entry(command.encode(), term) {
                            Ok(index) => {
                                self.registry.begin(command.request_id, index, completion);
                                WriteOutcome::Appended { index }
                            },
                            Err(_) => WriteOutcome::Full { completion },
                        }
                    },
                }
            },
        }
    }

    /// Records that the application took the command behind the user
    /// pointer and answered it with `response` at `now`. Returns those that
    /// wait for that answer. Nothing changes, and nobody is returned, where
    /// nothing committed is left to apply.
    ///
    /// Where the entry stores a write, its request id waits no more, and the
    /// answer is kept for retries.
    pub fn complete_apply(&mut self, response: Bytes, now: u64) -> (waiters: Vec<UserCompletion>)
        requires
            old(self).wf(),
        ensures
            final(self).wf(),
            final(self).voter == old(self).voter,
            final(self).peers == old(self).peers,
            final(self).query_queue == old(self).query_queue,
            final(self).command_log@ == old(self).command_log@.applied(),
            ({
                let log = old(self).command_log@;
                let next = (log.user_pointer + 1) as Index;
                if log.user_pointer < log.commit_pointer {
                    match unframe(log.entries[next].command) {
                        Some(c) => {
                            &&& final(self).registry@ == old(self).registry@.finished(
                                c.request_id,
                                bytes_content(response),
                                now,
                            )
                            &&& waiters@ == old(self).registry@.waiters_of(c.request_id)
                        },
                        None => {
                            &&& final(self).registry@ == old(self).registry@
                            &&& waiters@ == Seq::<UserCompletion>::empty()
                        },
                    }
                } else {
                    &&& final(self).registry@ == old(self).registry@
                    &&& waiters@ == Seq::<UserCompletion>::empty()
                }
            }),
    {
        match self.command_log.next_to_apply() {
            Some(entry) => {
                let _ = self.command_log.advance_user_pointer();
                match Command::decode(&entry.command) {
                    Some(command) => self.registry.finish(command.request_id, response, now),
                    None => Vec::new(),
                }
            },
            None => Vec::new(),
        }
    }

    /// Takes a client read. A node that does not lead hands the query back
    /// with a hint at the leader. A leader lets it wait until the log is
    /// applied up to the commit pointer of this moment.
    pub fn read(&mut self, query: Query) -> (out: ReadOutcome)
        requires
            old(self).wf(),
        ensures
            final(self).wf(),
            final(self).voter@ == old(self).voter@,
            final(self).command_log == old(self).command_log,
            final(self).peers == old(self).peers,
            final(self).registry == old(self).registry,
            if old(self).voter@.role is Leader {
                &&& out matches ReadOutcome::Registered { read_index }
                &&& read_index == old(self).command_log@.commit_pointer
                &&& final(self).query_queue.reserved() == old(self).query_queue.reserved().insert(
                    read_index,
                    waiting_at(old(self).query_queue.reserved(), read_index).push(query),
                )
            } else {
                &&& out matches ReadOutcome::NotLeader { leader, query: back }
                &&& leader == old(self).voter@.leader
                &&& back == query
                &&& final(self).query_queue == old(self).query_queue
            },
    {
        if !self.voter.is_leader() {
            return ReadOutcome::NotLeader { leader: self.voter.leader_hint(), query };
        }
        let read_index = self.command_log.commit_pointer();
        self.query_queue.register(read_index, query);
        ReadOutcome::Registered { read_index }
    }
}

} // verus!
