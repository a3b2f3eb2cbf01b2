//! Terms, votes and roles: who may lead.

use crate::clock::{Clock, Term};
use crate::node_id::NodeId;
use crate::process::peer_svc::commit::majority;
use crate::vote::Vote;
use vstd::prelude::*;

verus! {

/// What a node is in the cluster at the moment.
#[derive(Clone, Copy, Debug, PartialEq, Eq, Structural)]
pub enum Role {
    Follower,
    Candidate,
    Leader,
}

/// The answer to a request for a vote, and to a heartbeat: the term of the
/// node that answers, and whether it agreed.
#[derive(Clone, Copy, Debug, PartialEq, Eq, Structural)]
pub struct Ballot {
    pub term: Term,
    pub granted: bool,
}

/// The election state of a node.
pub struct Voter {
    selfid: NodeId,
    role: Role,
    vote: Vote,
    leader: Option<NodeId>,
}

/// The election state of a node, as a mathematical value.
pub struct VoterView {
    pub selfid: NodeId,
    pub role: Role,
    pub current_term: Term,
    pub voted_for: Option<NodeId>,
    /// The node that this one believes to lead, where it knows of one.
    pub leader: Option<NodeId>,
}

impl VoterView {
    /// The state of a node that has just started: a follower in term 0 that
    /// has not voted and knows no leader.
    pub open spec fn initial(selfid: NodeId) -> VoterView {
        VoterView { selfid, role: Role::Follower, current_term: 0, voted_for: None, leader: None }
    }

    /// The state after the election timer fired. A leader ignores it. Any
    /// other node becomes a candidate of the next term and votes for itself.
    /// Nothing changes where there is no next term.
    pub open spec fn timed_out(self) -> VoterView {
        if self.role is Leader || self.current_term == u64::MAX {
            self
        } else {
            VoterView {
                role: Role::Candidate,
                current_term: (self.current_term + 1) as Term,
                voted_for: Some(self.selfid),
                leader: None,
                ..self
            }
        }
    }

    /// Whether `grants` votes of `term`, the candidate's own among them, make
    /// this node the leader of a cluster of `cluster_size` nodes.
    pub open spec fn wins(self, term: Term, grants: nat, cluster_size: nat) -> bool {
        &&& self.role is Candidate
        &&& term == self.current_term
        &&& grants >= majority(cluster_size)
    }

    /// The state after the votes of an election were counted.
    pub open spec fn counted(self, term: Term, grants: nat, cluster_size: nat) -> VoterView {
        if self.wins(term, grants, cluster_size) {
            VoterView { role: Role::Leader, leader: Some(self.selfid), ..self }
        } else {
            self
        }
    }

    /// The state after a message of `term` was seen: a later term makes the
    /// node a follower of that term that has not voted.
    pub open spec fn observed(self, term: Term) -> VoterView {
        if term > self.current_term {
            VoterView {
                role: Role::Follower,
                current_term: term,
                voted_for: None,
                leader: None,
                ..self
            }
        } else {
            self
        }
    }

    /// Whether this node has no vote to give to `candidate`: it voted in
    /// this term, and for another node.
    pub open spec fn vote_taken(self, candidate: NodeId) -> bool {
        self.voted_for matches Some(chosen) && !chosen.same(&candidate)
    }

    /// Whether this node grants its vote to `candidate`, which asks for it in
    /// `term` with a log that ends in `candidate_last`, while the log of this
    /// node ends in `own_last`: the term is not stale, the node has not
    /// voted for another in that term, and the candidate's log is at least
    /// as up to date as its own.
    pub open spec fn grants(
        self,
        term: Term,
        candidate: NodeId,
        candidate_last: Clock,
        own_last: Clock,
    ) -> bool {
        &&& term >= self.current_term
        &&& !self.observed(term).vote_taken(candidate)
        &&& candidate_last.spec_at_least_as_recent_as(own_last)
    }

    /// The state after a request for a vote was answered.
    pub open spec fn asked(
        self,
        term: Term,
        candidate: NodeId,
        candidate_last: Clock,
        own_last: Clock,
    ) -> VoterView {
        let seen = self.observed(term);
        if self.grants(term, candidate, candidate_last, own_last) && seen.voted_for is None {
            VoterView { voted_for: Some(candidate), ..seen }
        } else {
            seen
        }
    }

    /// Whether this node accepts a heartbeat of `term`: the term is not
    /// stale, and the node does not itself lead in that term.
    pub open spec fn follows(self, term: Term) -> bool {
        term >= self.current_term && !(term == self.current_term && self.role is Leader)
    }

    /// The state after a heartbeat of `term` from `leader` was answered.
    pub open spec fn heartbeat(self, term: Term, leader: NodeId) -> VoterView {
        if self.follows(term) {
            VoterView { role: Role::Follower, leader: Some(leader), ..self.observed(term) }
        } else {
            self
        }
    }

    /// The term has not fallen from `self` to `later`, and a vote given in a
    /// term stands for the rest of it.
    pub open spec fn vote_stands_in(self, later: VoterView) -> bool {
        &&& self.current_term <= later.current_term
        &&& self.current_term == later.current_term && self.voted_for is Some
            ==> later.voted_for == self.voted_for
    }
}

/// Terms never fall, and a node votes for at most one candidate in a term:
/// whatever happens to a node, its term does not fall, and the vote that it
/// gave in a term stands while the term lasts.
pub proof fn lemma_one_vote_per_term(
    v: VoterView,
    term: Term,
    other: NodeId,
    candidate_last: Clock,
    own_last: Clock,
    grants: nat,
    cluster_size: nat,
)
    ensures
        v.vote_stands_in(v.timed_out()),
        v.vote_stands_in(v.counted(term, grants, cluster_size)),
        v.vote_stands_in(v.observed(term)),
        v.vote_stands_in(v.asked(term, other, candidate_last, own_last)),
        v.vote_stands_in(v.heartbeat(term, other)),
{
}

/// A vote is granted only to a candidate whose log is at least as up to date
/// as the voter's, and never in a stale term.
pub proof fn lemma_grant_needs_recent_log(
    v: VoterView,
    term: Term,
    candidate: NodeId,
    candidate_last: Clock,
    own_last: Clock,
)
    requires
        v.grants(term, candidate, candidate_last, own_last),
    ensures
        term >= v.current_term,
        candidate_last.term > own_last.term || (candidate_last.term == own_last.term
            && candidate_last.index >= own_last.index),
        v.asked(term, candidate, candidate_last, own_last).current_term == term,
        v.asked(term, candidate, candidate_last, own_last).voted_for matches Some(chosen) && (
        chosen == candidate || chosen.same(&candidate)),
{
}

impl View for Voter {
    type V = VoterView;

    closed spec fn view(&self) -> VoterView {
        VoterView {
            selfid: self.selfid,
            role: self.role,
            current_term: self.vote.current_term,
            voted_for: self.vote.voted_for,
            leader: self.leader,
        }
    }
}

impl Voter {
    /// The election state of a node that has just started.
    pub fn new(selfid: NodeId) -> (v: Voter)
        ensures
            v@ == VoterView::initial(selfid),
    {
        Voter { selfid, role: Role::Follower, vote: Vote::new(), leader: None }
    }

    /// The election state of a node that starts again with the vote that it
    /// had stored: a follower that knows no leader.
    pub fn restore(selfid: NodeId, vote: Vote) -> (v: Voter)
        ensures
            v@ == (VoterView {
                selfid,
                role: Role::Follower,
                current_term: vote.current_term,
                voted_for: vote.voted_for,
                leader: None,
            }),
    {
        Voter { selfid, role: Role::Follower, vote, leader: None }
    }

    pub fn role(&self) -> (r: Role)
        ensures
            r == self@.role,
    {
        self.role
    }

    pub fn current_term(&self) -> (t: Term)
        ensures
            t == self@.current_term,
    {
        self.vote.current_term
    }

    /// Whether this node leads.
    pub fn is_leader(&self) -> (r: bool)
        ensures
            r == (self@.role is Leader),
    {
        match self.role {
            Role::Leader => true,
            _ => false,
        }
    }

    /// The term and the vote, to be stored.
    pub fn vote(&self) -> (v: Vote)
        ensures
            v.current_term == self@.current_term,
            v.voted_for == self@.voted_for,
    {
        self.vote.duplicate()
    }

    /// The node that this one believes to lead, where it knows of one.
    pub fn leader_hint(&self) -> (r: Option<NodeId>)
        ensures
            r == self@.leader,
    {
        match &self.leader {
            Some(id) => Some(id.duplicate()),
            None => None,
        }
    }

    /// The election timer fired. Says whether the node now stands for
    /// election, in which case it asks every peer for a vote in its new
    /// term.
    pub fn election_timeout(&mut self) -> (stands: bool)
        ensures
            final(self)@ == old(self)@.timed_out(),
            stands == !(old(self)@.role is Leader || old(self)@.current_term == u64::MAX),
    {
        if self.is_leader() || self.vote.current_term == u64::MAX {
            return false;
        }
        self.role = Role::Candidate;
        self.vote = Vote {
            current_term: self.vote.current_term + 1,
            voted_for: Some(self.selfid.duplicate()),
        };
        self.leader = None;
        true
    }

    /// The votes of the election of `term` were counted: `grants` of
    /// `cluster_size` nodes agreed, the candidate's own vote among them.
    /// Says whether this node now leads.
    pub fn count_votes(&mut self, term: Term, grants: usize, cluster_size: usize) -> (won: bool)
        ensures
            final(self)@ == old(self)@.counted(term, grants as nat, cluster_size as nat),
            won == old(self)@.wins(term, grants as nat, cluster_size as nat),
    {
        let candidate = match self.role {
            Role::Candidate => true,
            _ => false,
        };
        if candidate && term == self.vote.current_term && grants >= cluster_size / 2 + 1 {
            self.role = Role::Leader;
            self.leader = Some(self.selfid.duplicate());
            true
        } else {
            false
        }
    }

    /// A message of `term` was seen. Says whether the node stepped down to
    /// follow a later term.
    pub fn observe_term(&mut self, term: Term) -> (stepped_down: bool)
        ensures
            final(self)@ == old(self)@.observed(term),
            stepped_down == (term > old(self)@.current_term),
    {
        if term > self.vote.current_term {
            self.role = Role::Follower;
            self.vote = Vote { current_term: term, voted_for: None };
            self.leader = None;
            true
        } else {
            false
        }
    }

    /// Answers the request of `candidate` for a vote in `term`. The
    /// candidate's log ends in `candidate_last`, this node's in `own_last`.
    pub fn receive_request_vote(
        &mut self,
        term: Term,
        candidate: &NodeId,
        candidate_last: Clock,
        own_last: Clock,
    ) -> (ballot: Ballot)
        ensures
            final(self)@ == old(self)@.asked(term, *candidate, candidate_last, own_last),
            ballot.granted == old(self)@.grants(term, *candidate, candidate_last, own_last),
            ballot.term == final(self)@.current_term,
    {
        if term < self.vote.current_term {
            return Ballot { term: self.vote.current_term, granted: false };
        }
        let _ = self.observe_term(term);
        let free = match &self.vote.voted_for {
            Some(chosen) => chosen.is_same(candidate),
            None => true,
        };
        let granted = free && candidate_last.at_least_as_recent_as(own_last);
        if granted && self.vote.voted_for.is_none() {
            self.vote = Vote {
                current_term: self.vote.current_term,
                voted_for: Some(candidate.duplicate()),
            };
        }
        Ballot { term: self.vote.current_term, granted }
    }

    /// Answers a heartbeat of `term` from `leader`.
    pub fn receive_heartbeat(&mut self, term: Term, leader: &NodeId) -> (ballot: Ballot)
        ensures
            final(self)@ == old(self)@.heartbeat(term, *leader),
            ballot.granted == old(self)@.follows(term),
            ballot.term == final(self)@.current_term,
    {
        if term < self.vote.current_term || (term == self.vote.current_term && self.is_leader()) {
            return Ballot { term: self.vote.current_term, granted: false };
        }
        let _ = self.observe_term(term);
        self.role = Role::Follower;
        self.leader = Some(leader.duplicate());
        Ballot { term: self.vote.current_term, granted: true }
    }
}

} // verus!
