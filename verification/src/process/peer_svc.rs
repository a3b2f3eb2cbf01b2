//! Replication from the leader to its followers.

use crate::clock::Index;
use crate::node_id::NodeId;
use crate::process::peer_svc::replication::ReplicationProgress;
use vstd::prelude::*;

pub mod commit;
pub mod replication;

verus! {

/// The followers of a leader, and what it knows of each.
pub struct PeerSvc {
    selfid: NodeId,
    ids: Vec<NodeId>,
    progresses: Vec<ReplicationProgress>,
}

impl PeerSvc {
    /// The identity of this node.
    pub closed spec fn selfid(&self) -> NodeId {
        self.selfid
    }

    /// The identities of the followers, in the order in which they joined.
    pub closed spec fn ids(&self) -> Seq<NodeId> {
        self.ids@
    }

    /// The progress of each follower, in the same order.
    pub closed spec fn progresses(&self) -> Seq<ReplicationProgress> {
        self.progresses@
    }

    /// Every follower has its progress, and every window is at least 1.
    pub open spec fn wf(&self) -> bool {
        &&& self.ids().len() == self.progresses().len()
        &&& forall|i: int| 0 <= i < self.progresses().len() ==> (#[trigger] self.progresses()[i]).wf()
    }

    /// Whether `id` names one of the first `n` followers.
    pub open spec fn among_first(&self, id: &NodeId, n: int) -> bool {
        exists|i: int| 0 <= i < n && i < self.ids().len() && (#[trigger] self.ids()[i]).same(id)
    }

    /// Whether `id` names a follower.
    pub open spec fn has_peer(&self, id: &NodeId) -> bool {
        self.among_first(id, self.ids().len() as int)
    }

    /// The place of the first follower that `id` names.
    pub open spec fn position(&self, id: &NodeId) -> int {
        choose|i: int|
            0 <= i < self.ids().len() && (#[trigger] self.ids()[i]).same(id) && !self.among_first(
                id,
                i,
            )
    }

    /// The progress of the follower that `id` names.
    pub open spec fn progress_of(&self, id: &NodeId) -> ReplicationProgress {
        self.progresses()[self.position(id)]
    }

    /// A leader without followers.
    pub fn new(selfid: NodeId) -> (svc: PeerSvc)
        ensures
            svc.wf(),
            svc.selfid() == selfid,
            svc.ids() == Seq::<NodeId>::empty(),
            svc.progresses() == Seq::<ReplicationProgress>::empty(),
    {
        PeerSvc { selfid, ids: Vec::new(), progresses: Vec::new() }
    }

    /// A second value for the identity of this node.
    pub fn selfid_value(&self) -> (id: NodeId)
        ensures
            id == self.selfid(),
    {
        self.selfid.duplicate()
    }

    /// How many followers there are.
    pub fn len(&self) -> (n: usize)
        ensures
            n == self.ids().len(),
    {
        self.ids.len()
    }

    /// The place of the first follower that `id` names, or the number of
    /// followers where it names none.
    pub fn find(&self, id: &NodeId) -> (at: usize)
        requires
            self.wf(),
        ensures
            self.has_peer(id) ==> at == self.position(id) && at < self.ids().len(),
            !self.has_peer(id) ==> at == self.ids().len(),
    {
        let mut i: usize = 0;
        while i < self.ids.len()
            invariant
                i <= self.ids.len(),
                !self.among_first(id, i as int),
            decreases self.ids.len() - i,
        {
            if self.ids[i].is_same(id) {
                proof {
                    let w = i as int;
                    assert(self.ids()[w].same(id));
                    assert(self.among_first(id, self.ids().len() as int));
                    let p = self.position(id);
                    assert(0 <= p < self.ids().len() && self.ids()[p].same(id)
                        && !self.among_first(id, p));
                    if p < w {
                        assert(self.among_first(id, w));
                    }
                    if w < p {
                        assert(self.among_first(id, p));
                    }
                }
                return i;
            }
            i = i + 1;
        }
        i
    }

    /// Whether `id` names a follower.
    pub fn knows(&self, id: &NodeId) -> (r: bool)
        requires
            self.wf(),
        ensures
            r == self.has_peer(id),
    {
        self.find(id) < self.ids.len()
    }

    /// The progress of the follower at place `at`.
    pub fn progress_at(&self, at: usize) -> (p: ReplicationProgress)
        requires
            self.wf(),
            at < self.ids().len(),
        ensures
            p == self.progresses()[at as int],
            p.wf(),
    {
        self.progresses[at]
    }

    /// The progress of the follower that `id` names, if it names one.
    pub fn get_progress(&self, id: &NodeId) -> (r: Option<ReplicationProgress>)
        requires
            self.wf(),
        ensures
            match r {
                Some(p) => self.has_peer(id) && p == self.progress_of(id),
                None => !self.has_peer(id),
            },
    {
        let at = self.find(id);
        if at < self.ids.len() {
            Some(self.progresses[at])
        } else {
            None
        }
    }

    /// Replaces the progress of the follower at place `at`.
    pub fn set_progress_at(&mut self, at: usize, progress: ReplicationProgress)
        requires
            old(self).wf(),
            at < old(self).ids().len(),
            progress.wf(),
        ensures
            final(self).wf(),
            final(self).ids() == old(self).ids(),
            final(self).selfid() == old(self).selfid(),
            final(self).progresses() == old(self).progresses().update(at as int, progress),
    {
        self.progresses.set(at, progress);
    }

    /// Adds a follower that is to be sent `init_next_index` first. Nothing
    /// changes, and the answer is `false`, where `id` names a follower
    /// already.
    pub fn add_peer(&mut self, id: NodeId, init_next_index: Index) -> (added: bool)
        requires
            old(self).wf(),
        ensures
            final(self).wf(),
            final(self).selfid() == old(self).selfid(),
            added == !old(self).has_peer(&id),
            added ==> final(self).ids() == old(self).ids().push(id) && final(self).progresses()
                == old(self).progresses().push(ReplicationProgress::spec_new(init_next_index)),
            !added ==> final(self).ids() == old(self).ids() && final(self).progresses() == old(
                self,
            ).progresses(),
    {
        if self.knows(&id) {
            return false;
        }
        self.ids.push(id);
        self.progresses.push(ReplicationProgress::new(init_next_index));
        true
    }

    /// Removes the first follower that `id` names. Nothing changes, and the
    /// answer is `false`, where it names none.
    pub fn remove_peer(&mut self, id: &NodeId) -> (removed: bool)
        requires
            old(self).wf(),
        ensures
            final(self).wf(),
            final(self).selfid() == old(self).selfid(),
            removed == old(self).has_peer(id),
            removed ==> final(self).ids() == old(self).ids().remove(old(self).position(id))
                && final(self).progresses() == old(self).progresses().remove(
                old(self).position(id),
            ),
            !removed ==> final(self).ids() == old(self).ids() && final(self).progresses() == old(
                self,
            ).progresses(),
    {
        let at = self.find(id);
        if at >= self.ids.len() {
            return false;
        }
        let _ = self.ids.remove(at);
        let _ = self.progresses.remove(at);
        true
    }

    /// What a node does to its record of the followers when it becomes
    /// leader: each is to be sent the entry after the last of the log next,
    /// nothing is known to be stored on any, and every window is 1.
    pub fn reset_progress(&mut self, last_log_index: Index)
        requires
            old(self).wf(),
            last_log_index < u64::MAX,
        ensures
            final(self).wf(),
            final(self).ids() == old(self).ids(),
            final(self).selfid() == old(self).selfid(),
            final(self).progresses() == Seq::new(
                old(self).ids().len(),
                |i: int| ReplicationProgress::spec_new((last_log_index + 1) as Index),
            ),
    {
        let fresh = ReplicationProgress::new(last_log_index + 1);
        let mut i: usize = 0;
        while i < self.progresses.len()
            invariant
                i <= self.progresses.len(),
                self.ids() == old(self).ids(),
                self.selfid() == old(self).selfid(),
                self.progresses().len() == old(self).ids().len(),
                fresh == ReplicationProgress::spec_new((last_log_index + 1) as Index),
                forall|j: int| 0 <= j < i ==> self.progresses()[j] == fresh,
                forall|j: int|
                    0 <= j < self.progresses().len() ==> (#[trigger] self.progresses()[j]).wf(),
            decreases self.progresses.len() - i,
        {
            self.progresses.set(i, fresh);
            i = i + 1;
        }
        proof {
            assert(self.progresses() =~= Seq::new(
                old(self).ids().len(),
                |i: int| ReplicationProgress::spec_new((last_log_index + 1) as Index),
            ));
        }
    }
}

} // verus!
