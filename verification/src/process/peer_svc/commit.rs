//! How far the leader may commit: the greatest index that a majority of the
//! cluster stores.

use crate::clock::Index;
use crate::process::peer_svc::replication::ReplicationProgress;
use crate::process::peer_svc::PeerSvc;
use vstd::prelude::*;

verus! {

/// How many of `values` are `c` or more.
pub open spec fn count_at_least(values: Seq<Index>, c: Index) -> nat
    decreases values.len(),
{
    if values.len() == 0 {
        0
    } else {
        count_at_least(values.drop_last(), c) + if values.last() >= c {
            1nat
        } else {
            0nat
        }
    }
}

/// The size of the smallest majority among `n` nodes.
pub open spec fn majority(n: nat) -> nat {
    n / 2 + 1
}

/// Whether a majority of `values` is `c` or more.
pub open spec fn held_by_majority(values: Seq<Index>, c: Index) -> bool {
    count_at_least(values, c) >= majority(values.len())
}

/// Whether `q` is the greatest of `values` that a majority of them reaches:
/// with `n` values, the one at place `n / 2 + 1` from the top.
pub open spec fn is_quorum_index(values: Seq<Index>, q: Index) -> bool {
    &&& values.contains(q)
    &&& held_by_majority(values, q)
    &&& forall|j: int| 0 <= j < values.len() && #[trigger] held_by_majority(values, values[j]) ==> values[j] <= q
}

/// The match index of each follower, in order.
pub open spec fn match_indices(progresses: Seq<ReplicationProgress>) -> Seq<Index> {
    Seq::new(progresses.len(), |i: int| progresses[i].match_index)
}

/// Every value is counted where all of them reach `c`.
pub proof fn lemma_count_all(values: Seq<Index>, c: Index)
    requires
        forall|i: int| 0 <= i < values.len() ==> values[i] >= c,
    ensures
        count_at_least(values, c) == values.len(),
    decreases values.len(),
{
    if values.len() > 0 {
        lemma_count_all(values.drop_last(), c);
    }
}

/// A lower bar is reached by at least as many values.
pub proof fn lemma_count_monotone(values: Seq<Index>, lower: Index, higher: Index)
    requires
        lower <= higher,
    ensures
        count_at_least(values, higher) <= count_at_least(values, lower),
    decreases values.len(),
{
    if values.len() > 0 {
        lemma_count_monotone(values.drop_last(), lower, higher);
    }
}

/// The quorum index is unique, and a majority of the values is at or above
/// every value that is at most the quorum index.
pub proof fn lemma_quorum_index(values: Seq<Index>, q: Index, other: Index)
    requires
        is_quorum_index(values, q),
    ensures
        is_quorum_index(values, other) ==> other == q,
        other <= q ==> held_by_majority(values, other),
{
    if is_quorum_index(values, other) {
        let j = choose|j: int| 0 <= j < values.len() && values[j] == other;
        assert(held_by_majority(values, values[j]));
        let k = choose|k: int| 0 <= k < values.len() && values[k] == q;
        assert(held_by_majority(values, values[k]));
    }
    if other <= q {
        lemma_count_monotone(values, other, q);
    }
}

/// How many of `values` are `c` or more.
fn count_reaching(values: &Vec<Index>, c: Index) -> (n: usize)
    ensures
        n == count_at_least(values@, c),
{
    let mut n: usize = 0;
    let mut j: usize = 0;
    while j < values.len()
        invariant
            j <= values.len(),
            n <= j,
            n == count_at_least(values@.take(j as int), c),
        decreases values.len() - j,
    {
        proof {
            assert(values@.take(j + 1).drop_last() =~= values@.take(j as int));
            assert(values@.take(j + 1).last() == values@[j as int]);
        }
        if values[j] >= c {
            n = n + 1;
        }
        j = j + 1;
    }
    proof {
        assert(values@.take(j as int) =~= values@);
    }
    n
}

/// The least of `values`.
fn least_of(values: &Vec<Index>) -> (least: Index)
    requires
        values.len() >= 1,
    ensures
        values@.contains(least),
        forall|i: int| 0 <= i < values.len() ==> values[i] >= least,
{
    let mut least: Index = values[0];
    let mut j: usize = 1;
    while j < values.len()
        invariant
            1 <= j <= values.len(),
            values@.contains(least),
            forall|i: int| 0 <= i < j ==> values[i] >= least,
        decreases values.len() - j,
    {
        if values[j] < least {
            least = values[j];
        }
        j = j + 1;
    }
    least
}

/// The greatest of `values` that a majority of them reaches.
pub fn quorum_index(values: &Vec<Index>) -> (q: Index)
    requires
        values.len() >= 1,
    ensures
        is_quorum_index(values@, q),
{
    let needed: usize = values.len() / 2 + 1;
    let mut best: Index = least_of(values);
    proof {
        lemma_count_all(values@, best);
    }
    let mut j: usize = 0;
    while j < values.len()
        invariant
            j <= values.len(),
            needed == majority(values@.len()),
            values@.contains(best),
            held_by_majority(values@, best),
            forall|i: int|
                0 <= i < j && #[trigger] held_by_majority(values@, values@[i]) ==> values@[i]
                    <= best,
        decreases values.len() - j,
    {
        let candidate: Index = values[j];
        if candidate > best {
            let reached = count_reaching(values, candidate);
            if reached >= needed {
                best = candidate;
            }
        }
        j = j + 1;
    }
    best
}

impl PeerSvc {
    /// The indices up to which each node of the cluster stores the log: the
    /// match index of each follower, and the last index of the leader's own
    /// log.
    pub fn replicated_indices(&self, last_log_index: Index) -> (values: Vec<Index>)
        requires
            self.wf(),
        ensures
            values@ == match_indices(self.progresses()).push(last_log_index),
    {
        let mut values: Vec<Index> = Vec::new();
        let n = self.len();
        let mut i: usize = 0;
        while i < n
            invariant
                self.wf(),
                n == self.ids().len(),
                i <= n,
                values@ == match_indices(self.progresses()).take(i as int),
            decreases n - i,
        {
            let p = self.progress_at(i);
            values.push(p.match_index);
            i = i + 1;
            proof {
                assert(values@ =~= match_indices(self.progresses()).take(i as int));
            }
        }
        values.push(last_log_index);
        proof {
            assert(match_indices(self.progresses()).take(n as int) =~= match_indices(
                self.progresses(),
            ));
        }
        values
    }

    /// The greatest index that a majority of the cluster stores, the leader
    /// counted with the last index of its own log.
    pub fn find_new_commit_index(&self, last_log_index: Index) -> (q: Index)
        requires
            self.wf(),
        ensures
            is_quorum_index(match_indices(self.progresses()).push(last_log_index), q),
    {
        let values = self.replicated_indices(last_log_index);
        quorum_index(&values)
    }
}

} // verus!
