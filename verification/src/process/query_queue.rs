//! Read-only queries that wait for the log to be applied up to their read
//! index.

use crate::clock::Index;
use crate::process::completion::UserCompletion;
use bytes::Bytes;
use std::collections::BTreeMap;
use vstd::prelude::*;

verus! {

/// A read-only query and the promise of its answer.
#[derive(Debug)]
pub struct Query {
    pub message: Bytes,
    pub user_completion: UserCompletion,
}

impl Query {
    /// Ends the query: with `Some` response the client is answered, and the
    /// result says whether it was still waiting; with `None` the promise is
    /// dropped, which fails the client's call.
    pub fn complete(self, response: Option<Bytes>) -> (delivered: bool)
        ensures
            response is None ==> !delivered,
    {
        match response {
            Some(resp) => self.user_completion.complete_with(resp),
            None => false,
        }
    }
}

/// The queries that wait at index `k`, in the order in which they came.
pub open spec fn waiting_at(reserved: Map<Index, Seq<Query>>, k: Index) -> Seq<Query> {
    if reserved.contains_key(k) {
        reserved[k]
    } else {
        Seq::empty()
    }
}

/// The queries that wait at an index below `bound`: index by index in rising
/// order, and for each index in the order in which they came.
pub open spec fn waiting_below(reserved: Map<Index, Seq<Query>>, bound: int) -> Seq<Query>
    decreases bound,
{
    if bound <= 0 {
        Seq::empty()
    } else {
        waiting_below(reserved, bound - 1) + waiting_at(reserved, (bound - 1) as Index)
    }
}

/// The indices from `bound` on.
pub open spec fn from_on(bound: int) -> Set<Index> {
    Set::new(|k: Index| k >= bound)
}

/// Indices at which nothing waits add nothing.
pub proof fn lemma_waiting_gap(reserved: Map<Index, Seq<Query>>, a: int, b: int)
    requires
        0 <= a <= b <= u64::MAX + 1,
        forall|k: Index| a <= k < b ==> !reserved.contains_key(k),
    ensures
        waiting_below(reserved, b) == waiting_below(reserved, a),
    decreases b - a,
{
    if a < b {
        lemma_waiting_gap(reserved, a, b - 1);
        assert(!reserved.contains_key((b - 1) as Index));
        assert(waiting_below(reserved, b) =~= waiting_below(reserved, b - 1));
    }
}

/// Reads wait for their index: every query that waits below `bound` was
/// registered at an index below `bound`.
pub proof fn lemma_waiting_below_is_due(reserved: Map<Index, Seq<Query>>, bound: int, q: Query)
    requires
        bound <= u64::MAX + 1,
        waiting_below(reserved, bound).contains(q),
    ensures
        exists|k: Index| k < bound && reserved.contains_key(k) && #[trigger] reserved[k].contains(q),
    decreases bound,
{
    if bound <= 0 {
    } else {
        let head = waiting_below(reserved, bound - 1);
        let tail = waiting_at(reserved, (bound - 1) as Index);
        let j = choose|j: int| 0 <= j < (head + tail).len() && (head + tail)[j] == q;
        if j < head.len() {
            assert(head[j] == q);
            lemma_waiting_below_is_due(reserved, bound - 1, q);
        } else {
            assert(tail[j - head.len()] == q);
            let k = (bound - 1) as Index;
            assert(reserved.contains_key(k) && reserved[k].contains(q));
        }
    }
}

/// The least key of a map, if it has one.
fn least_key<V>(m: &BTreeMap<u64, V>) -> (r: Option<u64>)
    ensures
        match r {
            Some(least) => m@.contains_key(least) && forall|k: u64|
                m@.contains_key(k) ==> least <= k,
            None => forall|k: u64| !m@.contains_key(k),
        },
{
    let mut r: Option<u64> = None;
    for k in it: m.keys()
        invariant
            it.seq().unref().to_set() == m@.dom(),
            match r {
                Some(least) => m@.dom().contains(least) && forall|j: int|
                    0 <= j < it.index() ==> least <= *it.seq()[j],
                None => it.index() == 0,
            },
    {
        proof {
            assert(it.seq().unref()[it.index() as int] == *k);
            assert(it.seq().unref().to_set().contains(*k));
        }
        let smaller = match r {
            Some(least) => *k < least,
            None => true,
        };
        if smaller {
            r = Some(*k);
        }
    }
    r
}

/// The waiting queries, by read index.
pub struct Impl {
    reserved: BTreeMap<Index, Vec<Query>>,
}

impl Impl {
    /// The waiting queries: for each read index those that wait at it, in
    /// the order in which they came.
    pub closed spec fn reserved(&self) -> Map<Index, Seq<Query>> {
        Map::new(|k: Index| self.reserved@.contains_key(k), |k: Index| self.reserved@[k]@)
    }

    /// A queue in which nothing waits.
    pub fn new() -> (q: Impl)
        ensures
            q.reserved() == Map::<Index, Seq<Query>>::empty(),
    {
        let q = Impl { reserved: BTreeMap::new() };
        proof {
            assert(q.reserved() =~= Map::<Index, Seq<Query>>::empty());
        }
        q
    }

    /// Lets `query` wait at `read_index`, behind those that wait there
    /// already.
    pub fn register(&mut self, read_index: Index, query: Query)
        ensures
            final(self).reserved() == old(self).reserved().insert(
                read_index,
                waiting_at(old(self).reserved(), read_index).push(query),
            ),
    {
        let mut list = match self.reserved.remove(&read_index) {
            Some(list) => list,
            None => Vec::new(),
        };
        list.push(query);
        let _ = self.reserved.insert(read_index, list);
        proof {
            assert(self.reserved() =~= old(self).reserved().insert(
                read_index,
                waiting_at(old(self).reserved(), read_index).push(query),
            ));
        }
    }

    /// Takes out every query that waits at `index` or below: index by index
    /// in rising order, and for each index in the order in which they came.
    /// What waits above `index` stays. The first result says whether
    /// anything was taken out.
    pub fn execute(&mut self, index: Index) -> (r: (bool, Vec<Query>))
        ensures
            r.1@ == waiting_below(old(self).reserved(), index + 1),
            r.0 == (r.1@.len() > 0),
            final(self).reserved() == old(self).reserved().restrict(from_on(index + 1)),
    {
        let mut out: Vec<Query> = Vec::new();
        let ghost start = self.reserved();
        let ghost mut done: int = 0;
        let mut more = true;
        proof {
            assert(self.reserved() =~= start.restrict(from_on(0)));
        }
        while more
            invariant
                0 <= done <= index + 1,
                start == old(self).reserved(),
                self.reserved() == start.restrict(from_on(done)),
                out@ == waiting_below(start, done),
                !more ==> done == index + 1,
            decreases index + 1 - done, (if more { 1int } else { 0int }),
        {
            let least = least_key(&self.reserved);
            let due = match least {
                Some(k) => k <= index,
                None => false,
            };
            if due {
                let k: u64 = least.unwrap();
                proof {
                    assert(self.reserved().contains_key(k));
                    assert forall|x: Index| done <= x < k implies !start.contains_key(x) by {
                        if start.contains_key(x) {
                            assert(self.reserved().contains_key(x));
                            assert(self.reserved@.contains_key(x));
                        }
                    }
                    lemma_waiting_gap(start, done, k as int);
                }
                let ghost held = self.reserved@;
                let ghost waiting = self.reserved();
                proof {
                    assert(self.reserved()[k] == start[k]);
                    assert(held[k]@ == start[k]);
                }
                let taken = self.reserved.remove(&k);
                let mut list = taken.unwrap();
                proof {
                    assert(self.reserved@ == held.remove(k));
                    assert(list@ == start[k]);
                    assert(waiting_below(start, k + 1) == waiting_below(start, k as int)
                        + waiting_at(start, k));
                }
                out.append(&mut list);
                proof {
                    assert forall|x: Index| self.reserved().contains_key(x) <==> start.restrict(
                        from_on(k + 1),
                    ).contains_key(x) by {
                        assert(self.reserved@.contains_key(x) <==> (held.contains_key(x) && x
                            != k));
                        assert(held.contains_key(x) <==> start.restrict(
                            from_on(done),
                        ).contains_key(x));
                    }
                    assert forall|x: Index| self.reserved().contains_key(x) implies self.reserved()[x]
                        == start[x] by {
                        assert(self.reserved@[x] == held[x]);
                        assert(waiting.contains_key(x));
                        assert(waiting[x] == held[x]@);
                    }
                    done = k + 1;
                    assert(self.reserved() =~= start.restrict(from_on(done)));
                }
            } else {
                proof {
                    assert forall|x: Index| done <= x < index + 1 implies !start.contains_key(
                        x,
                    ) by {
                        if start.contains_key(x) {
                            assert(self.reserved().contains_key(x));
                            assert(self.reserved@.contains_key(x));
                        }
                    }
                    lemma_waiting_gap(start, done, index + 1);
                    assert(self.reserved() =~= start.restrict(from_on(index + 1)));
                    done = index + 1;
                }
                more = false;
            }
        }
        (out.len() > 0, out)
    }
}

/// The queue of the queries that wait for the log to be applied.
pub struct QueryQueue {
    q: Impl,
}

impl QueryQueue {
    /// The waiting queries, by read index.
    pub closed spec fn reserved(&self) -> Map<Index, Seq<Query>> {
        self.q.reserved()
    }

    /// A queue in which nothing waits.
    pub fn new() -> (q: QueryQueue)
        ensures
            q.reserved() == Map::<Index, Seq<Query>>::empty(),
    {
        QueryQueue { q: Impl::new() }
    }

    /// Lets `query` wait until the log is applied up to `read_index`.
    pub fn register(&mut self, read_index: Index, query: Query)
        ensures
            final(self).reserved() == old(self).reserved().insert(
                read_index,
                waiting_at(old(self).reserved(), read_index).push(query),
            ),
    {
        self.q.register(read_index, query);
    }

    /// Takes out, for dispatch, every query whose read index is `index` or
    /// below. The first result says whether there was any: the caller calls
    /// again until there is none.
    pub fn execute(&mut self, index: Index) -> (r: (bool, Vec<Query>))
        ensures
            r.1@ == waiting_below(old(self).reserved(), index + 1),
            r.0 == (r.1@.len() > 0),
            final(self).reserved() == old(self).reserved().restrict(from_on(index + 1)),
    {
        self.q.execute(index)
    }
}

} // verus!
