//! A storage backend that keeps everything in memory.

use crate::clock::Index;
use crate::entry::{Entry, EntryView, SnapshotTag};
use crate::vote::Vote;
use std::collections::{BTreeMap, BTreeSet};
use vstd::prelude::*;

verus! {

/// Whether `last` is the greatest index of `dom`, or 0 where `dom` is empty.
pub open spec fn is_last_index(dom: Set<Index>, last: Index) -> bool {
    if dom.is_empty() {
        last == 0
    } else {
        dom.contains(last) && forall|k: Index| dom.contains(k) ==> k <= last
    }
}

/// The indices that [`Storage::delete_before`] keeps.
pub open spec fn not_before(r: Index) -> Set<Index> {
    Set::new(|k: Index| k >= r)
}

/// The indices that [`Storage::delete_from`] keeps.
pub open spec fn below(r: Index) -> Set<Index> {
    Set::new(|k: Index| k < r)
}

/// The keys of a map that are `r` or more.
fn keys_from<V>(m: &BTreeMap<u64, V>, r: u64) -> (out: Vec<u64>)
    ensures
        forall|k: u64| out@.contains(k) <==> (m@.contains_key(k) && k >= r),
{
    let mut out: Vec<u64> = Vec::new();
    for k in it: m.keys()
        invariant
            it.seq().unref().to_set() == m@.dom(),
            forall|k: u64| out@.contains(k) ==> (m@.contains_key(k) && k >= r),
            forall|j: int|
                0 <= j < it.index() && *it.seq()[j] >= r ==> out@.contains(*it.seq()[j]),
    {
        if *k >= r {
            let ghost before = out@;
            out.push(*k);
            proof {
                assert(out@[before.len() as int] == *k);
                assert forall|x: u64| before.contains(x) implies out@.contains(x) by {
                    let j = choose|j: int| 0 <= j < before.len() && before[j] == x;
                    assert(out@[j] == x);
                }
                assert(it.seq().unref()[it.index() as int] == *k);
                assert(it.seq().unref().to_set().contains(*k));
                assert forall|x: u64| out@.contains(x) implies m@.contains_key(x) && x >= r by {
                    let j = choose|j: int| 0 <= j < out@.len() && out@[j] == x;
                    if j < before.len() {
                        assert(before[j] == x);
                        assert(before.contains(x));
                    } else {
                        assert(x == *k);
                        assert(m@.dom().contains(*k));
                    }
                }
            }
        }
    }
    out
}

/// Removes the keys of `doomed` from a map.
fn remove_keys<V>(m: &mut BTreeMap<u64, V>, doomed: &Vec<u64>)
    ensures
        final(m)@ == old(m)@.remove_keys(doomed@.to_set()),
{
    let ghost before = m@;
    let mut n: usize = 0;
    while n < doomed.len()
        invariant
            n <= doomed.len(),
            forall|k: u64|
                m@.contains_key(k) <==> (before.contains_key(k) && !doomed@.subrange(
                    0,
                    n as int,
                ).contains(k)),
            forall|k: u64| m@.contains_key(k) ==> m@[k] == before[k],
        decreases doomed.len() - n,
    {
        let k: u64 = doomed[n];
        let ghost prefix = doomed@.subrange(0, n as int);
        let _ = m.remove(&k);
        n = n + 1;
        proof {
            let longer = doomed@.subrange(0, n as int);
            assert(longer =~= prefix.push(k));
            assert forall|x: u64| longer.contains(x) <==> (prefix.contains(x) || x == k) by {
                if longer.contains(x) {
                    let j = choose|j: int| 0 <= j < longer.len() && longer[j] == x;
                    if j < prefix.len() {
                        assert(prefix[j] == x);
                    }
                }
                if prefix.contains(x) {
                    let j = choose|j: int| 0 <= j < prefix.len() && prefix[j] == x;
                    assert(longer[j] == x);
                }
                if x == k {
                    assert(longer[prefix.len() as int] == x);
                }
            }
        }
    }
    proof {
        assert(doomed@.subrange(0, n as int) =~= doomed@);
        assert(m@ =~= before.remove_keys(doomed@.to_set()));
    }
}

/// The greatest key of a map, or 0 where it is empty.
fn greatest_key<V>(m: &BTreeMap<u64, V>) -> (r: u64)
    ensures
        is_last_index(m@.dom(), r),
{
    let mut r: u64 = 0;
    let mut seen: bool = false;
    for k in it: m.keys()
        invariant
            it.seq().unref().to_set() == m@.dom(),
            seen == (it.index() > 0),
            !seen ==> r == 0,
            seen ==> m@.dom().contains(r),
            forall|j: int| 0 <= j < it.index() ==> *it.seq()[j] <= r,
    {
        if !seen || *k > r {
            r = *k;
        }
        seen = true;
    }
    r
}

/// The keys of a map that lie below `r`.
fn keys_below<V>(m: &BTreeMap<u64, V>, r: u64) -> (out: Vec<u64>)
    ensures
        forall|k: u64| out@.contains(k) <==> (m@.contains_key(k) && k < r),
{
    let mut out: Vec<u64> = Vec::new();
    for k in it: m.keys()
        invariant
            it.seq().unref().to_set() == m@.dom(),
            forall|k: u64| out@.contains(k) ==> (m@.contains_key(k) && k < r),
            forall|j: int|
                0 <= j < it.index() && *it.seq()[j] < r ==> out@.contains(*it.seq()[j]),
    {
        if *k < r {
            let ghost before = out@;
            out.push(*k);
            proof {
                assert(out@[before.len() as int] == *k);
                assert forall|x: u64| before.contains(x) implies out@.contains(x) by {
                    let j = choose|j: int| 0 <= j < before.len() && before[j] == x;
                    assert(out@[j] == x);
                }
                assert(it.seq().unref()[it.index() as int] == *k);
                assert(it.seq().unref().to_set().contains(*k));
                assert forall|x: u64| out@.contains(x) implies m@.contains_key(x) && x < r by {
                    let j = choose|j: int| 0 <= j < out@.len() && out@[j] == x;
                    if j < before.len() {
                        assert(before[j] == x);
                        assert(before.contains(x));
                    } else {
                        assert(x == *k);
                        assert(m@.dom().contains(*k));
                    }
                }
            }
        }
    }
    out
}

/// Removes every key below `r` from a map.
fn remove_below<V>(m: &mut BTreeMap<u64, V>, r: u64)
    ensures
        final(m)@ == old(m)@.restrict(not_before(r)),
{
    let ghost before = m@;
    let doomed = keys_below(m, r);
    remove_keys(m, &doomed);
    proof {
        assert(before.remove_keys(doomed@.to_set()) =~= before.restrict(not_before(r)));
    }
}

/// Removes every key that is `r` or more from a map.
fn remove_from<V>(m: &mut BTreeMap<u64, V>, r: u64)
    ensures
        final(m)@ == old(m)@.restrict(below(r)),
{
    let ghost before = m@;
    let doomed = keys_from(m, r);
    remove_keys(m, &doomed);
    proof {
        assert(before.remove_keys(doomed@.to_set()) =~= before.restrict(below(r)));
    }
}

/// Log entries by index, the vote, the index of the latest snapshot, and
/// snapshot tags by index.
pub struct Storage {
    entries: BTreeMap<u64, Entry>,
    vote: Vote,
    snapshot_index: u64,
    tags: BTreeMap<u64, SnapshotTag>,
}

impl Storage {
    /// The stored entries, by index.
    pub closed spec fn entries(&self) -> Map<Index, EntryView> {
        Map::new(|k: Index| self.entries@.contains_key(k), |k: Index| self.entries@[k]@)
    }

    /// The stored snapshot tags, by index.
    pub closed spec fn tags(&self) -> Map<Index, Seq<u8>> {
        Map::new(|k: Index| self.tags@.contains_key(k), |k: Index| self.tags@[k]@)
    }

    /// The stored vote.
    pub closed spec fn vote(&self) -> Vote {
        self.vote
    }

    /// The greatest index at which a snapshot was ever inserted.
    pub closed spec fn snapshot_index(&self) -> Index {
        self.snapshot_index
    }

    /// An empty store: no entry, no tag, snapshot index 0, and the vote of a
    /// node that has never voted.
    pub fn new() -> (s: Storage)
        ensures
            s.entries() == Map::<Index, EntryView>::empty(),
            s.tags() == Map::<Index, Seq<u8>>::empty(),
            s.vote() == Vote::spec_new(),
            s.snapshot_index() == 0,
    {
        let s = Storage {
            entries: BTreeMap::new(),
            vote: Vote::new(),
            snapshot_index: 0,
            tags: BTreeMap::new(),
        };
        proof {
            assert(s.entries() =~= Map::<Index, EntryView>::empty());
            assert(s.tags() =~= Map::<Index, Seq<u8>>::empty());
        }
        s
    }

    /// Forgets the tag at `i`, if there is one.
    pub fn delete_tag(&mut self, i: Index)
        ensures
            final(self).tags() == old(self).tags().remove(i),
            final(self).entries() == old(self).entries(),
            final(self).vote() == old(self).vote(),
            final(self).snapshot_index() == old(self).snapshot_index(),
    {
        let _ = self.tags.remove(&i);
        proof {
            assert(self.tags() =~= old(self).tags().remove(i));
        }
    }

    /// The indices that carry a tag.
    pub fn list_tags(&self) -> (r: BTreeSet<Index>)
        ensures
            r@ == self.tags().dom(),
    {
        let mut r: BTreeSet<u64> = BTreeSet::new();
        for k in it: self.tags.keys()
            invariant
                it.seq().unref().to_set() == self.tags@.dom(),
                forall|x: u64| r@.contains(x) ==> self.tags@.contains_key(x),
                forall|j: int| 0 <= j < it.index() ==> r@.contains(*it.seq()[j]),
        {
            proof {
                assert(it.seq().unref()[it.index() as int] == *k);
                assert(it.seq().unref().to_set().contains(*k));
            }
            let _ = r.insert(*k);
        }
        proof {
            assert(r@ =~= self.tags().dom());
        }
        r
    }

    /// The tag at `i`, if there is one.
    pub fn get_tag(&self, i: Index) -> (r: Option<SnapshotTag>)
        ensures
            match r {
                Some(tag) => self.tags().contains_key(i) && tag@ == self.tags()[i],
                None => !self.tags().contains_key(i),
            },
    {
        match self.tags.get(&i) {
            Some(tag) => Some(tag.duplicate()),
            None => None,
        }
    }

    /// Stores `x` as the tag at `i`, in place of any tag that was there.
    pub fn put_tag(&mut self, i: Index, x: SnapshotTag)
        ensures
            final(self).tags() == old(self).tags().insert(i, x@),
            final(self).entries() == old(self).entries(),
            final(self).vote() == old(self).vote(),
            final(self).snapshot_index() == old(self).snapshot_index(),
    {
        let _ = self.tags.insert(i, x);
        proof {
            assert(self.tags() =~= old(self).tags().insert(i, x@));
        }
    }

    /// The greatest index that holds an entry, or 0 where the log is empty.
    pub fn get_last_index(&self) -> (r: Index)
        ensures
            is_last_index(self.entries().dom(), r),
    {
        let r = greatest_key(&self.entries);
        proof {
            assert(self.entries().dom() =~= self.entries@.dom());
        }
        r
    }

    /// Deletes the entries and the tags whose index is below `r`.
    pub fn delete_before(&mut self, r: Index)
        ensures
            final(self).entries() == old(self).entries().restrict(not_before(r)),
            final(self).tags() == old(self).tags().restrict(not_before(r)),
            final(self).vote() == old(self).vote(),
            final(self).snapshot_index() == old(self).snapshot_index(),
    {
        remove_below(&mut self.entries, r);
        remove_below(&mut self.tags, r);
        proof {
            assert(self.entries() =~= old(self).entries().restrict(not_before(r)));
            assert(self.tags() =~= old(self).tags().restrict(not_before(r)));
        }
    }

    /// Deletes the entries whose index is `r` or more.
    pub fn delete_from(&mut self, r: Index)
        ensures
            final(self).entries() == old(self).entries().restrict(below(r)),
            final(self).tags() == old(self).tags(),
            final(self).vote() == old(self).vote(),
            final(self).snapshot_index() == old(self).snapshot_index(),
    {
        remove_from(&mut self.entries, r);
        proof {
            assert(self.entries() =~= old(self).entries().restrict(below(r)));
        }
    }

    /// Stores `e` at `i` and raises the snapshot index to `i` if it was below.
    pub fn insert_snapshot(&mut self, i: Index, e: Entry)
        ensures
            final(self).entries() == old(self).entries().insert(i, e@),
            final(self).snapshot_index() == if old(self).snapshot_index() >= i {
                old(self).snapshot_index()
            } else {
                i
            },
            final(self).tags() == old(self).tags(),
            final(self).vote() == old(self).vote(),
    {
        let _ = self.entries.insert(i, e);
        if self.snapshot_index < i {
            self.snapshot_index = i;
        }
        proof {
            assert(self.entries() =~= old(self).entries().insert(i, e@));
        }
    }

    /// Stores `e` at `i`, in place of any entry that was there.
    pub fn insert_entry(&mut self, i: Index, e: Entry)
        ensures
            final(self).entries() == old(self).entries().insert(i, e@),
            final(self).tags() == old(self).tags(),
            final(self).vote() == old(self).vote(),
            final(self).snapshot_index() == old(self).snapshot_index(),
    {
        let _ = self.entries.insert(i, e);
        proof {
            assert(self.entries() =~= old(self).entries().insert(i, e@));
        }
    }

    /// The entry at `i`, if there is one.
    pub fn get_entry(&self, i: Index) -> (r: Option<Entry>)
        ensures
            match r {
                Some(e) => self.entries().contains_key(i) && e@ == self.entries()[i],
                None => !self.entries().contains_key(i),
            },
    {
        match self.entries.get(&i) {
            Some(e) => Some(e.duplicate()),
            None => None,
        }
    }

    /// The greatest index at which a snapshot was ever inserted.
    pub fn get_snapshot_index(&self) -> (r: Index)
        ensures
            r == self.snapshot_index(),
    {
        self.snapshot_index
    }

    /// Replaces the stored vote.
    pub fn store_vote(&mut self, v: Vote)
        ensures
            final(self).vote() == v,
            final(self).entries() == old(self).entries(),
            final(self).tags() == old(self).tags(),
            final(self).snapshot_index() == old(self).snapshot_index(),
    {
        self.vote = v;
    }

    /// The stored vote.
    pub fn load_vote(&self) -> (r: Vote)
        ensures
            r == self.vote(),
    {
        self.vote.duplicate()
    }
}

} // verus!
