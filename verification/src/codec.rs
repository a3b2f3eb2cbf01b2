//! The stored form of clocks and entries.

use crate::clock::Clock;
use crate::entry::{Entry, EntryView};
use crate::payload::{bytes_from_vec, bytes_to_vec};
use vstd::bytes::{
    lemma_auto_spec_u64_to_from_le_bytes, spec_u64_from_le_bytes, spec_u64_to_le_bytes,
    u64_from_le_bytes, u64_to_le_bytes,
};
use vstd::prelude::*;
use vstd::slice::slice_subrange;

verus! {

/// The number of octets that store a clock.
pub const CLOCK_LEN: usize = 16;

/// The number of octets that come before the command in a stored entry.
pub const ENTRY_HEAD_LEN: usize = 32;

/// The stored form of a clock: the term and the index, each as eight octets,
/// least significant first.
pub open spec fn clock_bytes(c: Clock) -> Seq<u8> {
    spec_u64_to_le_bytes(c.term) + spec_u64_to_le_bytes(c.index)
}

/// The clock that the first sixteen octets from `at` on store.
pub open spec fn clock_at(bytes: Seq<u8>, at: int) -> Clock {
    Clock {
        term: spec_u64_from_le_bytes(bytes.subrange(at, at + 8)),
        index: spec_u64_from_le_bytes(bytes.subrange(at + 8, at + 16)),
    }
}

/// The stored form of an entry: the clock before it, its own clock, and the
/// command.
pub open spec fn entry_bytes(e: EntryView) -> Seq<u8> {
    clock_bytes(e.prev_clock) + clock_bytes(e.this_clock) + e.command
}

/// The entry that `bytes` store, if they store one.
pub open spec fn entry_of(bytes: Seq<u8>) -> Option<EntryView> {
    if bytes.len() < 32 {
        None
    } else {
        Some(
            EntryView {
                prev_clock: clock_at(bytes, 0),
                this_clock: clock_at(bytes, 16),
                command: bytes.subrange(32, bytes.len() as int),
            },
        )
    }
}

/// Encode-decode of a clock is the identity.
pub proof fn lemma_clock_round_trip(c: Clock)
    ensures
        clock_bytes(c).len() == 16,
        clock_at(clock_bytes(c), 0) == c,
{
    lemma_auto_spec_u64_to_from_le_bytes();
    let bytes = clock_bytes(c);
    assert(bytes.subrange(0, 8) =~= spec_u64_to_le_bytes(c.term));
    assert(bytes.subrange(8, 16) =~= spec_u64_to_le_bytes(c.index));
}

/// Encode-decode of an entry is the identity.
pub proof fn lemma_entry_round_trip(e: EntryView)
    ensures
        entry_of(entry_bytes(e)) == Some(e),
{
    lemma_auto_spec_u64_to_from_le_bytes();
    let bytes = entry_bytes(e);
    assert(bytes.subrange(0, 8) =~= spec_u64_to_le_bytes(e.prev_clock.term));
    assert(bytes.subrange(8, 16) =~= spec_u64_to_le_bytes(e.prev_clock.index));
    assert(bytes.subrange(16, 24) =~= spec_u64_to_le_bytes(e.this_clock.term));
    assert(bytes.subrange(24, 32) =~= spec_u64_to_le_bytes(e.this_clock.index));
    assert(bytes.subrange(32, bytes.len() as int) =~= e.command);
}

/// Decode-encode of an entry is the identity: what reads as an entry is the
/// stored form of that entry.
pub proof fn lemma_entry_bytes_unique(bytes: Seq<u8>)
    requires
        entry_of(bytes) is Some,
    ensures
        entry_bytes(entry_of(bytes)->Some_0) == bytes,
{
    lemma_auto_spec_u64_to_from_le_bytes();
    let e = entry_of(bytes)->Some_0;
    assert(spec_u64_to_le_bytes(spec_u64_from_le_bytes(bytes.subrange(0, 8))) == bytes.subrange(
        0,
        8,
    ));
    assert(spec_u64_to_le_bytes(spec_u64_from_le_bytes(bytes.subrange(8, 16))) == bytes.subrange(
        8,
        16,
    ));
    assert(spec_u64_to_le_bytes(spec_u64_from_le_bytes(bytes.subrange(16, 24)))
        == bytes.subrange(16, 24));
    assert(spec_u64_to_le_bytes(spec_u64_from_le_bytes(bytes.subrange(24, 32)))
        == bytes.subrange(24, 32));
    assert(entry_bytes(e) =~= bytes);
}

/// Appends the stored form of `c` to `out`.
fn push_clock(out: &mut Vec<u8>, c: Clock)
    ensures
        final(out)@ == old(out)@ + clock_bytes(c),
{
    let mut term = u64_to_le_bytes(c.term);
    let mut index = u64_to_le_bytes(c.index);
    out.append(&mut term);
    out.append(&mut index);
    proof {
        assert(out@ =~= old(out)@ + clock_bytes(c));
    }
}

/// The clock that the sixteen octets of `bytes` from `at` on store.
fn read_clock(bytes: &Vec<u8>, at: usize) -> (c: Clock)
    requires
        at + 16 <= bytes.len(),
    ensures
        c == clock_at(bytes@, at as int),
{
    let term = u64_from_le_bytes(slice_subrange(bytes.as_slice(), at, at + 8));
    let index = u64_from_le_bytes(slice_subrange(bytes.as_slice(), at + 8, at + 16));
    Clock { term, index }
}

impl Entry {
    /// The stored form of the entry.
    pub fn encode(&self) -> (out: Vec<u8>)
        ensures
            out@ == entry_bytes(self@),
    {
        let mut out: Vec<u8> = Vec::new();
        push_clock(&mut out, self.prev_clock);
        push_clock(&mut out, self.this_clock);
        let mut command = bytes_to_vec(&self.command);
        out.append(&mut command);
        proof {
            assert(out@ =~= entry_bytes(self@));
        }
        out
    }

    /// The entry that `bytes` store, if they store one: they do unless they
    /// are too short for the two clocks.
    pub fn decode(bytes: &Vec<u8>) -> (out: Option<Entry>)
        ensures
            match out {
                Some(e) => entry_of(bytes@) == Some(e@),
                None => entry_of(bytes@) is None,
            },
    {
        if bytes.len() < ENTRY_HEAD_LEN {
            return None;
        }
        let prev_clock = read_clock(bytes, 0);
        let this_clock = read_clock(bytes, CLOCK_LEN);
        let mut command: Vec<u8> = Vec::new();
        let mut i: usize = ENTRY_HEAD_LEN;
        while i < bytes.len()
            invariant
                32 <= i <= bytes.len(),
                command@ == bytes@.subrange(32, i as int),
            decreases bytes.len() - i,
        {
            command.push(bytes[i]);
            i = i + 1;
            proof {
                assert(command@ =~= bytes@.subrange(32, i as int));
            }
        }
        Some(Entry { prev_clock, this_clock, command: bytes_from_vec(command) })
    }
}

} // verus!
