//! Log positions: indices, terms and the clock of an entry.

use vstd::prelude::*;

verus! {

/// Position in the log. Positions start at 1; 0 stands for "before anything".
pub type Index = u64;

/// Election epoch.
pub type Term = u64;

/// The term in which an entry was created, and its position in the log.
#[derive(Clone, Copy, Debug, PartialEq, Eq, Structural)]
pub struct Clock {
    pub term: Term,
    pub index: Index,
}

impl Clock {
    /// The clock of the reserved position 0.
    pub open spec fn spec_origin() -> Clock {
        Clock { term: 0, index: 0 }
    }

    /// The clock of the reserved position 0.
    #[verifier::when_used_as_spec(spec_origin)]
    pub fn origin() -> (c: Clock)
        ensures
            c == Clock::spec_origin(),
    {
        Clock { term: 0, index: 0 }
    }

    /// Whether a log ending in `self` is at least as up to date as one ending
    /// in `other`: a later last term wins, and within one term the longer log.
    pub open spec fn spec_at_least_as_recent_as(self, other: Clock) -> bool {
        self.term > other.term || (self.term == other.term && self.index >= other.index)
    }

    /// Whether a log ending in `self` is at least as up to date as one ending
    /// in `other`.
    #[verifier::when_used_as_spec(spec_at_least_as_recent_as)]
    pub fn at_least_as_recent_as(self, other: Clock) -> (r: bool)
        ensures
            r == self.spec_at_least_as_recent_as(other),
    {
        self.term > other.term || (self.term == other.term && self.index >= other.index)
    }
}

} // verus!
