//! The vote that a node has cast.

use crate::clock::Term;
use crate::node_id::NodeId;
use vstd::prelude::*;

verus! {

/// The latest term that a node has seen, and the candidate that it voted for
/// in that term, if any.
#[derive(Clone, Debug)]
pub struct Vote {
    pub current_term: Term,
    pub voted_for: Option<NodeId>,
}

impl Vote {
    /// The vote of a node that has never voted.
    pub open spec fn spec_new() -> Vote {
        Vote { current_term: 0, voted_for: None }
    }

    /// The vote of a node that has never voted: term 0, for nobody.
    #[verifier::when_used_as_spec(spec_new)]
    pub fn new() -> (v: Vote)
        ensures
            v == Vote::spec_new(),
    {
        Vote { current_term: 0, voted_for: None }
    }

    /// A second value for the same vote.
    pub fn duplicate(&self) -> (v: Vote)
        ensures
            v == *self,
    {
        let voted_for = match &self.voted_for {
            Some(id) => Some(id.duplicate()),
            None => None,
        };
        Vote { current_term: self.current_term, voted_for }
    }
}

} // verus!
