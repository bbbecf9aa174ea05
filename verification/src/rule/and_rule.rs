//! Conjunction of rules: matches when every child matches; an empty child
//! list matches vacuously.

use super::{rule_matches, Rule};
use crate::strmap::StrMap;
use vstd::prelude::*;

verus! {

pub struct AndRule {
    pub and: Vec<Rule>,
}

impl AndRule {
    /// Evaluate the conjunction: every child must match.
    pub fn is_matched(&self, http_request: &StrMap) -> (r: bool)
        ensures
            r == (forall|i: int|
                0 <= i < self.and@.len() ==> rule_matches(#[trigger] self.and@[i], http_request@)),
        decreases self.and,
    {
        let mut i: usize = 0;
        while i < self.and.len()
            invariant
                0 <= i <= self.and@.len(),
                forall|j: int| 0 <= j < i ==> rule_matches(#[trigger] self.and@[j], http_request@),
            decreases self.and@.len() - i,
        {
            proof {
                assert(decreases_to!(self.and => self.and@[i as int]));
            }
            if !self.and[i].is_matched(http_request) {
                return false;
            }
            i = i + 1;
        }
        true
    }
}

/// An empty conjunction matches every request.
pub proof fn lemma_empty_and_matches(a: AndRule, req: Map<Seq<char>, Seq<char>>)
    requires
        a.and@.len() == 0,
    ensures
        rule_matches(Rule::And(a), req),
{
}

} // verus!
