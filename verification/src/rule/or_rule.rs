//! Disjunction of rules: matches when at least one child matches; an empty
//! child list never matches.

use super::{rule_matches, Rule};
use crate::strmap::StrMap;
use vstd::prelude::*;

verus! {

pub struct OrRule {
    pub or: Vec<Rule>,
}

impl OrRule {
    /// Evaluate the disjunction: some child must match.
    pub fn is_matched(&self, http_request: &StrMap) -> (r: bool)
        ensures
            r == (exists|i: int|
                0 <= i < self.or@.len() && rule_matches(#[trigger] self.or@[i], http_request@)),
        decreases self.or,
    {
        let mut i: usize = 0;
        while i < self.or.len()
            invariant
                0 <= i <= self.or@.len(),
                forall|j: int| 0 <= j < i ==> !rule_matches(#[trigger] self.or@[j], http_request@),
            decreases self.or@.len() - i,
        {
            proof {
                assert(decreases_to!(self.or => self.or@[i as int]));
            }
            if self.or[i].is_matched(http_request) {
                return true;
            }
            i = i + 1;
        }
        false
    }
}

/// An empty disjunction matches no request.
pub proof fn lemma_empty_or_never_matches(o: OrRule, req: Map<Seq<char>, Seq<char>>)
    requires
        o.or@.len() == 0,
    ensures
        !rule_matches(Rule::Or(o), req),
{
}

} // verus!
