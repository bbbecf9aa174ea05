//! Negation of a rule: matches exactly when its inner rule does not.

use super::{rule_matches, Rule};
use crate::strmap::StrMap;
use vstd::prelude::*;

verus! {

pub struct NotRule {
    pub not: Box<Rule>,
}

impl NotRule {
    /// Evaluate the negation.
    pub fn is_matched(&self, http_request: &StrMap) -> (r: bool)
        ensures
            r == !rule_matches(*self.not, http_request@),
        decreases *self,
    {
        proof {
            assert(decreases_to!(*self => *self.not));
        }
        !self.not.is_matched(http_request)
    }
}

/// A negation matches exactly when its inner rule does not, for every
/// request.
pub proof fn lemma_not_negates(n: NotRule, req: Map<Seq<char>, Seq<char>>)
    ensures
        rule_matches(Rule::Not(n), req) == !rule_matches(*n.not, req),
{
}

} // verus!
