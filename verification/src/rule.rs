//! The recursive trigger-rule language: a closed tree of conjunctions,
//! disjunctions, negations and leaf matchers, evaluated against a request
//! map.  A tree is built once when the configuration is loaded and is then
//! evaluated once per incoming request.

pub mod and_rule;
pub mod not_rule;
pub mod or_rule;
pub mod single_rule;

use crate::strmap::StrMap;
use and_rule::AndRule;
use not_rule::NotRule;
use or_rule::OrRule;
use single_rule::{single_matches, SingleRule};
use vstd::prelude::*;

verus! {

/// A rule tree.  `Invalid` marks a node that could not be built from the
/// configuration; it never matches.
pub enum Rule {
    Invalid,
    Single(SingleRule),
    Not(NotRule),
    And(AndRule),
    Or(OrRule),
}

/// What a rule tree means for a request: leaves dispatch on their kind, a
/// conjunction asks for every child, a disjunction for at least one, a
/// negation inverts, and an invalid node never matches.
pub open spec fn rule_matches(r: Rule, req: Map<Seq<char>, Seq<char>>) -> bool
    decreases r,
{
    match r {
        Rule::Invalid => false,
        Rule::Single(s) => single_matches(s, req),
        Rule::Not(n) => !rule_matches(*n.not, req),
        Rule::And(a) => forall|i: int|
            0 <= i < a.and@.len() ==> rule_matches(#[trigger] a.and@[i], req),
        Rule::Or(o) => exists|i: int|
            0 <= i < o.or@.len() && rule_matches(#[trigger] o.or@[i], req),
    }
}

impl Rule {
    /// Evaluate this tree against a request.
    pub fn is_matched(&self, http_request: &StrMap) -> (r: bool)
        ensures
            r == rule_matches(*self, http_request@),
        decreases *self,
    {
        match self {
            Rule::Single(s) => s.is_matched(http_request),
            Rule::And(a) => a.is_matched(http_request),
            Rule::Or(o) => o.is_matched(http_request),
            Rule::Not(n) => n.is_matched(http_request),
            Rule::Invalid => false,
        }
    }
}

} // verus!
