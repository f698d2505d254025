//! The domain-scope rule: which discovered links are followed.
//!
//! A candidate link is in scope iff its resolved domain equals the root
//! domain exactly, or a fuzzy substring is configured and the domain
//! contains it. Matching is case-sensitive on the literal domain strings.

use vstd::prelude::*;
use crate::text::contains_seq;
use crate::text::contains_str;
use crate::text::str_eq;

verus! {

/// The root domain, plus an optional fuzzy substring that widens the scope.
pub struct ScopeRule {
    pub root_domain: String,
    pub fuzzy: Option<String>,
}

/// The scope decision on a resolved domain, as a predicate on plain
/// character sequences.
pub open spec fn in_scope(rule: ScopeRule, domain: Seq<char>) -> bool {
    ||| domain == rule.root_domain@
    ||| (rule.fuzzy matches Some(f) && contains_seq(domain, f@))
}

impl ScopeRule {
    /// Decides whether a resolved domain is in scope under this rule.
    pub fn admits(&self, domain: &str) -> (r: bool)
        ensures
            r == in_scope(*self, domain@),
    {
        if str_eq(domain, self.root_domain.as_str()) {
            true
        } else {
            match &self.fuzzy {
                Some(f) => contains_str(domain, f.as_str()),
                None => false,
            }
        }
    }
}

} // verus!
