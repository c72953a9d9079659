//! The scorer: a case-insensitive, subsequence-style fuzzy match between a
//! query and a candidate string, delegated to an outside matcher.

use vstd::prelude::*;

verus! {

/// The score that the case-insensitively configured skim matcher assigns to a
/// candidate and a query: `Some(score)` when the query's characters occur in
/// the candidate in order (higher scores are better matches), `None` when
/// they do not. The matcher is pure, so the score is a function of the two
/// strings alone; nothing more is assumed of its value.
pub uninterp spec fn skim_score(candidate: Seq<char>, query: Seq<char>) -> Option<i64>;

/// Relies on `fuzzy_matcher::skim::SkimMatcherV2::fuzzy_match`, configured
/// case-insensitive: it is deterministic, and its result depends on the
/// candidate and the query alone.
#[verifier::external_body]
pub(crate) fn fuzzy_score(candidate: &str, query: &str) -> (r: Option<i64>)
    ensures
        r == skim_score(candidate@, query@),
{
    let matcher = fuzzy_matcher::skim::SkimMatcherV2::default().ignore_case();
    fuzzy_matcher::FuzzyMatcher::fuzzy_match(&matcher, candidate, query)
}

} // verus!
