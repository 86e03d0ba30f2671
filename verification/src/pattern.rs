//! Regular expressions, by the `regex` crate.
use vstd::prelude::*;

verus! {

/// What is wrong with a pattern, where it is no regular expression.
pub uninterp spec fn pattern_fault(pattern: Seq<char>) -> Option<Seq<char>>;

/// Whether a pattern that is a regular expression matches somewhere in a text.
pub uninterp spec fn pattern_matches(pattern: Seq<char>, text: Seq<char>) -> bool;

/// What is wrong with a pattern.
pub open spec fn fault_view(fault: Option<String>) -> Option<Seq<char>> {
    match fault {
        Some(f) => Some(f@),
        None => None,
    }
}

/// `Regex::new`, for its error: a function of the pattern. What makes a pattern a
/// regular expression is left unsaid.
#[verifier::external_body]
pub(crate) fn check_pattern(pattern: &str) -> (r: Option<String>)
    ensures
        fault_view(r) == pattern_fault(pattern@),
{
    regex::Regex::new(pattern).err().map(|e| e.to_string())
}

/// `Regex::is_match` of a pattern without a fault: a function of the pattern and
/// the text. What it means to match is left unsaid.
#[verifier::external_body]
pub(crate) fn is_match(pattern: &str, text: &str) -> (r: bool)
    requires
        pattern_fault(pattern@) is None,
    ensures
        r == pattern_matches(pattern@, text@),
{
    regex::Regex::new(pattern).unwrap().is_match(text)
}

} // verus!
