//! Text: what keys begin with and hold, and sentences put together.
use vstd::prelude::*;

verus! {

/// Whether `part` occurs in `whole` at position `at`.
pub open spec fn occurs_at(part: Seq<char>, whole: Seq<char>, at: int) -> bool {
    &&& 0 <= at <= whole.len() - part.len()
    &&& whole.subrange(at, at + part.len()) == part
}

/// Whether `part` occurs in `whole`.
pub open spec fn occurs_in(part: Seq<char>, whole: Seq<char>) -> bool {
    exists|at: int| occurs_at(part, whole, at)
}

/// Whether `whole` begins with `part`.
pub open spec fn begins_with(whole: Seq<char>, part: Seq<char>) -> bool {
    occurs_at(part, whole, 0)
}

/// Calls `str::starts_with` with a string pattern.
///
/// Claimed: it tells whether `text` begins with the characters of `prefix`.
#[verifier::external_body]
pub(crate) fn starts_with(text: &str, prefix: &str) -> (found: bool)
    ensures
        found == begins_with(text@, prefix@),
{
    text.starts_with(prefix)
}

/// Calls `str::contains` with a string pattern.
///
/// Claimed: it tells whether the characters of `part` occur in `text`, one after the other.
#[verifier::external_body]
pub(crate) fn contains(text: &str, part: &str) -> (found: bool)
    ensures
        found == occurs_in(part@, text@),
{
    text.contains(part)
}

/// Puts `middle` between two texts.
pub(crate) fn sentence(start: &str, middle: &str, end: &str) -> (sentence: String)
    ensures
        sentence@ == start@ + middle@ + end@,
{
    start.to_owned().concat(middle).concat(end)
}

/// A text occurs in whatever begins with it.
pub proof fn prefix_occurs(whole: Seq<char>, part: Seq<char>)
    requires
        begins_with(whole, part),
    ensures
        occurs_in(part, whole),
{
}

} // verus!
