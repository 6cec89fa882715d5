//! The rules that a request must meet before it is acted on.

use vstd::prelude::*;

verus! {

/// A field of a request that broke its rule.
#[derive(Debug, Clone, Copy, PartialEq, Eq, Structural)]
pub enum InvalidField {
    /// An annotator's address must have 1 to 200 characters.
    SuiAddress,
    /// A mission's name must have 1 to 100 characters.
    Name,
    /// A mission's description must have 1 to 500 characters.
    Description,
    /// A submission must hold at least one item.
    Submissions,
}

/// Whether a text of `length` characters has at least `min` and at most
/// `max`.
pub open spec fn length_within(length: nat, min: u64, max: u64) -> bool {
    min <= length <= max
}

/// Calls `validator::ValidateLength::validate_length` on a `String`, with a
/// least and a greatest length and no exact one. That function counts the
/// text's characters and says whether the count lies within the two bounds,
/// both included.
#[verifier::external_body]
pub(crate) fn text_length_within(value: &String, min: u64, max: u64) -> (ok: bool)
    ensures
        ok == length_within(value@.len(), min, max),
{
    validator::ValidateLength::validate_length(value, Some(min), Some(max), None)
}

/// Calls `validator::ValidateLength::validate_length` on a `Vec`, with a
/// least length only. That function takes the number of elements and says
/// whether it is at least the bound.
#[verifier::external_body]
pub(crate) fn list_length_at_least<T>(value: &Vec<T>, min: u64) -> (ok: bool)
    ensures
        ok == (min <= value@.len()),
{
    validator::ValidateLength::validate_length(value, Some(min), None, None)
}

} // verus!
