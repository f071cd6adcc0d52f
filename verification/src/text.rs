//! Trusted text primitives: Unicode lowercasing and prefix matching.

use vstd::prelude::*;

verus! {

/// The lowercase form of a sequence of characters, as `str::to_lowercase`
/// computes it. Left uninterpreted: it depends on the characters alone.
pub uninterp spec fn lower_of(s: Seq<char>) -> Seq<char>;

/// Relies on str::to_lowercase: the result is a function of the characters
/// alone, and an empty string lowercases to an empty string.
#[verifier::external_body]
pub(crate) fn to_lowercase(s: &str) -> (r: String)
    ensures
        r@ == lower_of(s@),
        s@.len() == 0 ==> r@.len() == 0,
{
    s.to_lowercase()
}

/// Relies on str::starts_with: true exactly when the pattern's characters
/// stand at the start of the string.
#[verifier::external_body]
pub(crate) fn str_starts_with(s: &str, prefix: &str) -> (r: bool)
    ensures
        r == prefix@.is_prefix_of(s@),
{
    s.starts_with(prefix)
}

} // verus!
