//! Natural-order string comparison, done by the `natord` crate.
use vstd::prelude::*;

verus! {

/// The natural-order comparison of two strings: negative, zero or positive
/// as the first sorts before, with or after the second. Embedded runs of
/// decimal digits compare by their numeric value.
pub uninterp spec fn natural_cmp(a: Seq<char>, b: Seq<char>) -> int;

/// Relies on natord::compare: a natural ordering of two strings, computed
/// from the characters alone. Its comparison treats the two arguments
/// symmetrically, so swapping them reverses the answer.
#[verifier::external_body]
pub(crate) fn natural_compare(a: &str, b: &str) -> (r: i8)
    ensures
        r == -1 || r == 0 || r == 1,
        r as int == natural_cmp(a@, b@),
        natural_cmp(b@, a@) == -(r as int),
{
    match natord::compare(a, b) {
        core::cmp::Ordering::Less => -1,
        core::cmp::Ordering::Equal => 0,
        core::cmp::Ordering::Greater => 1,
    }
}

} // verus!
