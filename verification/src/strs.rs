//! Contracts for the few `std` string operations this crate uses that
//! `vstd` does not specify.
use vstd::prelude::*;

verus! {

/// Relies on String::push: appends exactly one character at the end.
pub assume_specification[ String::push ](s: &mut String, c: char)
    ensures
        final(s)@ == old(s)@.push(c),
;

} // verus!
