//! What the scanner relies on from the standard library's strings, beyond
//! what `vstd` already states.

use vstd::prelude::*;

verus! {

/// Trusted: `String::push` appends the character to the end of the string
/// and changes nothing else of it.
pub assume_specification[ String::push ](s: &mut String, c: char)
    ensures
        final(s)@ == old(s)@.push(c),
;

/// Trusted: `eq` of `PartialEq` for `str`, which compares two string
/// slices, holds exactly when they are made of the same characters.
pub assume_specification[ <str as PartialEq>::eq ](a: &str, b: &str) -> (r: bool)
    ensures
        r == (a@ == b@),
;

} // verus!
