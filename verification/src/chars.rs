//! Character classes.
//!
//! Whitespace, letters and letters-or-digits are Unicode properties whose
//! tables live in the standard library. Each is named here by a spec
//! function without a body, and the predicate of `char` that decides it is
//! tied to the name without proof. The grammar is stated over the names, so
//! it holds whatever the tables say: nothing is assumed of which characters
//! belong to a class, nor of how the classes overlap. ASCII digits are
//! defined outright.

use vstd::prelude::*;

verus! {

/// Whether `c` has the Unicode property `White_Space`: what
/// `char::is_whitespace` answers for it.
pub uninterp spec fn unicode_whitespace(c: char) -> bool;

/// Whether `c` has the Unicode property `Alphabetic`: what
/// `char::is_alphabetic` answers for it.
pub uninterp spec fn unicode_alphabetic(c: char) -> bool;

/// Whether `c` is alphabetic or numeric in the sense of Unicode: what
/// `char::is_alphanumeric` answers for it.
pub uninterp spec fn unicode_alphanumeric(c: char) -> bool;

/// Whether `c` is one of the ten ASCII decimal digits.
pub open spec fn ascii_digit(c: char) -> bool {
    '0' <= c <= '9'
}

/// Trusted: `char::is_whitespace` decides the `White_Space` property. The
/// result is only named; nothing is said of which characters have it.
pub assume_specification[ char::is_whitespace ](c: char) -> (b: bool)
    ensures
        b == unicode_whitespace(c),
;

/// Trusted: `char::is_alphabetic` decides the `Alphabetic` property. The
/// result is only named.
pub assume_specification[ char::is_alphabetic ](c: char) -> (b: bool)
    ensures
        b == unicode_alphabetic(c),
;

/// Trusted: `char::is_alphanumeric` decides whether a character is
/// alphabetic or numeric. The result is only named.
pub assume_specification[ char::is_alphanumeric ](c: char) -> (b: bool)
    ensures
        b == unicode_alphanumeric(c),
;

/// Trusted: `char::is_ascii_digit` holds exactly of the characters from
/// U+0030 `'0'` to U+0039 `'9'`.
pub assume_specification[ char::is_ascii_digit ](c: &char) -> (b: bool)
    ensures
        b == ascii_digit(*c),
;

/// The classes of characters that the scanner reads in runs.
#[derive(Clone, Copy, Debug, PartialEq, Eq, Structural)]
pub enum CharClass {
    Whitespace,
    Alphanumeric,
    Digit,
}

impl CharClass {
    /// Whether `c` belongs to the class.
    pub open spec fn contains(self, c: char) -> bool {
        match self {
            CharClass::Whitespace => unicode_whitespace(c),
            CharClass::Alphanumeric => unicode_alphanumeric(c),
            CharClass::Digit => ascii_digit(c),
        }
    }

    /// Decides whether `c` belongs to the class.
    pub fn test(self, c: char) -> (b: bool)
        ensures
            b == self.contains(c),
    {
        match self {
            CharClass::Whitespace => c.is_whitespace(),
            CharClass::Alphanumeric => c.is_alphanumeric(),
            CharClass::Digit => c.is_ascii_digit(),
        }
    }
}

} // verus!
