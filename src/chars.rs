//! Character predicates for `parse_while`.
use vstd::prelude::*;

verus! {

/// Whether `c` has the Unicode `White_Space` property.
pub uninterp spec fn unicode_whitespace(c: char) -> bool;

/// Whether `c` is Unicode `Alphabetic` or has a numeric general category.
pub uninterp spec fn unicode_alphanumeric(c: char) -> bool;

/// Relies on `char::is_whitespace`: whether `c` has the `White_Space` property.
#[verifier::external_body]
fn is_whitespace(c: char) -> (r: bool)
    ensures
        r == unicode_whitespace(c),
{
    c.is_whitespace()
}

/// Relies on `char::is_alphanumeric`: whether `c` is alphabetic or numeric.
#[verifier::external_body]
fn is_alphanumeric(c: char) -> (r: bool)
    ensures
        r == unicode_alphanumeric(c),
{
    c.is_alphanumeric()
}

/// A test on single characters, with its meaning as a spec function.
pub trait CharPredicate {
    spec fn spec_test(&self, c: char) -> bool;

    fn test(&self, c: char) -> (r: bool)
        ensures
            r == self.spec_test(c),
    ;
}

/// Common character classes.
#[derive(Debug, Clone, Copy, PartialEq, Eq)]
pub enum CharClass {
    /// Unicode white space.
    Whitespace,
    /// Unicode letters and numbers.
    Alphanumeric,
    /// The ASCII digits `0` to `9`.
    AsciiDigit,
    /// Exactly the given character.
    Is(char),
    /// Any character but the given one.
    Not(char),
}

impl CharPredicate for CharClass {
    open spec fn spec_test(&self, c: char) -> bool {
        match *self {
            CharClass::Whitespace => unicode_whitespace(c),
            CharClass::Alphanumeric => unicode_alphanumeric(c),
            CharClass::AsciiDigit => '0' <= c && c <= '9',
            CharClass::Is(d) => c == d,
            CharClass::Not(d) => c != d,
        }
    }

    fn test(&self, c: char) -> (r: bool) {
        match *self {
            CharClass::Whitespace => is_whitespace(c),
            CharClass::Alphanumeric => is_alphanumeric(c),
            CharClass::AsciiDigit => '0' <= c && c <= '9',
            CharClass::Is(d) => c == d,
            CharClass::Not(d) => c != d,
        }
    }
}

} // verus!
