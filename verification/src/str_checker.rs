//! Character classes, and the predicates that hold a whole string to one of them.

use vstd::prelude::*;

verus! {

/// Whether `c` has the Unicode property `Alphabetic`.
pub uninterp spec fn alphabetic(c: char) -> bool;

/// Whether `c` belongs to one of the Unicode general categories for numbers.
pub uninterp spec fn numeric(c: char) -> bool;

/// Whether `c` is alphabetic or numeric.
pub open spec fn alphanumeric(c: char) -> bool {
    alphabetic(c) || numeric(c)
}

/// `char::is_alphabetic` of std, which returns true if the character has the
/// `Alphabetic` property. The property is a fixed table over characters, so
/// the result is a function of the character alone; the table is not stated
/// here.
pub assume_specification[ std::primitive::char::is_alphabetic ](c: char) -> (b: bool)
    ensures
        b == alphabetic(c),
;

/// `char::is_numeric` of std, which returns true if the character has one of
/// the general categories for numbers. That too is a fixed table over
/// characters, not stated here.
pub assume_specification[ std::primitive::char::is_numeric ](c: char) -> (b: bool)
    ensures
        b == numeric(c),
;

/// `char::is_alphanumeric` of std, which returns true if the character
/// satisfies either `is_alphabetic` or `is_numeric`.
pub assume_specification[ std::primitive::char::is_alphanumeric ](c: char) -> (b: bool)
    ensures
        b == alphanumeric(c),
;

/// `s` is not empty and each of its characters is numeric.
pub open spec fn all_numeric(s: Seq<char>) -> bool {
    s.len() > 0 && forall|i: int| 0 <= i < s.len() ==> numeric(#[trigger] s[i])
}

/// `s` is not empty and each of its characters is alphabetic.
pub open spec fn all_alphabetic(s: Seq<char>) -> bool {
    s.len() > 0 && forall|i: int| 0 <= i < s.len() ==> alphabetic(#[trigger] s[i])
}

/// `s` is not empty and each of its characters is alphabetic or numeric.
pub open spec fn all_alphanumeric(s: Seq<char>) -> bool {
    s.len() > 0 && forall|i: int| 0 <= i < s.len() ==> alphanumeric(#[trigger] s[i])
}

/// Whether `test` is a non-empty run of numeric characters.
pub fn is_number(test: &str) -> (b: bool)
    ensures
        b == all_numeric(test@),
{
    for c in it: test.chars()
        invariant
            it.seq() == test@,
            forall|j: int| 0 <= j < it.index() ==> numeric(#[trigger] test@[j]),
    {
        if !c.is_numeric() {
            return false;
        }
    }
    !test.is_empty()
}

/// Whether `test` is a non-empty run of alphabetic characters.
pub fn is_word(test: &str) -> (b: bool)
    ensures
        b == all_alphabetic(test@),
{
    for c in it: test.chars()
        invariant
            it.seq() == test@,
            forall|j: int| 0 <= j < it.index() ==> alphabetic(#[trigger] test@[j]),
    {
        if !c.is_alphabetic() {
            return false;
        }
    }
    !test.is_empty()
}

/// Whether `test` is a non-empty run of characters that are each alphabetic
/// or numeric.
pub fn is_alphanumeric(test: &str) -> (b: bool)
    ensures
        b == all_alphanumeric(test@),
{
    for c in it: test.chars()
        invariant
            it.seq() == test@,
            forall|j: int| 0 <= j < it.index() ==> alphanumeric(#[trigger] test@[j]),
    {
        if !c.is_alphanumeric() {
            return false;
        }
    }
    !test.is_empty()
}

} // verus!
