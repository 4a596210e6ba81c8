//! Character classes and case-insensitive keyword matching: the lexical
//! ground layer that every parser builds on.

use vstd::prelude::*;

verus! {

/// The whitespace characters the grammar skips between tokens.
pub open spec fn is_space(c: char) -> bool {
    c == ' ' || c == '\t' || c == '\r' || c == '\n'
}

/// A decimal digit, `0` through `9`.
pub open spec fn is_digit(c: char) -> bool {
    48 <= c as u32 <= 57
}

/// What `char::is_alphanumeric` returns: whether the character's Unicode
/// general category is a letter or a number. Identifiers are runs of such
/// characters.
pub uninterp spec fn char_alphanumeric(c: char) -> bool;

/// Relies on `char::is_alphanumeric`: the result depends on the character
/// alone (its Unicode general category).
#[verifier::external_body]
pub(crate) fn exec_char_alphanumeric(c: char) -> (r: bool)
    ensures
        r == char_alphanumeric(c),
{
    c.is_alphanumeric()
}

pub(crate) fn exec_is_space(c: char) -> (r: bool)
    ensures
        r == is_space(c),
{
    c == ' ' || c == '\t' || c == '\r' || c == '\n'
}

pub(crate) fn exec_is_digit(c: char) -> (r: bool)
    ensures
        r == is_digit(c),
{
    let u = c as u32;
    48 <= u && u <= 57
}

/// ASCII lower-casing of a code point; other code points are untouched.
pub open spec fn to_lower(u: u32) -> u32 {
    if 65 <= u <= 90 {
        (u + 32) as u32
    } else {
        u
    }
}

/// Case-insensitive character equality, ASCII-folded. The grammar's keywords
/// are all ASCII, for which this matches a case-insensitive tag comparison.
pub open spec fn eq_ignore_case(a: char, b: char) -> bool {
    to_lower(a as u32) == to_lower(b as u32)
}

pub(crate) fn exec_eq_ignore_case(a: char, b: char) -> (r: bool)
    ensures
        r == eq_ignore_case(a, b),
{
    let ua = a as u32;
    let ub = b as u32;
    let la = if 65 <= ua && ua <= 90 {
        ua + 32
    } else {
        ua
    };
    let lb = if 65 <= ub && ub <= 90 {
        ub + 32
    } else {
        ub
    };
    la == lb
}

/// The text `s` holds the keyword `kw` at position `from`, compared
/// case-insensitively character by character.
pub open spec fn kw_match(s: Seq<char>, from: int, kw: Seq<char>) -> bool {
    &&& 0 <= from
    &&& from + kw.len() <= s.len()
    &&& forall|i: int| 0 <= i < kw.len() ==> eq_ignore_case(s[from + i], kw[i])
}

} // verus!
