//! Character classes and string building blocks shared by both lexers.

use vstd::prelude::*;

verus! {

/// Whether `c` is alphanumeric in the sense of `char::is_alphanumeric`.
pub uninterp spec fn alphanumeric(c: char) -> bool;

/// Whether `c` is numeric in the sense of `char::is_numeric`.
pub uninterp spec fn numeric(c: char) -> bool;

/// Whether `c` is white space in the sense of `char::is_whitespace`.
pub uninterp spec fn whitespace(c: char) -> bool;

/// Calls `char::is_alphanumeric`; the result is the Unicode classification
/// that the standard library carries, named [`alphanumeric`] here.
#[verifier::external_body]
pub(crate) fn is_alphanumeric(c: char) -> (r: bool)
    ensures
        r == alphanumeric(c),
{
    c.is_alphanumeric()
}

/// Calls `char::is_numeric`; the result is the Unicode classification that
/// the standard library carries, named [`numeric`] here.
#[verifier::external_body]
pub(crate) fn is_numeric(c: char) -> (r: bool)
    ensures
        r == numeric(c),
{
    c.is_numeric()
}

/// Calls `char::is_whitespace`; the result is the Unicode `White_Space`
/// property as the standard library carries it, named [`whitespace`] here.
#[verifier::external_body]
pub(crate) fn is_whitespace(c: char) -> (r: bool)
    ensures
        r == whitespace(c),
{
    c.is_whitespace()
}

/// Calls `String::push`, which appends `c` to the end of `s`.
#[verifier::external_body]
pub(crate) fn push_char(s: &mut String, c: char)
    ensures
        final(s)@ == old(s)@.push(c),
{
    s.push(c)
}

/// Calls `char::from_u32`, which yields the character with scalar value `v`
/// and `None` when `v` is a surrogate or lies above `0x10FFFF`.
#[verifier::external_body]
pub(crate) fn char_from_scalar(v: u32) -> (r: Option<char>)
    ensures
        r == (if vstd::utf8::is_scalar(v) {
            Some(v as char)
        } else {
            None
        }),
{
    char::from_u32(v)
}

/// Whether `text` reads as `word`.
pub(crate) fn text_is(text: &String, word: &str) -> (r: bool)
    ensures
        r == (text@ == word@),
{
    let other = word.to_owned();
    *text == other
}

/// Whether `c` is one of the ASCII letters.
pub open spec fn ascii_letter(c: char) -> bool {
    ('a' <= c && c <= 'z') || ('A' <= c && c <= 'Z')
}

/// Whether `c` is one of the ASCII digits.
pub open spec fn ascii_digit(c: char) -> bool {
    '0' <= c && c <= '9'
}

/// Whether `c` is one of the ASCII capital letters.
pub open spec fn ascii_uppercase(c: char) -> bool {
    'A' <= c && c <= 'Z'
}

/// Tests `c` for an ASCII letter.
pub fn is_ascii_letter(c: char) -> (r: bool)
    ensures
        r == ascii_letter(c),
{
    (c >= 'a' && c <= 'z') || (c >= 'A' && c <= 'Z')
}

/// Tests `c` for an ASCII digit.
pub fn is_ascii_digit(c: char) -> (r: bool)
    ensures
        r == ascii_digit(c),
{
    c >= '0' && c <= '9'
}

/// Tests `c` for an ASCII capital letter.
pub fn is_ascii_uppercase(c: char) -> (r: bool)
    ensures
        r == ascii_uppercase(c),
{
    c >= 'A' && c <= 'Z'
}

} // verus!
