//! The few string functions of std that the library needs and whose meaning
//! Verus is told here.

use vstd::prelude::*;

verus! {

/// Whether `text` begins with `prefix`.
pub open spec fn starts_with(text: Seq<char>, prefix: Seq<char>) -> bool {
    prefix.len() <= text.len() && text.take(prefix.len() as int) == prefix
}

/// Whether `text` ends with `suffix`.
pub open spec fn ends_with(text: Seq<char>, suffix: Seq<char>) -> bool {
    suffix.len() <= text.len() && text.skip(text.len() - suffix.len()) == suffix
}

/// The upper-case form of an ASCII letter, and any other character as it is.
pub open spec fn ascii_upper(c: char) -> char {
    if 'a' <= c <= 'z' {
        ((c as u8) - 32) as u8 as char
    } else {
        c
    }
}

/// `text` with its ASCII letters in upper case.
pub open spec fn ascii_uppercase(text: Seq<char>) -> Seq<char> {
    text.map_values(|c: char| ascii_upper(c))
}

/// `str::to_ascii_uppercase` of std: a copy in which the ASCII letters `a` to
/// `z` are replaced by `A` to `Z`, and nothing else is changed.
#[verifier::external_body]
pub(crate) fn to_ascii_uppercase(text: &str) -> (upper: String)
    ensures
        upper@ == ascii_uppercase(text@),
{
    text.to_ascii_uppercase()
}

/// `String::push` of std: the character is appended and nothing else changes.
#[verifier::external_body]
pub(crate) fn push_char(text: &mut String, c: char)
    ensures
        final(text)@ == old(text)@.push(c),
{
    text.push(c);
}

/// `str::starts_with` of std, with a string as the pattern: whether the first
/// characters of `text` are those of `prefix`.
#[verifier::external_body]
pub(crate) fn str_starts_with(text: &str, prefix: &str) -> (r: bool)
    ensures
        r == starts_with(text@, prefix@),
{
    text.starts_with(prefix)
}

/// `str::ends_with` of std, with a string as the pattern: whether the last
/// characters of `text` are those of `suffix`.
#[verifier::external_body]
pub(crate) fn str_ends_with(text: &str, suffix: &str) -> (r: bool)
    ensures
        r == ends_with(text@, suffix@),
{
    text.ends_with(suffix)
}

} // verus!
