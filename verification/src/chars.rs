//! Characters and strings: the functions of the standard library that the
//! other modules call and for which the verifier has no contract of its
//! own. Each is taken on trust, as its documentation describes it.
use vstd::prelude::*;
use vstd::utf8::{decode_utf8, is_scalar, valid_utf8};

verus! {

/// Whether a character beyond ASCII is alphanumeric: alphabetic or numeric
/// by its Unicode properties.
pub uninterp spec fn alphanumeric(c: char) -> bool;

/// The letters and digits of ASCII.
pub open spec fn is_ascii_alphanumeric(c: char) -> bool {
    ||| 'a' <= c <= 'z'
    ||| 'A' <= c <= 'Z'
    ||| '0' <= c <= '9'
}

/// The alphanumeric characters.
pub open spec fn is_alphanumeric(c: char) -> bool {
    if (c as u32) < 128 {
        is_ascii_alphanumeric(c)
    } else {
        alphanumeric(c)
    }
}

/// Trusted: `char::is_alphanumeric` of std. On ASCII it is true of the
/// letters and digits and of nothing else; beyond ASCII it goes by the
/// Unicode tables, which stand here under a name.
#[verifier::external_body]
pub(crate) fn char_is_alphanumeric(c: char) -> (r: bool)
    ensures
        r == (if (c as u32) < 128 {
            is_ascii_alphanumeric(c)
        } else {
            alphanumeric(c)
        }),
{
    c.is_alphanumeric()
}

/// Trusted: `char::from_u32` of std. It gives the character with the
/// number `v` where `v` is a Unicode scalar value, and nothing otherwise.
#[verifier::external_body]
pub(crate) fn char_from_u32(v: u32) -> (c: Option<char>)
    ensures
        c == (if is_scalar(v) {
            Some(v as char)
        } else {
            None
        }),
{
    char::from_u32(v)
}

/// Trusted: `String::push` of std, which appends one character.
#[verifier::external_body]
pub(crate) fn push_char(text: &mut String, c: char)
    ensures
        final(text)@ == old(text)@.push(c),
{
    text.push(c)
}

/// Trusted: `String::from_utf8` of std. It succeeds exactly on the bytes
/// that are valid UTF-8, with the text that they encode.
#[verifier::external_body]
pub(crate) fn string_from_utf8(bytes: Vec<u8>) -> (text: Option<String>)
    ensures
        match text {
            Some(text) => valid_utf8(bytes@) && text@ == decode_utf8(bytes@),
            None => !valid_utf8(bytes@),
        },
{
    String::from_utf8(bytes).ok()
}

} // verus!
