//! The two operations of std on characters and strings that text is built
//! with.

use vstd::prelude::*;

verus! {

/// `char::from_u32`: the character with the given code, where the code is a
/// Unicode scalar value (at most U+10FFFF and no surrogate), and `None`
/// otherwise. Trusted: the body is the std call.
#[verifier::external_body]
pub(crate) fn char_from_u32(code: u32) -> (r: Option<char>)
    ensures
        r == (if code <= 0x10FFFF && !(0xD800 <= code <= 0xDFFF) {
            Some(code as char)
        } else {
            None
        }),
{
    char::from_u32(code)
}

/// `String::push`: the string with the character appended. Trusted: the
/// body is the std call.
#[verifier::external_body]
pub(crate) fn push_char(s: &mut String, c: char)
    ensures
        final(s)@ == old(s)@.push(c),
{
    s.push(c)
}

} // verus!
