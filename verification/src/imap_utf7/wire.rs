//! The wire form as a function on bytes: what a text is written as, which
//! byte strings are well formed, and what a well-formed one reads as.

use crate::imap_utf7::base64::{base64_decode, base64_encode, symbols_from};
use crate::imap_utf7::utf16::{
    scan, units_of_bytes, utf16_be_bytes, utf16_decode, utf16_encode, well_formed,
};
use crate::imap_utf7::ImapUtf7ValidateError;
use vstd::prelude::*;

verus! {

/// The escape marker, `&`.
pub const MARKER: u8 = 38;

/// The terminator of an escape run, `-`.
pub const TERMINATOR: u8 = 45;

/// Whether a character is printable ASCII (U+0020 to U+007E).
pub open spec fn is_printable(c: char) -> bool {
    0x20 <= c as u32 <= 0x7e
}

/// Whether a character stands for itself in the wire form: printable ASCII
/// other than the escape marker.
pub open spec fn is_direct(c: char) -> bool {
    is_printable(c) && c != '&'
}

/// The code of a character is the character as a number.
pub proof fn lemma_char_code(c: char)
    ensures
        (c as u32) as int == c as int,
        (c as u32) as char == c,
        (c as u32) < 0x80 ==> (c as u32) as u8 == c as u8,
        (c as u32) < 0x80 <==> '\0' <= c <= '\u{7f}',
        c == '&' <==> (c as u32) == 0x26,
{
}

/// How many characters from `from` on are not printable ASCII, up to the
/// first that is.
pub open spec fn shifted_from(text: Seq<char>, from: int) -> nat
    decreases text.len() - from,
{
    if 0 <= from < text.len() && !is_printable(text[from]) {
        1 + shifted_from(text, from + 1)
    } else {
        0
    }
}

/// One escape run: the marker, the modified base64 of the characters'
/// big-endian UTF-16, and the terminator.
pub open spec fn escape_run(chars: Seq<char>) -> Seq<u8> {
    seq![MARKER] + base64_encode(utf16_be_bytes(utf16_encode(chars))) + seq![TERMINATOR]
}

/// The wire form of the text from position `i` on.
pub open spec fn encode_at(text: Seq<char>, i: int) -> Seq<u8>
    decreases
            if i <= text.len() {
                text.len() - i
            } else {
                0
            },
{
    if i < 0 || i >= text.len() {
        Seq::empty()
    } else if text[i] == '&' {
        seq![MARKER, TERMINATOR] + encode_at(text, i + 1)
    } else if is_printable(text[i]) {
        seq![text[i] as u8] + encode_at(text, i + 1)
    } else {
        let j = i + 1 + shifted_from(text, i + 1);
        escape_run(text.subrange(i, j)) + encode_at(text, j)
    }
}

/// The wire form of a text.
pub open spec fn encode_spec(text: Seq<char>) -> Seq<u8> {
    encode_at(text, 0)
}

/// What is wrong with the code units that alphabet symbols hold, if
/// anything: a surrogate without its partner among the whole code units, or
/// a last odd byte, reported with the offset `end`.
#[verifier::opaque]
pub open spec fn code_unit_error(payload: Seq<u8>, end: int) -> Option<ImapUtf7ValidateError> {
    let bytes = base64_decode(payload);
    let units = units_of_bytes(bytes);
    if scan(units, units.len()) is None {
        Some(ImapUtf7ValidateError::InvalidUtf16)
    } else if bytes.len() % 2 == 1 {
        Some(ImapUtf7ValidateError::InvalidUtf16Length(end as usize))
    } else if !well_formed(units) {
        Some(ImapUtf7ValidateError::InvalidUtf16)
    } else {
        None
    }
}

/// What is wrong with the payload of an escape run whose terminator stands
/// at `end`, if anything: a byte that is no alphabet symbol (reported with
/// its offset in the payload), no symbols at all or a count of symbols that
/// leaves six bits over alone, or what is wrong with the code units that
/// the symbols hold.
#[verifier::opaque]
pub open spec fn payload_error(payload: Seq<u8>, end: int) -> Option<ImapUtf7ValidateError> {
    if symbols_from(payload, 0) < payload.len() {
        Some(ImapUtf7ValidateError::InvalidBase64Char(symbols_from(payload, 0) as usize))
    } else if payload.len() == 0 || payload.len() % 4 == 1 {
        Some(ImapUtf7ValidateError::InvalidBase64Length(end as usize))
    } else {
        code_unit_error(payload, end)
    }
}

/// The first fault at or after position `i`, with its byte offset, or `Ok`
/// where the rest is well formed.
pub open spec fn validate_at(s: Seq<u8>, i: int) -> Result<(), ImapUtf7ValidateError>
    decreases s.len() - i,
{
    if i < 0 || i >= s.len() {
        Ok(())
    } else if s[i] >= 128 {
        Err(ImapUtf7ValidateError::NonAscii(i as usize))
    } else if s[i] != MARKER {
        validate_at(s, i + 1)
    } else if i + 1 < s.len() && s[i + 1] == TERMINATOR {
        validate_at(s, i + 2)
    } else {
        let j = i + 1 + symbols_from(s, i + 1);
        if j >= s.len() {
            Err(ImapUtf7ValidateError::UnterminatedSequence(i as usize))
        } else if s[j] != TERMINATOR {
            Err(ImapUtf7ValidateError::InvalidBase64Char(j as usize))
        } else {
            match payload_error(s.subrange(i + 1, j), j) {
                Some(e) => Err(e),
                None => validate_at(s, j + 1),
            }
        }
    }
}

/// The first fault of a candidate, or `Ok` for a well-formed wire form.
pub open spec fn validate_spec(s: Seq<u8>) -> Result<(), ImapUtf7ValidateError> {
    validate_at(s, 0)
}

/// The text that the payload of an escape run holds.
#[verifier::opaque]
pub open spec fn payload_text(payload: Seq<u8>) -> Seq<char> {
    utf16_decode(units_of_bytes(base64_decode(payload)))
}

/// What the wire form reads as from position `i` on.
pub open spec fn decode_at(s: Seq<u8>, i: int) -> Seq<char>
    decreases
            if i <= s.len() {
                s.len() - i
            } else {
                0
            },
{
    if i < 0 || i >= s.len() {
        Seq::empty()
    } else if s[i] != MARKER {
        seq![s[i] as char] + decode_at(s, i + 1)
    } else if i + 1 < s.len() && s[i + 1] == TERMINATOR {
        seq!['&'] + decode_at(s, i + 2)
    } else {
        let j = i + 1 + symbols_from(s, i + 1);
        payload_text(s.subrange(i + 1, j)) + decode_at(s, j + 1)
    }
}

/// What a well-formed wire form reads as.
pub open spec fn decode_spec(s: Seq<u8>) -> Seq<char> {
    decode_at(s, 0)
}

} // verus!
