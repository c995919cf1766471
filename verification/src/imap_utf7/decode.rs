//! Reading a well-formed wire form back into text.

use crate::imap_utf7::base64::{decode_symbols, symbols_end};
use crate::text::{char_from_u32, push_char};
use crate::imap_utf7::utf16::{
    is_high_surrogate, lemma_scan_stays_broken, scan, scanned_chars, units_of_bytes,
    utf16_decode, well_formed,
};
use crate::imap_utf7::validate::validate_bytes;
use crate::imap_utf7::ImapUtf7ValidateError;
use crate::imap_utf7::wire::{
    code_unit_error, decode_at, decode_spec, payload_error, payload_text, validate_at, validate_spec, MARKER,
    TERMINATOR,
};
use vstd::prelude::*;
use vstd::slice::slice_subrange;

verus! {

/// Append the text of well-formed big-endian UTF-16 bytes.
fn push_utf16_text(out: &mut String, bytes: &Vec<u8>)
    requires
        bytes@.len() % 2 == 0,
        well_formed(units_of_bytes(bytes@)),
    ensures
        final(out)@ == old(out)@ + utf16_decode(units_of_bytes(bytes@)),
{
    let ghost units = units_of_bytes(bytes@);
    let count: usize = bytes.len() / 2;
    let mut pending_high: Option<u16> = None;
    let mut k: usize = 0;
    while k < count
        invariant
            units == units_of_bytes(bytes@),
            count == units.len(),
            bytes@.len() == 2 * count,
            2 * count <= usize::MAX,
            k <= count,
            well_formed(units),
            scan(units, k as nat) == Some(pending_high is Some),
            pending_high is Some ==> k >= 1 && pending_high == Some(units[k - 1])
                && is_high_surrogate(units[k - 1]),
            out@ == old(out)@ + scanned_chars(units, k as nat),
        decreases count - k,
    {
        let high: u8 = bytes[2 * k];
        let low: u8 = bytes[2 * k + 1];
        let unit: u16 = ((high as u16) << 8) | (low as u16);
        assert(unit == high * 256 + low) by (bit_vector)
            requires
                unit == ((high as u16) << 8) | (low as u16),
        ;
        assert(unit == units[k as int]);
        proof {
            if scan(units, (k + 1) as nat) is None {
                lemma_scan_stays_broken(units, (k + 1) as nat, units.len());
            }
        }
        if 0xD800 <= unit && unit <= 0xDBFF {
            pending_high = Some(unit);
        } else if 0xDC00 <= unit && unit <= 0xDFFF {
            match pending_high {
                Some(h) => {
                    let code: u32 = 0x10000 + ((h - 0xD800) as u32) * 0x400 + ((unit
                        - 0xDC00) as u32);
                    match char_from_u32(code) {
                        Some(c) => {
                            push_char(out, c);
                        },
                        None => {},
                    }
                },
                None => {},
            }
            pending_high = None;
        } else {
            match char_from_u32(unit as u32) {
                Some(c) => {
                    push_char(out, c);
                },
                None => {},
            }
        }
        k += 1;
    }
}

/// Decode the escape run whose marker stands at `i`, and return the
/// position after its terminator.
fn decode_run(bytes: &[u8], i: usize, out: &mut String) -> (next: usize)
    requires
        i < bytes@.len(),
        bytes@[i as int] == MARKER,
        !(i + 1 < bytes@.len() && bytes@[i + 1] == TERMINATOR),
        validate_at(bytes@, i as int) is Ok,
    ensures
        i < next <= bytes@.len(),
        validate_at(bytes@, next as int) is Ok,
        final(out)@ + decode_at(bytes@, next as int) == old(out)@ + decode_at(bytes@, i as int),
{
    let n: usize = bytes.len();
    let start: usize = i + 1;
    let j: usize = symbols_end(bytes, start);
    assert(j < n);
    let payload = slice_subrange(bytes, start, j);
    let decoded = decode_symbols(payload);
    proof {
        assert(payload_error(payload@, j as int) is None);
        reveal(payload_error);
        reveal(code_unit_error);
        reveal(payload_text);
    }
    push_utf16_text(out, &decoded);
    proof {
        let run = payload_text(payload@);
        assert(decode_at(bytes@, i as int) == run + decode_at(bytes@, j + 1));
        assert((old(out)@ + run) + decode_at(bytes@, j + 1) =~= old(out)@ + (run + decode_at(
            bytes@,
            j + 1,
        )));
    }
    j + 1
}

/// Decode well-formed wire bytes into text.
pub(crate) fn decode_valid_bytes(bytes: &[u8]) -> (out: String)
    requires
        validate_spec(bytes@) is Ok,
    ensures
        out@ == decode_spec(bytes@),
{
    let mut out = String::new();
    let n: usize = bytes.len();
    let mut i: usize = 0;
    while i < n
        invariant
            n == bytes@.len(),
            i <= n,
            validate_at(bytes@, i as int) is Ok,
            out@ + decode_at(bytes@, i as int) == decode_at(bytes@, 0),
        decreases n - i,
    {
        let b: u8 = bytes[i];
        let ghost before = out@;
        if b != MARKER {
            push_char(&mut out, b as char);
            proof {
                assert((before + seq![b as char]) + decode_at(bytes@, i + 1) =~= before + (seq![
                    b as char,
                ] + decode_at(bytes@, i + 1)));
                assert(before.push(b as char) =~= before + seq![b as char]);
            }
            i += 1;
        } else if n - i > 1 && bytes[i + 1] == TERMINATOR {
            push_char(&mut out, '&');
            proof {
                assert((before + seq!['&']) + decode_at(bytes@, i + 2) =~= before + (seq!['&']
                    + decode_at(bytes@, i + 2)));
                assert(before.push('&') =~= before + seq!['&']);
            }
            i += 2;
        } else {
            i = decode_run(bytes, i, &mut out);
        }
    }
    assert(out@ + Seq::<char>::empty() =~= out@);
    out
}

/// Decode a wire form that is known to be well formed into text.
pub(crate) fn decode_valid(input: &str) -> (out: String)
    requires
        validate_spec(vstd::utf8::encode_utf8(input@)) is Ok,
    ensures
        out@ == decode_spec(vstd::utf8::encode_utf8(input@)),
{
    decode_valid_bytes(input.as_bytes())
}

/// Decode wire bytes into text, where they are well formed; else say what
/// is wrong with them, as validation does.
pub fn decode_bytes(bytes: &[u8]) -> (r: Result<String, ImapUtf7ValidateError>)
    ensures
        match r {
            Ok(text) => validate_spec(bytes@) is Ok && text@ == decode_spec(bytes@),
            Err(e) => validate_spec(bytes@) == Err::<(), ImapUtf7ValidateError>(e),
        },
{
    match validate_bytes(bytes) {
        Ok(()) => Ok(decode_valid_bytes(bytes)),
        Err(e) => Err(e),
    }
}

/// Decode a wire form into text, where it is well formed; else say what is
/// wrong with it, as validation does.
pub fn decode_imap_utf7(input: &str) -> (r: Result<String, ImapUtf7ValidateError>)
    ensures
        match r {
            Ok(text) => validate_spec(vstd::utf8::encode_utf8(input@)) is Ok && text@
                == decode_spec(vstd::utf8::encode_utf8(input@)),
            Err(e) => validate_spec(vstd::utf8::encode_utf8(input@)) == Err::<
                (),
                ImapUtf7ValidateError,
            >(e),
        },
{
    decode_bytes(input.as_bytes())
}

} // verus!
