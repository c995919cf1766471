//! Validation of a candidate wire form, in one pass and without allocating.

use crate::imap_utf7::base64::{
    all_symbols, base64_decode, first_byte, lemma_symbols_from, second_byte, symbol_value,
    symbols_end, symbols_from, third_byte, value_of,
};
use crate::imap_utf7::utf16::{lemma_scan_stays_broken, scan, scan_step, units_of_bytes};
use crate::imap_utf7::wire::{
    code_unit_error, payload_error, validate_at, validate_spec, MARKER, TERMINATOR,
};
use crate::imap_utf7::ImapUtf7ValidateError;
use vstd::prelude::*;
use vstd::slice::slice_subrange;

verus! {

/// What the check of a payload remembers between bytes.
pub struct Utf16Check {
    /// The high byte of a code unit whose low byte has not come yet.
    pub pending_byte: Option<u8>,
    /// Whether a high surrogate waits for its partner.
    pub awaiting_low: bool,
}

/// The state after one more byte, or `None` where the byte completes a code
/// unit that cannot follow.
pub open spec fn feed(st: Utf16Check, byte: u8) -> Option<Utf16Check> {
    match st.pending_byte {
        None => Some(Utf16Check { pending_byte: Some(byte), awaiting_low: st.awaiting_low }),
        Some(high) => match scan_step(st.awaiting_low, (high * 256 + byte) as u16) {
            None => None,
            Some(p) => Some(Utf16Check { pending_byte: None, awaiting_low: p }),
        },
    }
}

/// The state after the first `k` bytes.
pub open spec fn feed_all(bytes: Seq<u8>, k: nat) -> Option<Utf16Check>
    decreases k,
{
    if k == 0 {
        Some(Utf16Check { pending_byte: None, awaiting_low: false })
    } else {
        match feed_all(bytes, (k - 1) as nat) {
            None => None,
            Some(st) => feed(st, bytes[k - 1]),
        }
    }
}

/// Feeding bytes one by one reads the code units that they hold.
pub proof fn lemma_feed_all_scan(bytes: Seq<u8>, k: nat)
    requires
        k <= bytes.len(),
    ensures
        match feed_all(bytes, k) {
            None => scan(units_of_bytes(bytes), k / 2) is None,
            Some(st) => {
                &&& scan(units_of_bytes(bytes), k / 2) == Some(st.awaiting_low)
                &&& st.pending_byte == (if k % 2 == 1 {
                    Some(bytes[k - 1])
                } else {
                    None
                })
            },
        },
    decreases k,
{
    if k > 0 {
        lemma_feed_all_scan(bytes, (k - 1) as nat);
        let units = units_of_bytes(bytes);
        if k % 2 == 0 {
            let m = (k / 2 - 1) as int;
            assert(units[m] == (bytes[2 * m] * 256 + bytes[2 * m + 1]) as u16);
            assert((k - 1) / 2 == m);
        } else {
            assert((k - 1) / 2 == k / 2);
        }
    }
}

/// Take one more byte into the check. Returns false where the byte
/// completes a code unit that cannot follow.
fn push_byte(st: &mut Utf16Check, byte: u8) -> (ok: bool)
    ensures
        match feed(*old(st), byte) {
            None => !ok,
            Some(next) => ok && *final(st) == next,
        },
{
    match st.pending_byte {
        None => {
            st.pending_byte = Some(byte);
            true
        },
        Some(high) => {
            let code_unit: u16 = ((high as u16) << 8) | (byte as u16);
            assert(code_unit == high * 256 + byte) by (bit_vector)
                requires
                    code_unit == ((high as u16) << 8) | (byte as u16),
            ;
            st.pending_byte = None;
            if 0xD800 <= code_unit && code_unit <= 0xDBFF {
                if st.awaiting_low {
                    return false;
                }
                st.awaiting_low = true;
                true
            } else if 0xDC00 <= code_unit && code_unit <= 0xDFFF {
                if !st.awaiting_low {
                    return false;
                }
                st.awaiting_low = false;
                true
            } else {
                !st.awaiting_low
            }
        },
    }
}

/// Take byte `k` of `bytes` into the check of its first `k` bytes. Returns
/// false where a surrogate among the code units of `bytes` stands unmatched.
fn push_next(st: &mut Utf16Check, byte: u8, Ghost(bytes): Ghost<Seq<u8>>, Ghost(k): Ghost<nat>) -> (ok:
    bool)
    requires
        k < bytes.len(),
        bytes[k as int] == byte,
        feed_all(bytes, k) == Some(*old(st)),
    ensures
        ok ==> feed_all(bytes, k + 1) == Some(*final(st)),
        !ok ==> scan(units_of_bytes(bytes), units_of_bytes(bytes).len()) is None,
{
    let ok = push_byte(st, byte);
    proof {
        assert(feed_all(bytes, k + 1) == feed(*old(st), byte));
        if !ok {
            lemma_feed_all_scan(bytes, k + 1);
            lemma_scan_stays_broken(
                units_of_bytes(bytes),
                (k + 1) / 2,
                units_of_bytes(bytes).len(),
            );
        }
    }
    ok
}

/// The bytes that a whole group of four symbols holds.
proof fn lemma_decoded_group(symbols: Seq<u8>, q: int)
    requires
        0 <= q,
        4 * q + 4 <= symbols.len(),
    ensures
        3 * q + 3 <= base64_decode(symbols).len(),
        base64_decode(symbols)[3 * q] == (symbol_value(symbols[4 * q]) * 4 + symbol_value(
            symbols[4 * q + 1],
        ) / 16) as u8,
        base64_decode(symbols)[3 * q + 1] == ((symbol_value(symbols[4 * q + 1]) % 16) * 16
            + symbol_value(symbols[4 * q + 2]) / 4) as u8,
        base64_decode(symbols)[3 * q + 2] == ((symbol_value(symbols[4 * q + 2]) % 4) * 64
            + symbol_value(symbols[4 * q + 3])) as u8,
{
    assert((3 * q) / 3 == q && (3 * q) % 3 == 0);
    assert((3 * q + 1) / 3 == q && (3 * q + 1) % 3 == 1);
    assert((3 * q + 2) / 3 == q && (3 * q + 2) % 3 == 2);
}

/// The bytes that the symbols after the last whole group hold.
proof fn lemma_decoded_tail(symbols: Seq<u8>, q: int)
    requires
        0 <= q,
        4 * q <= symbols.len() < 4 * q + 4,
    ensures
        symbols.len() == 4 * q ==> base64_decode(symbols).len() == 3 * q,
        symbols.len() == 4 * q + 1 ==> base64_decode(symbols).len() == 3 * q,
        symbols.len() == 4 * q + 2 ==> {
            &&& base64_decode(symbols).len() == 3 * q + 1
            &&& base64_decode(symbols)[3 * q] == (symbol_value(symbols[4 * q]) * 4 + symbol_value(
                symbols[4 * q + 1],
            ) / 16) as u8
        },
        symbols.len() == 4 * q + 3 ==> {
            &&& base64_decode(symbols).len() == 3 * q + 2
            &&& base64_decode(symbols)[3 * q] == (symbol_value(symbols[4 * q]) * 4 + symbol_value(
                symbols[4 * q + 1],
            ) / 16) as u8
            &&& base64_decode(symbols)[3 * q + 1] == ((symbol_value(symbols[4 * q + 1]) % 16) * 16
                + symbol_value(symbols[4 * q + 2]) / 4) as u8
        },
{
    assert((3 * q) / 3 == q && (3 * q) % 3 == 0);
    assert((3 * q + 1) / 3 == q && (3 * q + 1) % 3 == 1);
}

/// Validate the payload of an escape run, whose terminator stands at
/// `seq_end`, and the UTF-16 that it holds, without allocating. Faults of
/// the alphabet come first: a byte that is no alphabet symbol is reported,
/// with its offset in the payload, before the count of the symbols is
/// looked at and before any fault of the code units, also where a surrogate
/// stands unmatched before that byte.
#[verifier::rlimit(50)]
pub fn validate_mutf7_base64_utf16(input: &[u8], seq_end: usize) -> (r: Result<
    (),
    ImapUtf7ValidateError,
>)
    ensures
        r == match payload_error(input@, seq_end as int) {
            Some(e) => Err::<(), ImapUtf7ValidateError>(e),
            None => Ok(()),
        },
{
    proof {
        reveal(payload_error);
        reveal(code_unit_error);
    }
    let n: usize = input.len();
    let end = symbols_end(input, 0);
    if end < n {
        return Err(ImapUtf7ValidateError::InvalidBase64Char(end));
    }
    assert(input@.subrange(0, end as int) =~= input@);
    if n == 0 || n % 4 == 1 {
        return Err(ImapUtf7ValidateError::InvalidBase64Length(seq_end));
    }
    let ghost bytes = base64_decode(input@);
    let mut st = Utf16Check { pending_byte: None, awaiting_low: false };
    let mut i: usize = 0;
    let mut fed: Ghost<nat> = Ghost(0);
    while n - i >= 4
        invariant
            n == input@.len(),
            all_symbols(input@),
            bytes == base64_decode(input@),
            i <= n,
            n > 0,
            n % 4 != 1,
            symbols_from(input@, 0) == n,
            i == 4 * (fed@ / 3),
            fed@ % 3 == 0,
            feed_all(bytes, fed@) == Some(st),
        decreases n - i,
    {
        let s0: u8 = value_of(input[i]);
        let s1: u8 = value_of(input[i + 1]);
        let s2: u8 = value_of(input[i + 2]);
        let s3: u8 = value_of(input[i + 3]);
        proof {
            reveal(payload_error);
            reveal(code_unit_error);
            lemma_decoded_group(input@, (fed@ / 3) as int);
        }
        if !push_next(&mut st, first_byte(s0, s1), Ghost(bytes), Ghost(fed@)) {
            return Err(ImapUtf7ValidateError::InvalidUtf16);
        }
        if !push_next(&mut st, second_byte(s1, s2), Ghost(bytes), Ghost(fed@ + 1)) {
            return Err(ImapUtf7ValidateError::InvalidUtf16);
        }
        if !push_next(&mut st, third_byte(s2, s3), Ghost(bytes), Ghost(fed@ + 2)) {
            return Err(ImapUtf7ValidateError::InvalidUtf16);
        }
        proof {
            fed@ = fed@ + 3;
        }
        i += 4;
    }
    proof {
        lemma_decoded_tail(input@, (fed@ / 3) as int);
    }
    let rem: usize = n - i;
    if rem == 2 {
        let s0: u8 = value_of(input[i]);
        let s1: u8 = value_of(input[i + 1]);
        if !push_next(&mut st, first_byte(s0, s1), Ghost(bytes), Ghost(fed@)) {
            return Err(ImapUtf7ValidateError::InvalidUtf16);
        }
    } else if rem == 3 {
        let s0: u8 = value_of(input[i]);
        let s1: u8 = value_of(input[i + 1]);
        let s2: u8 = value_of(input[i + 2]);
        if !push_next(&mut st, first_byte(s0, s1), Ghost(bytes), Ghost(fed@)) {
            return Err(ImapUtf7ValidateError::InvalidUtf16);
        }
        if !push_next(&mut st, second_byte(s1, s2), Ghost(bytes), Ghost(fed@ + 1)) {
            return Err(ImapUtf7ValidateError::InvalidUtf16);
        }
    }
    proof {
        assert(feed_all(bytes, bytes.len()) == Some(st));
        lemma_feed_all_scan(bytes, bytes.len());
    }
    if st.pending_byte.is_some() {
        return Err(ImapUtf7ValidateError::InvalidUtf16Length(seq_end));
    }
    if st.awaiting_low {
        return Err(ImapUtf7ValidateError::InvalidUtf16);
    }
    Ok(())
}

/// Validate the escape run whose marker stands at `i`, and return the
/// position after its terminator.
fn validate_run(bytes: &[u8], i: usize) -> (r: Result<usize, ImapUtf7ValidateError>)
    requires
        i < bytes@.len(),
        bytes@[i as int] == MARKER,
        !(i + 1 < bytes@.len() && bytes@[i + 1] == TERMINATOR),
    ensures
        validate_at(bytes@, i as int) == match r {
            Ok(next) => validate_at(bytes@, next as int),
            Err(e) => Err(e),
        },
        match r {
            Ok(next) => i < next <= bytes@.len(),
            Err(_) => true,
        },
{
    let n: usize = bytes.len();
    let start: usize = i + 1;
    let j: usize = symbols_end(bytes, start);
    if j >= n {
        return Err(ImapUtf7ValidateError::UnterminatedSequence(i));
    }
    if bytes[j] != TERMINATOR {
        return Err(ImapUtf7ValidateError::InvalidBase64Char(j));
    }
    if (j - start) % 4 == 1 {
        proof {
            reveal(payload_error);
            lemma_symbols_from(bytes@.subrange(start as int, j as int), 0, j - start);
        }
        return Err(ImapUtf7ValidateError::InvalidBase64Length(j));
    }
    let payload = slice_subrange(bytes, start, j);
    proof {
        lemma_symbols_from(payload@, 0, payload@.len() as int);
    }
    match validate_mutf7_base64_utf16(payload, j) {
        Err(e) => Err(e),
        Ok(()) => Ok(j + 1),
    }
}

/// Validate candidate bytes without allocating.
pub fn validate_bytes(bytes: &[u8]) -> (r: Result<(), ImapUtf7ValidateError>)
    ensures
        r == validate_spec(bytes@),
{
    let n: usize = bytes.len();
    let mut i: usize = 0;
    while i < n
        invariant
            n == bytes@.len(),
            i <= n,
            validate_at(bytes@, i as int) == validate_at(bytes@, 0),
        decreases n - i,
    {
        let b: u8 = bytes[i];
        if b >= 128 {
            return Err(ImapUtf7ValidateError::NonAscii(i));
        } else if b != MARKER {
            i += 1;
        } else if n - i > 1 && bytes[i + 1] == TERMINATOR {
            i += 2;
        } else {
            match validate_run(bytes, i) {
                Err(e) => {
                    return Err(e);
                },
                Ok(next) => {
                    i = next;
                },
            }
        }
    }
    Ok(())
}

/// Validate a candidate wire form without allocating.
pub fn validate_imap_utf7(input: &str) -> (r: Result<(), ImapUtf7ValidateError>)
    ensures
        r == validate_spec(vstd::utf8::encode_utf8(input@)),
{
    validate_bytes(input.as_bytes())
}

} // verus!
