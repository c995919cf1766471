//! The modified base64 of mailbox names: the alphabet ends in `+` and `,`,
//! and there is no padding.

use crate::imap_utf7::ImapUtf7ValidateError;
use vstd::prelude::*;

verus! {

/// The alphabet symbol that stands for a six-bit value.
pub open spec fn sextet_symbol(v: int) -> u8 {
    if v < 26 {
        (65 + v) as u8
    } else if v < 52 {
        (97 + (v - 26)) as u8
    } else if v < 62 {
        (48 + (v - 52)) as u8
    } else if v == 62 {
        43u8
    } else {
        44u8
    }
}

/// Whether a byte is a symbol of the alphabet: a letter, a digit, `+` or `,`.
pub open spec fn is_symbol(b: u8) -> bool {
    (65 <= b <= 90) || (97 <= b <= 122) || (48 <= b <= 57) || b == 43 || b == 44
}

/// The six-bit value that an alphabet symbol stands for.
pub open spec fn symbol_value(b: u8) -> int {
    if 65 <= b <= 90 {
        b - 65
    } else if 97 <= b <= 122 {
        b - 97 + 26
    } else if 48 <= b <= 57 {
        b - 48 + 52
    } else if b == 43 {
        62
    } else {
        63
    }
}

/// Whether every byte of a sequence is a symbol of the alphabet.
pub open spec fn all_symbols(s: Seq<u8>) -> bool {
    forall|i: int| 0 <= i < s.len() ==> is_symbol(#[trigger] s[i])
}

/// How many bytes from `from` on are symbols of the alphabet, up to the
/// first that is not.
pub open spec fn symbols_from(s: Seq<u8>, from: int) -> nat
    decreases s.len() - from,
{
    if 0 <= from < s.len() && is_symbol(s[from]) {
        1 + symbols_from(s, from + 1)
    } else {
        0
    }
}

/// The run of alphabet symbols from `from` on ends where the first byte
/// stands that is no symbol.
pub proof fn lemma_symbols_from(s: Seq<u8>, from: int, end: int)
    requires
        0 <= from <= end <= s.len(),
        forall|k: int| from <= k < end ==> is_symbol(#[trigger] s[k]),
        end == s.len() || !is_symbol(s[end]),
    ensures
        from + symbols_from(s, from) == end,
    decreases end - from,
{
    if from < end {
        lemma_symbols_from(s, from + 1, end);
    }
}

/// The bytes that `symbols_from` counts are symbols, and the count stays
/// inside the sequence and stops at a byte that is no symbol.
pub proof fn lemma_symbols_from_bounds(s: Seq<u8>, from: int)
    requires
        0 <= from <= s.len(),
    ensures
        from + symbols_from(s, from) <= s.len(),
        forall|k: int| from <= k < from + symbols_from(s, from) ==> is_symbol(#[trigger] s[k]),
        from + symbols_from(s, from) == s.len() || !is_symbol(s[from + symbols_from(s, from)]),
    decreases s.len() - from,
{
    if from < s.len() && is_symbol(s[from]) {
        lemma_symbols_from_bounds(s, from + 1);
    }
}

/// The byte at an index, and zero past the end (the bits that pad the last
/// symbol).
pub open spec fn byte_or_zero(bytes: Seq<u8>, i: int) -> int {
    if 0 <= i < bytes.len() {
        bytes[i] as int
    } else {
        0
    }
}

/// The number of symbols that encode `n` bytes.
pub open spec fn encoded_len(n: nat) -> nat {
    ((n * 4 + 2) / 3) as nat
}

/// The six-bit value at position `j` of the encoding: the bits
/// `6j .. 6j + 6` of the bytes, taken most significant first.
pub open spec fn encoded_sextet(bytes: Seq<u8>, j: int) -> int {
    let q = j / 4;
    let r = j % 4;
    if r == 0 {
        byte_or_zero(bytes, 3 * q) / 4
    } else if r == 1 {
        (byte_or_zero(bytes, 3 * q) % 4) * 16 + byte_or_zero(bytes, 3 * q + 1) / 16
    } else if r == 2 {
        (byte_or_zero(bytes, 3 * q + 1) % 16) * 4 + byte_or_zero(bytes, 3 * q + 2) / 64
    } else {
        byte_or_zero(bytes, 3 * q + 2) % 64
    }
}

/// The encoding of a byte sequence.
pub open spec fn base64_encode(bytes: Seq<u8>) -> Seq<u8> {
    Seq::new(encoded_len(bytes.len()), |j: int| sextet_symbol(encoded_sextet(bytes, j)))
}

/// The number of whole bytes that `n` symbols hold.
pub open spec fn decoded_len(n: nat) -> nat {
    (n * 3 / 4) as nat
}

/// The byte at position `i` of the decoding: the bits `8i .. 8i + 8` of the
/// symbols' values.
pub open spec fn decoded_byte(symbols: Seq<u8>, i: int) -> int {
    let q = i / 3;
    let r = i % 3;
    if r == 0 {
        symbol_value(symbols[4 * q]) * 4 + symbol_value(symbols[4 * q + 1]) / 16
    } else if r == 1 {
        (symbol_value(symbols[4 * q + 1]) % 16) * 16 + symbol_value(symbols[4 * q + 2]) / 4
    } else {
        (symbol_value(symbols[4 * q + 2]) % 4) * 64 + symbol_value(symbols[4 * q + 3])
    }
}

/// The decoding of a symbol sequence. Bits left over after the last whole
/// byte are dropped.
pub open spec fn base64_decode(symbols: Seq<u8>) -> Seq<u8> {
    Seq::new(decoded_len(symbols.len()), |i: int| decoded_byte(symbols, i) as u8)
}

/// Every symbol that encodes a value below 64 is in the alphabet and stands
/// for that value.
pub proof fn lemma_symbol_value(v: int)
    requires
        0 <= v < 64,
    ensures
        is_symbol(sextet_symbol(v)),
        symbol_value(sextet_symbol(v)) == v,
        sextet_symbol(v) != 45,
        sextet_symbol(v) != 38,
        sextet_symbol(v) < 128,
{
}

/// Each six-bit value of an encoding is below 64.
pub proof fn lemma_encoded_sextet_range(bytes: Seq<u8>, j: int)
    requires
        0 <= j,
    ensures
        0 <= encoded_sextet(bytes, j) < 64,
{
}

/// The encoding holds only symbols of the alphabet.
pub proof fn lemma_encode_all_symbols(bytes: Seq<u8>)
    ensures
        all_symbols(base64_encode(bytes)),
        base64_encode(bytes).len() == encoded_len(bytes.len()),
        encoded_len(bytes.len()) % 4 != 1,
{
    assert forall|j: int| 0 <= j < base64_encode(bytes).len() implies is_symbol(
        #[trigger] base64_encode(bytes)[j],
    ) by {
        lemma_encoded_sextet_range(bytes, j);
        lemma_symbol_value(encoded_sextet(bytes, j));
    }
}

/// Decoding an encoding gives the bytes back.
#[verifier::rlimit(50)]
pub proof fn lemma_decode_encode(bytes: Seq<u8>)
    ensures
        base64_decode(base64_encode(bytes)) =~= bytes,
{
    let enc = base64_encode(bytes);
    let n = bytes.len();
    assert(decoded_len(encoded_len(n)) == n);
    assert forall|i: int| 0 <= i < n implies base64_decode(enc)[i] == bytes[i] by {
        let q = i / 3;
        let r = i % 3;
        lemma_encoded_sextet_range(bytes, 4 * q);
        lemma_encoded_sextet_range(bytes, 4 * q + 1);
        lemma_encoded_sextet_range(bytes, 4 * q + 2);
        lemma_encoded_sextet_range(bytes, 4 * q + 3);
        lemma_symbol_value(encoded_sextet(bytes, 4 * q));
        lemma_symbol_value(encoded_sextet(bytes, 4 * q + 1));
        lemma_symbol_value(encoded_sextet(bytes, 4 * q + 2));
        lemma_symbol_value(encoded_sextet(bytes, 4 * q + 3));
        assert((4 * q) / 4 == q && (4 * q) % 4 == 0);
        assert((4 * q + 1) / 4 == q && (4 * q + 1) % 4 == 1);
        assert((4 * q + 2) / 4 == q && (4 * q + 2) % 4 == 2);
        assert((4 * q + 3) / 4 == q && (4 * q + 3) % 4 == 3);
        if r == 0 {
            assert(4 * q + 1 < enc.len());
        } else if r == 1 {
            assert(4 * q + 2 < enc.len());
        } else {
            assert(4 * q + 3 < enc.len());
        }
    }
}

/// Return true when the byte is in the alphabet of the modified base64.
pub fn is_mutf7_base64_char(b: u8) -> (r: bool)
    ensures
        r == is_symbol(b),
{
    (65 <= b && b <= 90) || (97 <= b && b <= 122) || (48 <= b && b <= 57) || b == 43 || b == 44
}

/// Find the end of the run of alphabet symbols that starts at `start`.
pub(crate) fn symbols_end(bytes: &[u8], start: usize) -> (j: usize)
    requires
        start <= bytes@.len(),
    ensures
        j == start + symbols_from(bytes@, start as int),
        start <= j <= bytes@.len(),
        all_symbols(bytes@.subrange(start as int, j as int)),
{
    let n: usize = bytes.len();
    let mut j: usize = start;
    while j < n && is_mutf7_base64_char(bytes[j])
        invariant
            n == bytes@.len(),
            start <= j <= n,
            forall|k: int| start <= k < j ==> is_symbol(#[trigger] bytes@[k]),
            symbols_from(bytes@, start as int) == (j - start) + symbols_from(bytes@, j as int),
        decreases n - j,
    {
        j += 1;
    }
    assert(symbols_from(bytes@, j as int) == 0);
    j
}

/// The alphabet symbol of a six-bit value.
pub(crate) fn symbol_of(v: u8) -> (r: u8)
    requires
        v < 64,
    ensures
        r == sextet_symbol(v as int),
{
    if v < 26 {
        65 + v
    } else if v < 52 {
        97 + (v - 26)
    } else if v < 62 {
        48 + (v - 52)
    } else if v == 62 {
        43
    } else {
        44
    }
}

/// The six-bit value of an alphabet symbol.
pub(crate) fn value_of(b: u8) -> (r: u8)
    requires
        is_symbol(b),
    ensures
        r == symbol_value(b),
        r < 64,
{
    if 65 <= b && b <= 90 {
        b - 65
    } else if 97 <= b && b <= 122 {
        b - 97 + 26
    } else if 48 <= b && b <= 57 {
        b - 48 + 52
    } else if b == 43 {
        62
    } else {
        63
    }
}

/// The first byte that two six-bit values hold.
pub(crate) fn first_byte(s0: u8, s1: u8) -> (r: u8)
    requires
        s0 < 64,
        s1 < 64,
    ensures
        r == s0 * 4 + s1 / 16,
{
    let r = (s0 << 2) | (s1 >> 4);
    assert(r == s0 * 4 + s1 / 16) by (bit_vector)
        requires
            r == (s0 << 2) | (s1 >> 4),
            s0 < 64,
            s1 < 64,
    ;
    r
}

/// The second byte of a group: the low four bits of the second value and the
/// high four of the third.
pub(crate) fn second_byte(s1: u8, s2: u8) -> (r: u8)
    requires
        s1 < 64,
        s2 < 64,
    ensures
        r == (s1 % 16) * 16 + s2 / 4,
{
    let r = (s1 << 4) | (s2 >> 2);
    assert(r == (s1 % 16) * 16 + s2 / 4) by (bit_vector)
        requires
            r == (s1 << 4) | (s2 >> 2),
            s1 < 64,
            s2 < 64,
    ;
    r
}

/// The third byte of a group: the low two bits of the third value and the
/// fourth value.
pub(crate) fn third_byte(s2: u8, s3: u8) -> (r: u8)
    requires
        s2 < 64,
        s3 < 64,
    ensures
        r == (s2 % 4) * 64 + s3,
{
    let r = (s2 << 6) | s3;
    assert(r == (s2 % 4) * 64 + s3) by (bit_vector)
        requires
            r == (s2 << 6) | s3,
            s2 < 64,
            s3 < 64,
    ;
    r
}

/// Encode bytes using the alphabet of the modified base64 (no padding).
pub fn encode_mutf7_base64(bytes: &[u8]) -> (out: Vec<u8>)
    ensures
        out@ == base64_encode(bytes@),
{
    let mut out: Vec<u8> = Vec::new();
    let n: usize = bytes.len();
    let mut i: usize = 0;
    while n - i >= 3
        invariant
            n == bytes@.len(),
            i % 3 == 0,
            i <= n,
            out@.len() == (i / 3) * 4,
            forall|j: int| 0 <= j < out@.len() ==> out@[j] == base64_encode(bytes@)[j],
        decreases n - i,
    {
        let b0: u8 = bytes[i];
        let b1: u8 = bytes[i + 1];
        let b2: u8 = bytes[i + 2];
        let v0: u8 = b0 >> 2;
        let v1: u8 = ((b0 & 0x03) << 4) | (b1 >> 4);
        let v2: u8 = ((b1 & 0x0f) << 2) | (b2 >> 6);
        let v3: u8 = b2 & 0x3f;
        assert(v0 == b0 / 4 && v1 == (b0 % 4) * 16 + b1 / 16 && v2 == (b1 % 16) * 4 + b2 / 64 && v3
            == b2 % 64 && v0 < 64 && v1 < 64 && v2 < 64 && v3 < 64) by (bit_vector)
            requires
                v0 == b0 >> 2,
                v1 == ((b0 & 0x03) << 4) | (b1 >> 4),
                v2 == ((b1 & 0x0f) << 2) | (b2 >> 6),
                v3 == b2 & 0x3f,
        ;
        let ghost q = (i / 3) as int;
        assert((4 * q) / 4 == q && (4 * q) % 4 == 0);
        assert((4 * q + 1) / 4 == q && (4 * q + 1) % 4 == 1);
        assert((4 * q + 2) / 4 == q && (4 * q + 2) % 4 == 2);
        assert((4 * q + 3) / 4 == q && (4 * q + 3) % 4 == 3);
        assert(i == 3 * q);
        out.push(symbol_of(v0));
        out.push(symbol_of(v1));
        out.push(symbol_of(v2));
        out.push(symbol_of(v3));
        i += 3;
    }
    let ghost q = (i / 3) as int;
    assert((4 * q) / 4 == q && (4 * q) % 4 == 0);
    assert((4 * q + 1) / 4 == q && (4 * q + 1) % 4 == 1);
    assert((4 * q + 2) / 4 == q && (4 * q + 2) % 4 == 2);
    assert(i == 3 * q);
    if n - i == 1 {
        let b0: u8 = bytes[i];
        let v0: u8 = b0 >> 2;
        let v1: u8 = (b0 & 0x03) << 4;
        assert(v0 == b0 / 4 && v1 == (b0 % 4) * 16 && v0 < 64 && v1 < 64) by (bit_vector)
            requires
                v0 == b0 >> 2,
                v1 == (b0 & 0x03) << 4,
        ;
        out.push(symbol_of(v0));
        out.push(symbol_of(v1));
    } else if n - i == 2 {
        let b0: u8 = bytes[i];
        let b1: u8 = bytes[i + 1];
        let v0: u8 = b0 >> 2;
        let v1: u8 = ((b0 & 0x03) << 4) | (b1 >> 4);
        let v2: u8 = (b1 & 0x0f) << 2;
        assert(v0 == b0 / 4 && v1 == (b0 % 4) * 16 + b1 / 16 && v2 == (b1 % 16) * 4 && v0 < 64
            && v1 < 64 && v2 < 64) by (bit_vector)
            requires
                v0 == b0 >> 2,
                v1 == ((b0 & 0x03) << 4) | (b1 >> 4),
                v2 == (b1 & 0x0f) << 2,
        ;
        out.push(symbol_of(v0));
        out.push(symbol_of(v1));
        out.push(symbol_of(v2));
    }
    assert(out@ =~= base64_encode(bytes@));
    out
}

/// What is wrong with symbols that are to be decoded, if anything: the
/// first byte that is no alphabet symbol, with its offset, or a count of
/// symbols that leaves six bits over alone, with the count.
pub open spec fn decode_error(symbols: Seq<u8>) -> Option<ImapUtf7ValidateError> {
    if symbols_from(symbols, 0) < symbols.len() {
        Some(ImapUtf7ValidateError::InvalidBase64Char(symbols_from(symbols, 0) as usize))
    } else if symbols.len() % 4 == 1 {
        Some(ImapUtf7ValidateError::InvalidBase64Length(symbols.len() as usize))
    } else {
        None
    }
}

/// Decode symbols of the modified base64 into raw bytes.
pub fn decode_mutf7_base64_slice(input: &[u8]) -> (r: Result<Vec<u8>, ImapUtf7ValidateError>)
    ensures
        match r {
            Ok(out) => decode_error(input@) is None && out@ == base64_decode(input@),
            Err(e) => decode_error(input@) == Some(e),
        },
{
    let end = symbols_end(input, 0);
    if end < input.len() {
        return Err(ImapUtf7ValidateError::InvalidBase64Char(end));
    }
    if input.len() % 4 == 1 {
        return Err(ImapUtf7ValidateError::InvalidBase64Length(input.len()));
    }
    assert(input@.subrange(0, end as int) =~= input@);
    Ok(decode_symbols(input))
}

/// Decode alphabet symbols into the whole bytes that they hold.
pub(crate) fn decode_symbols(input: &[u8]) -> (out: Vec<u8>)
    requires
        all_symbols(input@),
    ensures
        out@ == base64_decode(input@),
{
    let mut out: Vec<u8> = Vec::new();
    let n: usize = input.len();
    let mut i: usize = 0;
    while i < n && n - i >= 4
        invariant
            n == input@.len(),
            all_symbols(input@),
            i % 4 == 0,
            i <= n,
            out@.len() == (i / 4) * 3,
            forall|j: int| 0 <= j < out@.len() ==> out@[j] == base64_decode(input@)[j],
        decreases n - i,
    {
        let s0: u8 = value_of(input[i]);
        let s1: u8 = value_of(input[i + 1]);
        let s2: u8 = value_of(input[i + 2]);
        let s3: u8 = value_of(input[i + 3]);
        let ghost q = (i / 4) as int;
        assert((3 * q) / 3 == q && (3 * q) % 3 == 0);
        assert((3 * q + 1) / 3 == q && (3 * q + 1) % 3 == 1);
        assert((3 * q + 2) / 3 == q && (3 * q + 2) % 3 == 2);
        assert(i == 4 * q);
        out.push(first_byte(s0, s1));
        out.push(second_byte(s1, s2));
        out.push(third_byte(s2, s3));
        i += 4;
    }
    let ghost q = (i / 4) as int;
    assert((3 * q) / 3 == q && (3 * q) % 3 == 0);
    assert((3 * q + 1) / 3 == q && (3 * q + 1) % 3 == 1);
    assert(i == 4 * q);
    let rem: usize = n - i;
    if rem == 2 {
        let s0: u8 = value_of(input[i]);
        let s1: u8 = value_of(input[i + 1]);
        out.push(first_byte(s0, s1));
    } else if rem == 3 {
        let s0: u8 = value_of(input[i]);
        let s1: u8 = value_of(input[i + 1]);
        let s2: u8 = value_of(input[i + 2]);
        out.push(first_byte(s0, s1));
        out.push(second_byte(s1, s2));
    }
    assert(out@ =~= base64_decode(input@));
    out
}

} // verus!
