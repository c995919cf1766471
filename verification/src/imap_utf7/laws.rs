//! What holds of the wire form as a whole.

use crate::imap_utf7::base64::{
    all_symbols, base64_decode, base64_encode, is_symbol, lemma_decode_encode,
    lemma_encode_all_symbols, lemma_symbols_from, lemma_symbols_from_bounds, symbols_from,
};
use crate::imap_utf7::utf16::{
    lemma_units_of_be_bytes, lemma_utf16_round_trip, units_of_bytes, utf16_be_bytes,
    utf16_encode, well_formed,
};
use crate::imap_utf7::wire::{
    code_unit_error, decode_at, decode_spec, encode_at, encode_spec, escape_run, is_direct,
    is_printable, lemma_char_code, payload_error, payload_text, shifted_from, validate_at, validate_spec,
    MARKER, TERMINATOR,
};
use crate::imap_utf7::ImapUtf7ValidateError;
use vstd::prelude::*;
use vstd::utf8::encode_utf8;

verus! {

/// Reading an escape run: from its marker at `k` to its terminator at `j`.
pub proof fn lemma_step_run(s: Seq<u8>, k: int, j: int)
    requires
        0 <= k,
        k + 1 < j < s.len(),
        s[k] == MARKER,
        forall|m: int| k + 1 <= m < j ==> is_symbol(#[trigger] s[m]),
        s[j] == TERMINATOR,
    ensures
        validate_at(s, k) == match payload_error(s.subrange(k + 1, j), j) {
            Some(e) => Err::<(), ImapUtf7ValidateError>(e),
            None => validate_at(s, j + 1),
        },
        decode_at(s, k) == payload_text(s.subrange(k + 1, j)) + decode_at(s, j + 1),
{
    lemma_symbols_from(s, k + 1, j);
    assert(is_symbol(s[k + 1]));
}

/// Where the first `n` bytes are well formed from `k` on, the whole is read
/// from `k` as the prefix is, and then goes on from `n`.
#[verifier::rlimit(50)]
pub proof fn lemma_prefix_from(s: Seq<u8>, n: int, k: int)
    requires
        0 <= k <= n <= s.len(),
        validate_at(s.take(n), k) is Ok,
    ensures
        validate_at(s, k) == validate_at(s, n),
        decode_at(s, k) == decode_at(s.take(n), k) + decode_at(s, n),
    decreases n - k,
{
    let p = s.take(n);
    if k == n {
        assert(decode_at(p, k) =~= Seq::<char>::empty());
        assert(Seq::<char>::empty() + decode_at(s, n) =~= decode_at(s, n));
    } else {
        assert(p[k] == s[k]);
        if s[k] != MARKER {
            lemma_prefix_from(s, n, k + 1);
            assert(decode_at(s, k) =~= decode_at(p, k) + decode_at(s, n));
        } else if k + 1 < n && p[k + 1] == TERMINATOR {
            assert(s[k + 1] == TERMINATOR);
            lemma_prefix_from(s, n, k + 2);
            assert(decode_at(s, k) =~= decode_at(p, k) + decode_at(s, n));
        } else {
            let j = k + 1 + symbols_from(p, k + 1);
            lemma_symbols_from_bounds(p, k + 1);
            assert(j < n);
            assert(p[j] == TERMINATOR);
            assert(j > k + 1);
            assert forall|m: int| k + 1 <= m < j implies is_symbol(#[trigger] s[m]) by {
                assert(p[m] == s[m]);
            }
            assert(s[j] == p[j]);
            assert(s.subrange(k + 1, j) =~= p.subrange(k + 1, j));
            lemma_step_run(p, k, j);
            lemma_step_run(s, k, j);
            lemma_prefix_from(s, n, j + 1);
            assert(decode_at(s, k) =~= decode_at(p, k) + decode_at(s, n));
        }
    }
}

/// After a well-formed prefix, validation and decoding go on where the
/// prefix ends.
pub proof fn lemma_valid_prefix(s: Seq<u8>, n: int)
    requires
        0 <= n <= s.len(),
        validate_spec(s.take(n)) is Ok,
    ensures
        validate_spec(s) == validate_at(s, n),
        decode_spec(s) == decode_spec(s.take(n)) + decode_at(s, n),
{
    lemma_prefix_from(s, n, 0);
}

/// A printable character is one ASCII byte, which reads as that character.
pub proof fn lemma_printable_byte(c: char)
    requires
        is_printable(c),
    ensures
        (c as u8) < 128,
        (c as u8) as char == c,
        c != '&' ==> (c as u8) != MARKER,
        0x20 <= (c as u8) <= 0x7e,
{
}

/// An escape run is made of ASCII, holds at least two symbols, and its
/// payload is sound and reads as the characters it was written from.
#[verifier::rlimit(50)]
pub proof fn lemma_escape_run(chars: Seq<char>)
    requires
        chars.len() > 0,
    ensures
        ({
            let payload = base64_encode(utf16_be_bytes(utf16_encode(chars)));
            &&& payload.len() >= 2
            &&& all_symbols(payload)
            &&& escape_run(chars).len() == payload.len() + 2
            &&& forall|end: int| payload_error(payload, end) is None
            &&& payload_text(payload) == chars
        }),
{
    reveal(payload_error);
    reveal(code_unit_error);
    reveal(payload_text);
    let units = utf16_encode(chars);
    let bytes = utf16_be_bytes(units);
    let payload = base64_encode(bytes);
    lemma_utf16_round_trip(chars);
    lemma_units_of_be_bytes(units);
    lemma_encode_all_symbols(bytes);
    lemma_decode_encode(bytes);
    lemma_symbols_from(payload, 0, payload.len() as int);
    assert(base64_decode(payload) == bytes);
    assert(units_of_bytes(bytes) == units);
    assert(bytes.len() >= 2);
}

/// A well-formed wire form with one more byte that stands for itself is
/// well formed, and reads as before with that character after it.
pub proof fn lemma_append_direct(written: Seq<u8>, b: u8)
    requires
        validate_spec(written) is Ok,
        b < 128,
        b != MARKER,
    ensures
        validate_spec(written + seq![b]) is Ok,
        decode_spec(written + seq![b]) == decode_spec(written) + seq![b as char],
{
    let n = written.len() as int;
    let next = written + seq![b];
    assert(next.take(n) =~= written);
    lemma_valid_prefix(next, n);
    assert(next[n] == b);
    assert(validate_at(next, n + 1) is Ok);
    assert(validate_at(next, n) is Ok);
    assert(decode_at(next, n + 1) =~= Seq::<char>::empty());
    assert(decode_at(next, n) =~= seq![b as char]);
}

/// A well-formed wire form with the literal escape after it is well formed,
/// and reads as before with the escape marker after it.
pub proof fn lemma_append_marker(written: Seq<u8>)
    requires
        validate_spec(written) is Ok,
    ensures
        validate_spec(written + seq![MARKER, TERMINATOR]) is Ok,
        decode_spec(written + seq![MARKER, TERMINATOR]) == decode_spec(written) + seq!['&'],
{
    let n = written.len() as int;
    let next = written + seq![MARKER, TERMINATOR];
    assert(next.take(n) =~= written);
    lemma_valid_prefix(next, n);
    assert(next[n] == MARKER && next[n + 1] == TERMINATOR);
    assert(validate_at(next, n + 2) is Ok);
    assert(validate_at(next, n) is Ok);
    assert(decode_at(next, n + 2) =~= Seq::<char>::empty());
    assert(decode_at(next, n) =~= seq!['&']);
}

/// A well-formed wire form with an escape run after it is well formed, and
/// reads as before with the characters of the run after it.
#[verifier::rlimit(50)]
pub proof fn lemma_append_run(written: Seq<u8>, chars: Seq<char>)
    requires
        validate_spec(written) is Ok,
        chars.len() > 0,
    ensures
        validate_spec(written + escape_run(chars)) is Ok,
        decode_spec(written + escape_run(chars)) == decode_spec(written) + chars,
{
    let n = written.len() as int;
    let payload = base64_encode(utf16_be_bytes(utf16_encode(chars)));
    let run = escape_run(chars);
    lemma_escape_run(chars);
    let next = written + run;
    let end = n + 1 + payload.len();
    assert(next.take(n) =~= written);
    lemma_valid_prefix(next, n);
    assert(next[n] == MARKER);
    assert forall|m: int| n + 1 <= m < end implies is_symbol(#[trigger] next[m]) by {
        assert(next[m] == payload[m - n - 1]);
    }
    assert(next[end] == TERMINATOR);
    assert(next.subrange(n + 1, end) =~= payload);
    assert(payload_error(payload, end) is None);
    lemma_step_run(next, n, end);
    assert(validate_at(next, end + 1) is Ok);
    assert(decode_at(next, end + 1) =~= Seq::<char>::empty());
    assert(decode_at(next, n) =~= chars);
}

/// Writing the rest of a text after a well-formed wire form that reads as
/// the text so far gives a well-formed wire form that reads as the text.
#[verifier::rlimit(50)]
pub proof fn lemma_round_trip_from(text: Seq<char>, i: int, written: Seq<u8>)
    requires
        0 <= i <= text.len(),
        validate_spec(written) is Ok,
        decode_spec(written) == text.take(i),
    ensures
        validate_spec(written + encode_at(text, i)) is Ok,
        decode_spec(written + encode_at(text, i)) == text,
    decreases text.len() - i,
{
    if i == text.len() {
        assert(written + encode_at(text, i) =~= written);
        assert(text.take(i) =~= text);
    } else if text[i] == '&' {
        let next = written + seq![MARKER, TERMINATOR];
        lemma_append_marker(written);
        assert(text.take(i) + seq!['&'] =~= text.take(i + 1));
        lemma_round_trip_from(text, i + 1, next);
        assert(next + encode_at(text, i + 1) =~= written + encode_at(text, i));
    } else if is_printable(text[i]) {
        let b = text[i] as u8;
        lemma_printable_byte(text[i]);
        let next = written + seq![b];
        lemma_append_direct(written, b);
        assert(text.take(i) + seq![text[i]] =~= text.take(i + 1));
        lemma_round_trip_from(text, i + 1, next);
        assert(next + encode_at(text, i + 1) =~= written + encode_at(text, i));
    } else {
        let j = i + 1 + shifted_from(text, i + 1);
        lemma_shifted_from_bounds(text, i + 1);
        let chars = text.subrange(i, j);
        let next = written + escape_run(chars);
        lemma_append_run(written, chars);
        assert(text.take(i) + chars =~= text.take(j));
        lemma_round_trip_from(text, j, next);
        assert(next + encode_at(text, j) =~= written + encode_at(text, i));
    }
}

/// The run of unprintable characters from `from` on stays inside the text.
pub proof fn lemma_shifted_from_bounds(text: Seq<char>, from: int)
    requires
        0 <= from <= text.len(),
    ensures
        from + shifted_from(text, from) <= text.len(),
    decreases text.len() - from,
{
    if from < text.len() && !is_printable(text[from]) {
        lemma_shifted_from_bounds(text, from + 1);
    }
}

/// Round trip: the wire form of any text is well formed and decodes to that
/// text.
pub proof fn lemma_encoded_is_valid(text: Seq<char>)
    ensures
        validate_spec(encode_spec(text)) is Ok,
        decode_spec(encode_spec(text)) == text,
{
    let nothing = Seq::<u8>::empty();
    assert(text.take(0) =~= Seq::<char>::empty());
    lemma_round_trip_from(text, 0, nothing);
    assert(nothing + encode_at(text, 0) =~= encode_at(text, 0));
}

/// Two texts with the same wire form are the same text.
pub proof fn lemma_encode_injective(a: Seq<char>, b: Seq<char>)
    requires
        encode_spec(a) == encode_spec(b),
    ensures
        a == b,
{
    lemma_encoded_is_valid(a);
    lemma_encoded_is_valid(b);
}

/// The wire form of any text is ASCII.
pub proof fn lemma_encoded_is_ascii(text: Seq<char>, k: int)
    requires
        0 <= k < encode_spec(text).len(),
    ensures
        encode_spec(text)[k] < 128,
{
    lemma_encoded_is_valid(text);
    lemma_valid_is_ascii_from(encode_spec(text), 0, k);
}

/// Text of direct characters is written as its own bytes, from `i` on.
pub proof fn lemma_direct_from(text: Seq<char>, i: int)
    requires
        0 <= i <= text.len(),
        forall|k: int| i <= k < text.len() ==> is_direct(#[trigger] text[k]),
    ensures
        encode_at(text, i) == Seq::new((text.len() - i) as nat, |k: int| text[i + k] as u8),
    decreases text.len() - i,
{
    let rest = Seq::new((text.len() - i) as nat, |k: int| text[i + k] as u8);
    if i < text.len() {
        lemma_direct_from(text, i + 1);
        let tail = Seq::new((text.len() - i - 1) as nat, |k: int| text[i + 1 + k] as u8);
        assert(rest =~= seq![text[i] as u8] + tail);
    } else {
        assert(rest =~= Seq::<u8>::empty());
    }
}

/// Idempotence on safe text: a text of printable ASCII without the escape
/// marker is its own wire form, byte for byte.
pub proof fn lemma_direct_text_unchanged(text: Seq<char>)
    requires
        forall|k: int| 0 <= k < text.len() ==> is_direct(#[trigger] text[k]),
    ensures
        encode_spec(text) == encode_utf8(text),
{
    lemma_direct_from(text, 0);
    assert(vstd::utf8::is_ascii_chars(text)) by {
        assert forall|k: int| 0 <= k < text.len() implies '\0' <= #[trigger] text[k]
            <= '\u{7f}' by {
            lemma_printable_byte(text[k]);
        }
    }
    vstd::utf8::is_ascii_chars_encode_utf8(text);
    assert(encode_spec(text) =~= encode_utf8(text));
}

/// A well-formed wire form holds ASCII only, from `i` on.
pub proof fn lemma_valid_is_ascii_from(s: Seq<u8>, i: int, k: int)
    requires
        0 <= i <= k < s.len(),
        validate_at(s, i) is Ok,
    ensures
        s[k] < 128,
    decreases s.len() - i,
{
    if s[i] != MARKER {
        if k > i {
            lemma_valid_is_ascii_from(s, i + 1, k);
        }
    } else if i + 1 < s.len() && s[i + 1] == TERMINATOR {
        if k > i + 1 {
            lemma_valid_is_ascii_from(s, i + 2, k);
        }
    } else {
        let j = i + 1 + symbols_from(s, i + 1);
        lemma_symbols_from_bounds(s, i + 1);
        if k > j {
            lemma_valid_is_ascii_from(s, j + 1, k);
        } else if i < k < j {
            assert(is_symbol(s[k]));
        }
    }
}

/// Validation rejects input that is not ASCII: a candidate with any byte
/// above 127 is not well formed.
pub proof fn lemma_rejects_non_ascii(s: Seq<u8>, k: int)
    requires
        0 <= k < s.len(),
        s[k] >= 128,
    ensures
        validate_spec(s) is Err,
{
    if validate_spec(s) is Ok {
        lemma_valid_is_ascii_from(s, 0, k);
    }
}

/// After a well-formed prefix, the first byte above 127 is reported as
/// `NonAscii` with its offset.
pub proof fn lemma_rejects_first_non_ascii(s: Seq<u8>, i: int)
    requires
        0 <= i < s.len(),
        validate_spec(s.take(i)) is Ok,
        s[i] >= 128,
    ensures
        validate_spec(s) == Err::<(), ImapUtf7ValidateError>(
            ImapUtf7ValidateError::NonAscii(i as usize),
        ),
{
    lemma_valid_prefix(s, i);
}

/// Validation rejects an unterminated escape run: after a well-formed
/// prefix, an escape marker that only alphabet symbols follow, up to the
/// end, is reported as `UnterminatedSequence` with the marker's offset.
pub proof fn lemma_rejects_unterminated(s: Seq<u8>, i: int)
    requires
        0 <= i < s.len(),
        validate_spec(s.take(i)) is Ok,
        s[i] == MARKER,
        forall|k: int| i < k < s.len() ==> is_symbol(#[trigger] s[k]),
    ensures
        validate_spec(s) == Err::<(), ImapUtf7ValidateError>(
            ImapUtf7ValidateError::UnterminatedSequence(i as usize),
        ),
{
    lemma_valid_prefix(s, i);
    lemma_symbols_from(s, i + 1, s.len() as int);
    if i + 1 < s.len() {
        assert(is_symbol(s[i + 1]));
    }
}

/// Validation rejects a byte that is no alphabet symbol inside an escape
/// run: after a well-formed prefix and an escape marker, the first byte
/// that is neither a symbol nor the terminator is reported as
/// `InvalidBase64Char` with its offset.
pub proof fn lemma_rejects_invalid_symbol(s: Seq<u8>, i: int, j: int)
    requires
        0 <= i < j < s.len(),
        validate_spec(s.take(i)) is Ok,
        s[i] == MARKER,
        forall|k: int| i < k < j ==> is_symbol(#[trigger] s[k]),
        !is_symbol(s[j]),
        s[j] != TERMINATOR,
    ensures
        validate_spec(s) == Err::<(), ImapUtf7ValidateError>(
            ImapUtf7ValidateError::InvalidBase64Char(j as usize),
        ),
{
    lemma_valid_prefix(s, i);
    lemma_symbols_from(s, i + 1, j);
    if i + 1 < j {
        assert(is_symbol(s[i + 1]));
    }
}

/// Validation rejects a payload whose number of symbols leaves six bits
/// over alone: after a well-formed prefix, a terminated escape run with
/// 4n + 1 symbols is reported as `InvalidBase64Length` with the
/// terminator's offset.
pub proof fn lemma_rejects_dangling_symbol(s: Seq<u8>, i: int, j: int)
    requires
        0 <= i < j < s.len(),
        validate_spec(s.take(i)) is Ok,
        s[i] == MARKER,
        forall|k: int| i < k < j ==> is_symbol(#[trigger] s[k]),
        s[j] == TERMINATOR,
        (j - i - 1) % 4 == 1,
    ensures
        validate_spec(s) == Err::<(), ImapUtf7ValidateError>(
            ImapUtf7ValidateError::InvalidBase64Length(j as usize),
        ),
{
    reveal(payload_error);
    lemma_symbols_from(s.subrange(i + 1, j), 0, j - i - 1);
    lemma_valid_prefix(s, i);
    lemma_step_run(s, i, j);
}

/// Surrogate rule, first half: after a well-formed prefix, a terminated
/// escape run whose payload holds a whole number of code units, one of them
/// a surrogate without its partner, is reported as `InvalidUtf16`.
pub proof fn lemma_rejects_unmatched_surrogate(s: Seq<u8>, i: int, j: int)
    requires
        0 <= i,
        i + 1 < j < s.len(),
        validate_spec(s.take(i)) is Ok,
        s[i] == MARKER,
        forall|k: int| i < k < j ==> is_symbol(#[trigger] s[k]),
        s[j] == TERMINATOR,
        (j - i - 1) % 4 != 1,
        base64_decode(s.subrange(i + 1, j)).len() % 2 == 0,
        !well_formed(units_of_bytes(base64_decode(s.subrange(i + 1, j)))),
    ensures
        validate_spec(s) == Err::<(), ImapUtf7ValidateError>(ImapUtf7ValidateError::InvalidUtf16),
{
    reveal(payload_error);
    reveal(code_unit_error);
    lemma_symbols_from(s.subrange(i + 1, j), 0, j - i - 1);
    lemma_valid_prefix(s, i);
    lemma_step_run(s, i, j);
}

/// Surrogate rule, second half: in a well-formed wire form, the payload of
/// every escape run that validation reads holds well-formed UTF-16, so it
/// decodes to characters and never to a surrogate alone.
pub proof fn lemma_valid_run_is_well_formed(s: Seq<u8>, i: int, j: int)
    requires
        0 <= i,
        i + 1 < j < s.len(),
        validate_spec(s.take(i)) is Ok,
        validate_spec(s) is Ok,
        s[i] == MARKER,
        forall|k: int| i < k < j ==> is_symbol(#[trigger] s[k]),
        s[j] == TERMINATOR,
    ensures
        well_formed(units_of_bytes(base64_decode(s.subrange(i + 1, j)))),
        base64_decode(s.subrange(i + 1, j)).len() % 2 == 0,
{
    reveal(payload_error);
    reveal(code_unit_error);
    lemma_symbols_from(s.subrange(i + 1, j), 0, j - i - 1);
    lemma_valid_prefix(s, i);
    lemma_step_run(s, i, j);
}

/// A text whose UTF-8 bytes are all ASCII is made of ASCII characters.
pub proof fn lemma_ascii_bytes_ascii_text(text: Seq<char>)
    requires
        forall|i: int| 0 <= i < encode_utf8(text).len() ==> #[trigger] encode_utf8(text)[i] < 128,
    ensures
        vstd::utf8::is_ascii_chars(text),
    decreases text.len(),
{
    if text.len() > 0 {
        lemma_char_code(text[0]);
        let first = text[0] as u32;
        let head = vstd::utf8::encode_scalar(first);
        let rest = encode_utf8(text.drop_first());
        assert(encode_utf8(text) == head + rest);
        assert(encode_utf8(text)[0] == head[0]);
        let a = (((first >> 6) & 0x1F) as u8);
        let b = (((first >> 12) & 0x0F) as u8);
        let c = (((first >> 18) & 0x7) as u8);
        assert(0xC0u8 | a >= 128 && 0xE0u8 | b >= 128 && 0xF0u8 | c >= 128) by (bit_vector);
        assert(first <= 0x7F);
        assert(head.len() == 1);
        assert forall|i: int| 0 <= i < rest.len() implies #[trigger] rest[i] < 128 by {
            assert(rest[i] == encode_utf8(text)[i + 1]);
        }
        lemma_ascii_bytes_ascii_text(text.drop_first());
        assert forall|i: int| 0 <= i < text.len() implies '\0' <= #[trigger] text[i]
            <= '\u{7f}' by {
            if i > 0 {
                assert(text[i] == text.drop_first()[i - 1]);
            }
        }
    }
}

/// A well-formed wire form is ASCII text.
pub proof fn lemma_valid_text_is_ascii(text: Seq<char>)
    requires
        validate_spec(encode_utf8(text)) is Ok,
    ensures
        vstd::utf8::is_ascii_chars(text),
{
    let bytes = encode_utf8(text);
    assert forall|i: int| 0 <= i < bytes.len() implies #[trigger] bytes[i] < 128 by {
        lemma_valid_is_ascii_from(bytes, 0, i);
    }
    lemma_ascii_bytes_ascii_text(text);
}

} // verus!
