//! Writing text in its wire form.

use crate::imap_utf7::base64::{
    base64_encode, encode_mutf7_base64, encoded_sextet, lemma_encoded_sextet_range,
    lemma_symbol_value,
};
use crate::imap_utf7::laws::lemma_direct_text_unchanged;
use crate::text::push_char;
use crate::imap_utf7::utf16::{char_units, lemma_utf16_encode_push, utf16_be_bytes, utf16_encode};
use crate::imap_utf7::wire::{
    encode_at, encode_spec, escape_run, is_direct, is_printable, lemma_char_code, shifted_from,
    MARKER, TERMINATOR,
};
use vstd::prelude::*;
use vstd::std_specs::iter::IteratorSpec;

verus! {

/// Whether every byte of a sequence is ASCII.
pub open spec fn all_ascii(s: Seq<u8>) -> bool {
    forall|i: int| 0 <= i < s.len() ==> #[trigger] s[i] < 128
}

/// A run of characters that are not printable ASCII, which ends at a
/// printable character or at the end of the text, is written as one escape
/// run.
pub proof fn lemma_encode_run(text: Seq<char>, start: int, end: int)
    requires
        0 <= start < end <= text.len(),
        forall|k: int| start <= k < end ==> !is_printable(#[trigger] text[k]),
        end == text.len() || is_printable(text[end]),
    ensures
        encode_at(text, start) == escape_run(text.subrange(start, end)) + encode_at(text, end),
{
    lemma_shifted_from(text, start + 1, end);
}

/// The run of unprintable characters from `from` on ends where the first
/// printable character stands.
pub proof fn lemma_shifted_from(text: Seq<char>, from: int, end: int)
    requires
        0 <= from <= end <= text.len(),
        forall|k: int| from <= k < end ==> !is_printable(#[trigger] text[k]),
        end == text.len() || is_printable(text[end]),
    ensures
        from + shifted_from(text, from) == end,
    decreases end - from,
{
    if from < end {
        lemma_shifted_from(text, from + 1, end);
    }
}

/// Append the UTF-16 code units of a character.
fn push_char_units(buf: &mut Vec<u16>, ch: char)
    ensures
        final(buf)@ == old(buf)@ + char_units(ch),
{
    let code: u32 = ch as u32;
    if code < 0x10000 {
        buf.push(code as u16);
        assert(buf@ =~= old(buf)@ + char_units(ch));
    } else {
        let v: u32 = code - 0x10000;
        buf.push((0xD800 + v / 0x400) as u16);
        buf.push((0xDC00 + v % 0x400) as u16);
        assert(buf@ =~= old(buf)@ + char_units(ch));
    }
}

/// Code units as bytes, the high byte of each first.
fn be_bytes(units: &Vec<u16>) -> (bytes: Vec<u8>)
    ensures
        bytes@ == utf16_be_bytes(units@),
{
    let mut bytes: Vec<u8> = Vec::new();
    let n: usize = units.len();
    let mut k: usize = 0;
    while k < n
        invariant
            n == units@.len(),
            k <= n,
            bytes@.len() == 2 * k,
            forall|i: int| 0 <= i < 2 * k ==> bytes@[i] == utf16_be_bytes(units@)[i],
        decreases n - k,
    {
        let unit: u16 = units[k];
        let high: u8 = (unit >> 8) as u8;
        let low: u8 = (unit & 0xff) as u8;
        assert(high == unit / 256 && low == unit % 256) by (bit_vector)
            requires
                high == (unit >> 8) as u8,
                low == (unit & 0xff) as u8,
        ;
        assert((2 * k) % 2 == 0 && (2 * k) / 2 == k);
        assert((2 * k + 1) % 2 == 1 && (2 * k + 1) / 2 == k);
        bytes.push(high);
        bytes.push(low);
        k += 1;
    }
    assert(bytes@ =~= utf16_be_bytes(units@));
    bytes
}

/// Write the buffered code units, if there are any, as one escape run, and
/// empty the buffer.
fn flush(buf: &mut Vec<u16>, wire: &mut Vec<u8>)
    requires
        all_ascii(old(wire)@),
    ensures
        final(buf)@.len() == 0,
        all_ascii(final(wire)@),
        final(wire)@ == old(wire)@ + (if old(buf)@.len() == 0 {
            Seq::<u8>::empty()
        } else {
            seq![MARKER] + base64_encode(utf16_be_bytes(old(buf)@)) + seq![TERMINATOR]
        }),
{
    if buf.len() == 0 {
        assert(wire@ =~= old(wire)@ + Seq::<u8>::empty());
        return ;
    }
    let bytes = be_bytes(buf);
    let mut symbols = encode_mutf7_base64(bytes.as_slice());
    proof {
        assert forall|j: int| 0 <= j < symbols@.len() implies #[trigger] symbols@[j] < 128 by {
            lemma_encoded_sextet_range(bytes@, j);
            lemma_symbol_value(encoded_sextet(bytes@, j));
        }
    }
    wire.push(MARKER);
    wire.append(&mut symbols);
    wire.push(TERMINATOR);
    buf.clear();
    assert(wire@ =~= old(wire)@ + (seq![MARKER] + base64_encode(utf16_be_bytes(old(buf)@))
        + seq![TERMINATOR]));
}

/// The string of ASCII bytes.
fn ascii_string(bytes: &Vec<u8>) -> (out: String)
    requires
        all_ascii(bytes@),
    ensures
        vstd::utf8::encode_utf8(out@) == bytes@,
{
    let mut out = String::new();
    let n: usize = bytes.len();
    let mut k: usize = 0;
    while k < n
        invariant
            n == bytes@.len(),
            k <= n,
            all_ascii(bytes@),
            out@.len() == k,
            forall|i: int| 0 <= i < k ==> #[trigger] out@[i] == bytes@[i] as char,
        decreases n - k,
    {
        push_char(&mut out, bytes[k] as char);
        k += 1;
    }
    proof {
        assert(vstd::utf8::is_ascii_chars(out@));
        vstd::utf8::is_ascii_chars_encode_utf8(out@);
        assert(vstd::utf8::encode_utf8(out@) =~= bytes@);
    }
    out
}

/// Whether every character of a string stands for itself in the wire form.
fn is_all_direct(input: &str) -> (direct: bool)
    ensures
        direct == (forall|k: int| 0 <= k < input@.len() ==> is_direct(#[trigger] input@[k])),
{
    if !input.is_ascii() {
        proof {
            let k = choose|k: int|
                0 <= k < input@.len() && !('\0' <= #[trigger] input@[k] <= '\u{7f}');
            lemma_char_code(input@[k]);
            assert(!is_direct(input@[k]));
        }
        return false;
    }
    let bytes = input.as_bytes();
    proof {
        vstd::utf8::is_ascii_chars_encode_utf8(input@);
    }
    let n: usize = bytes.len();
    let mut k: usize = 0;
    while k < n
        invariant
            n == bytes@.len(),
            n == input@.len(),
            k <= n,
            vstd::utf8::is_ascii_chars(input@),
            forall|i: int| 0 <= i < n ==> #[trigger] bytes@[i] == input@[i] as u8,
            forall|i: int| 0 <= i < k ==> is_direct(#[trigger] input@[i]),
        decreases n - k,
    {
        let b: u8 = bytes[k];
        proof {
            lemma_char_code(input@[k as int]);
        }
        if b < 0x20 || b > 0x7e || b == MARKER {
            assert(!is_direct(input@[k as int]));
            return false;
        }
        k += 1;
    }
    true
}

/// Encode a text into its wire form.
#[verifier::rlimit(50)]
pub fn encode_imap_utf7(input: &str) -> (out: String)
    ensures
        vstd::utf8::encode_utf8(out@) == encode_spec(input@),
        (forall|k: int| 0 <= k < input@.len() ==> is_direct(#[trigger] input@[k])) ==> out@
            == input@,
{
    broadcast use vstd::string::group_string_axioms;

    if is_all_direct(input) {
        proof {
            lemma_direct_text_unchanged(input@);
        }
        return input.to_owned();
    }

    let ghost text = input@;
    let mut wire: Vec<u8> = Vec::new();
    let mut buf: Vec<u16> = Vec::new();
    let mut chars = input.chars();
    let ghost mut i: int = 0;
    let ghost mut run: int = 0;
    loop
        invariant
            text == input@,
            0 <= run <= i <= text.len(),
            chars.remaining() == text.subrange(i, text.len() as int),
            forall|k: int| run <= k < i ==> !is_printable(#[trigger] text[k]),
            buf@ == utf16_encode(text.subrange(run, i)),
            buf@.len() == 0 <==> run == i,
            all_ascii(wire@),
            wire@ + encode_at(text, run) == encode_at(text, 0),
        ensures
            i == text.len(),
        decreases text.len() - i,
    {
        match chars.next() {
            None => {
                break ;
            },
            Some(ch) => {
                assert(ch == text[i]);
                assert(chars.remaining() =~= text.subrange(i + 1, text.len() as int));
                let code: u32 = ch as u32;
                proof {
                    lemma_char_code(ch);
                }
                if 0x20 <= code && code <= 0x7e {
                    proof {
                        if run < i {
                            lemma_encode_run(text, run, i);
                        }
                    }
                    let ghost flushed = wire@ + (if run < i {
                        escape_run(text.subrange(run, i))
                    } else {
                        Seq::<u8>::empty()
                    });
                    flush(&mut buf, &mut wire);
                    assert(wire@ =~= flushed);
                    assert(flushed + encode_at(text, i) =~= encode_at(text, 0));
                    if code == 0x26 {
                        wire.push(MARKER);
                        wire.push(TERMINATOR);
                        assert(wire@ =~= flushed + seq![MARKER, TERMINATOR]);
                    } else {
                        wire.push(code as u8);
                        assert(code as u8 == text[i] as u8);
                        assert(wire@ =~= flushed + seq![text[i] as u8]);
                    }
                    proof {
                        assert(is_printable(text[i]));
                        assert(code == 0x26 <==> text[i] == '&');
                        assert(wire@ + encode_at(text, i + 1) =~= flushed + encode_at(text, i));
                        i = i + 1;
                        run = i;
                        assert(text.subrange(run, i) =~= Seq::<char>::empty());
                    }
                } else {
                    push_char_units(&mut buf, ch);
                    proof {
                        lemma_utf16_encode_push(text.subrange(run, i), ch);
                        assert(text.subrange(run, i).push(ch) =~= text.subrange(run, i + 1));
                        i = i + 1;
                    }
                }
            },
        }
    }
    proof {
        if run < i {
            lemma_encode_run(text, run, i);
        }
    }
    let ghost flushed = wire@ + (if run < i {
        escape_run(text.subrange(run, i))
    } else {
        Seq::<u8>::empty()
    });
    flush(&mut buf, &mut wire);
    assert(wire@ =~= flushed);
    assert(flushed + encode_at(text, i) =~= encode_at(text, 0));
    assert(wire@ =~= encode_at(text, 0));
    ascii_string(&wire)
}

} // verus!
