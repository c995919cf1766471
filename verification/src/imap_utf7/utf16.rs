//! UTF-16, as far as mailbox names need it: the code units of a character,
//! their big-endian bytes, and the left-to-right reading of code units that
//! pairs surrogates.

use vstd::prelude::*;

verus! {

/// Whether a code unit is a high (leading) surrogate.
pub open spec fn is_high_surrogate(u: u16) -> bool {
    0xD800 <= u <= 0xDBFF
}

/// Whether a code unit is a low (trailing) surrogate.
pub open spec fn is_low_surrogate(u: u16) -> bool {
    0xDC00 <= u <= 0xDFFF
}

/// The code units of one character: itself below U+10000, else a surrogate
/// pair.
pub open spec fn char_units(c: char) -> Seq<u16> {
    let v = c as u32;
    if v < 0x10000 {
        seq![v as u16]
    } else {
        seq![(0xD800 + (v - 0x10000) / 0x400) as u16, (0xDC00 + (v - 0x10000) % 0x400) as u16]
    }
}

/// The code units of a text.
pub open spec fn utf16_encode(text: Seq<char>) -> Seq<u16>
    decreases text.len(),
{
    if text.len() == 0 {
        Seq::empty()
    } else {
        utf16_encode(text.drop_last()) + char_units(text.last())
    }
}

/// Code units as bytes, the high byte of each first.
pub open spec fn utf16_be_bytes(units: Seq<u16>) -> Seq<u8> {
    Seq::new(
        2 * units.len(),
        |i: int|
            if i % 2 == 0 {
                (units[i / 2] / 256) as u8
            } else {
                (units[i / 2] % 256) as u8
            },
    )
}

/// The code units that a byte sequence holds, two bytes each, the high byte
/// first. A last odd byte holds none.
pub open spec fn units_of_bytes(bytes: Seq<u8>) -> Seq<u16> {
    Seq::new(bytes.len() / 2, |k: int| (bytes[2 * k] * 256 + bytes[2 * k + 1]) as u16)
}

/// Reading on by one code unit. The state says whether a high surrogate waits
/// for its partner; the result is `None` where the unit cannot follow.
pub open spec fn scan_step(pending: bool, u: u16) -> Option<bool> {
    if is_high_surrogate(u) {
        if pending {
            None
        } else {
            Some(true)
        }
    } else if is_low_surrogate(u) {
        if pending {
            Some(false)
        } else {
            None
        }
    } else {
        if pending {
            None
        } else {
            Some(false)
        }
    }
}

/// The state after reading the first `k` code units: `None` once a surrogate
/// stood unmatched, else whether a high surrogate waits for its partner.
pub open spec fn scan(units: Seq<u16>, k: nat) -> Option<bool>
    decreases k,
{
    if k == 0 {
        Some(false)
    } else {
        match scan(units, (k - 1) as nat) {
            None => None,
            Some(pending) => scan_step(pending, units[k - 1]),
        }
    }
}

/// Whether all code units read as text: every surrogate is half of a pair.
pub open spec fn well_formed(units: Seq<u16>) -> bool {
    scan(units, units.len()) == Some(false)
}

/// The character of a surrogate pair.
pub open spec fn pair_char(high: u16, low: u16) -> char {
    (0x10000 + (high - 0xD800) * 0x400 + (low - 0xDC00)) as char
}

/// The characters that the first `k` code units complete.
pub open spec fn scanned_chars(units: Seq<u16>, k: nat) -> Seq<char>
    decreases k,
{
    if k == 0 {
        Seq::empty()
    } else {
        let before = scanned_chars(units, (k - 1) as nat);
        let u = units[k - 1];
        if is_high_surrogate(u) {
            before
        } else if is_low_surrogate(u) {
            if k >= 2 {
                before.push(pair_char(units[k - 2], u))
            } else {
                before
            }
        } else {
            before.push(u as char)
        }
    }
}

/// The text of well-formed code units.
pub open spec fn utf16_decode(units: Seq<u16>) -> Seq<char> {
    scanned_chars(units, units.len())
}

/// What the code units of one character are, and how they read.
pub proof fn lemma_char_units(c: char)
    ensures
        (c as u32) < 0x10000 ==> {
            &&& char_units(c).len() == 1
            &&& !is_high_surrogate(char_units(c)[0])
            &&& !is_low_surrogate(char_units(c)[0])
            &&& char_units(c)[0] as char == c
        },
        (c as u32) >= 0x10000 ==> {
            &&& char_units(c).len() == 2
            &&& is_high_surrogate(char_units(c)[0])
            &&& is_low_surrogate(char_units(c)[1])
            &&& pair_char(char_units(c)[0], char_units(c)[1]) == c
        },
{
}

/// Reading a prefix looks only at the prefix.
pub proof fn lemma_scan_prefix(a: Seq<u16>, b: Seq<u16>, k: nat)
    requires
        k <= a.len(),
        k <= b.len(),
        forall|i: int| 0 <= i < k ==> a[i] == b[i],
    ensures
        scan(a, k) == scan(b, k),
        scanned_chars(a, k) == scanned_chars(b, k),
    decreases k,
{
    if k > 0 {
        lemma_scan_prefix(a, b, (k - 1) as nat);
    }
}

/// Once a surrogate stood unmatched, reading further does not mend it.
pub proof fn lemma_scan_stays_broken(units: Seq<u16>, k: nat, m: nat)
    requires
        k <= m,
        scan(units, k) is None,
    ensures
        scan(units, m) is None,
    decreases m,
{
    if k < m {
        lemma_scan_stays_broken(units, k, (m - 1) as nat);
    }
}

/// The code units of a text are well formed and read as that text.
pub proof fn lemma_utf16_round_trip(text: Seq<char>)
    ensures
        well_formed(utf16_encode(text)),
        utf16_decode(utf16_encode(text)) == text,
        utf16_encode(text).len() >= text.len(),
    decreases text.len(),
{
    if text.len() > 0 {
        let front = text.drop_last();
        let c = text.last();
        let u = utf16_encode(front);
        let w = utf16_encode(text);
        lemma_utf16_round_trip(front);
        lemma_scan_prefix(u, w, u.len());
        lemma_char_units(c);
        let cu = char_units(c);
        if cu.len() == 1 {
            assert(w.len() == u.len() + 1);
            assert(w[u.len() as int] == cu[0]);
            assert(scanned_chars(w, w.len()) == front.push(c));
        } else {
            assert(w.len() == u.len() + 2);
            assert(w[u.len() as int] == cu[0]);
            assert(w[u.len() as int + 1] == cu[1]);
            assert(scan(w, (u.len() + 1) as nat) == Some(true));
            assert(scanned_chars(w, (u.len() + 1) as nat) == front);
            assert(scanned_chars(w, w.len()) == front.push(c));
        }
        assert(front.push(c) =~= text);
    }
}

/// The code units of a longer text start with those of the shorter.
pub proof fn lemma_utf16_encode_push(text: Seq<char>, c: char)
    ensures
        utf16_encode(text.push(c)) == utf16_encode(text) + char_units(c),
{
    assert(text.push(c).drop_last() =~= text);
}

/// Splitting code units into bytes and joining them again changes nothing.
pub proof fn lemma_units_of_be_bytes(units: Seq<u16>)
    ensures
        units_of_bytes(utf16_be_bytes(units)) =~= units,
        utf16_be_bytes(units).len() == 2 * units.len(),
{
    let bytes = utf16_be_bytes(units);
    assert forall|k: int| 0 <= k < units.len() implies units_of_bytes(bytes)[k] == units[k] by {
        assert((2 * k) % 2 == 0 && (2 * k) / 2 == k);
        assert((2 * k + 1) % 2 == 1 && (2 * k + 1) / 2 == k);
    }
}

} // verus!
