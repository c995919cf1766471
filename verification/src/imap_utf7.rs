//! The wire-safe form of mailbox names: printable ASCII stands for itself,
//! `&` is written `&-`, and every other run of text is written as `&`, the
//! modified base64 of its big-endian UTF-16, and `-`.

use crate::imap_utf7::decode::decode_valid;
use crate::imap_utf7::encode::encode_imap_utf7;
use crate::imap_utf7::laws::{lemma_encoded_is_valid, lemma_valid_text_is_ascii};
use crate::imap_utf7::validate::validate_imap_utf7;
use crate::imap_utf7::wire::{decode_spec, encode_spec, is_direct, validate_spec};
use vstd::prelude::*;
use vstd::utf8::encode_utf8;

pub mod base64;
pub mod decode;
pub mod encode;
pub mod laws;
pub mod utf16;
pub mod validate;
pub mod wire;

verus! {

/// Errors returned while validating a wire form.
#[derive(Debug, PartialEq, Eq)]
pub enum ImapUtf7ValidateError {
    /// Encountered a non-ASCII character in the encoded input.
    NonAscii(usize),
    /// An encoded sequence started with '&' but did not terminate with '-'.
    UnterminatedSequence(usize),
    /// Encountered an invalid base64 character at the given byte offset.
    InvalidBase64Char(usize),
    /// Base64 input length is invalid.
    InvalidBase64Length(usize),
    /// Base64 decoded bytes length is not even, invalid for UTF-16BE.
    InvalidUtf16Length(usize),
    /// Decoded UTF-16 sequence is invalid.
    InvalidUtf16,
}

/// A borrowed wire-safe mailbox name.
///
/// Every value holds a string that validation accepts, so decoding it
/// cannot fail.
#[derive(Debug, Clone, Copy, PartialEq, Eq, Hash)]
pub struct ImapUtf7Str<'a> {
    encoded: &'a str,
}

/// An owned wire-safe mailbox name.
///
/// Every value holds a string that validation accepts, so decoding it
/// cannot fail.
#[derive(Debug, PartialEq, Eq, Hash)]
pub struct ImapUtf7String {
    inner: String,
}

impl<'a> View for ImapUtf7Str<'a> {
    type V = Seq<char>;

    /// The encoded string.
    closed spec fn view(&self) -> Seq<char> {
        self.encoded@
    }
}

impl View for ImapUtf7String {
    type V = Seq<char>;

    /// The encoded string.
    closed spec fn view(&self) -> Seq<char> {
        self.inner@
    }
}

impl Clone for ImapUtf7String {
    /// A copy that holds the same encoded string.
    fn clone(&self) -> (copy: Self)
        ensures
            copy@ == self@,
    {
        proof {
            use_type_invariant(self);
        }
        ImapUtf7String { inner: self.inner.clone() }
    }
}

impl core::str::FromStr for ImapUtf7String {
    type Err = ImapUtf7ValidateError;

    /// Validate a wire form and keep a copy of it: the name holds the
    /// string where validation accepts it, else the error is the first
    /// fault that validation finds.
    fn from_str(s: &str) -> (r: Result<Self, ImapUtf7ValidateError>)
        ensures
            match r {
                Ok(name) => validate_spec(encode_utf8(s@)) is Ok && name@ == s@,
                Err(e) => validate_spec(encode_utf8(s@)) == Err::<(), ImapUtf7ValidateError>(e),
            },
    {
        match ImapUtf7Str::new(s) {
            Ok(name) => Ok(name.to_owned_string()),
            Err(e) => Err(e),
        }
    }
}

impl<'a> ImapUtf7Str<'a> {
    #[verifier::type_invariant]
    spec fn well_formed(self) -> bool {
        validate_spec(encode_utf8(self.encoded@)) is Ok
    }

    /// Validate a wire form: ASCII only, every escape run terminated and made
    /// of alphabet symbols in a possible number, and the UTF-16 that the runs
    /// hold well formed. On success, returns a wrapper tied to the input.
    pub fn new(encoded: &'a str) -> (r: Result<Self, ImapUtf7ValidateError>)
        ensures
            match r {
                Ok(name) => validate_spec(encode_utf8(encoded@)) is Ok && name@ == encoded@,
                Err(e) => validate_spec(encode_utf8(encoded@)) == Err::<(), ImapUtf7ValidateError>(e),
            },
    {
        match validate_imap_utf7(encoded) {
            Ok(()) => Ok(ImapUtf7Str { encoded }),
            Err(e) => Err(e),
        }
    }

    /// Return the underlying encoded string slice.
    pub fn as_str(&self) -> (r: &'a str)
        ensures
            r@ == self@,
            validate_spec(encode_utf8(r@)) is Ok,
            vstd::utf8::is_ascii_chars(r@),
    {
        proof {
            use_type_invariant(self);
            lemma_valid_text_is_ascii(self.encoded@);
        }
        self.encoded
    }

    /// Decode this wire form into text.
    pub fn decode(&self) -> (text: String)
        ensures
            text@ == decode_spec(encode_utf8(self@)),
    {
        proof {
            use_type_invariant(self);
        }
        decode_valid(self.encoded)
    }

    /// Convert this wrapper into an owned `ImapUtf7String`.
    pub fn to_owned_string(&self) -> (owned: ImapUtf7String)
        ensures
            owned@ == self@,
    {
        proof {
            use_type_invariant(self);
        }
        ImapUtf7String { inner: self.encoded.to_owned() }
    }
}

impl ImapUtf7String {
    #[verifier::type_invariant]
    spec fn well_formed(self) -> bool {
        validate_spec(encode_utf8(self.inner@)) is Ok
    }

    /// Encode a mailbox name into its wire form. The result decodes back
    /// into the input.
    pub fn from_utf8(input: &str) -> (name: Self)
        ensures
            encode_utf8(name@) == encode_spec(input@),
            decode_spec(encode_utf8(name@)) == input@,
            (forall|k: int| 0 <= k < input@.len() ==> is_direct(#[trigger] input@[k])) ==> name@
                == input@,
    {
        let inner = encode_imap_utf7(input);
        proof {
            lemma_encoded_is_valid(input@);
        }
        ImapUtf7String { inner }
    }

    /// Create a wrapper from an already encoded wire form, after full
    /// validation.
    pub fn from_imap_utf7(encoded: String) -> (r: Result<Self, ImapUtf7ValidateError>)
        ensures
            match r {
                Ok(name) => validate_spec(encode_utf8(encoded@)) is Ok && name@ == encoded@,
                Err(e) => validate_spec(encode_utf8(encoded@)) == Err::<(), ImapUtf7ValidateError>(e),
            },
    {
        match validate_imap_utf7(encoded.as_str()) {
            Ok(()) => Ok(ImapUtf7String { inner: encoded }),
            Err(e) => Err(e),
        }
    }

    /// Borrow as an `ImapUtf7Str` wrapper.
    pub fn as_imap_utf7_str(&self) -> (name: ImapUtf7Str<'_>)
        ensures
            name@ == self@,
    {
        proof {
            use_type_invariant(self);
        }
        ImapUtf7Str { encoded: self.inner.as_str() }
    }

    /// Return the underlying encoded string slice.
    pub fn as_str(&self) -> (r: &str)
        ensures
            r@ == self@,
            validate_spec(encode_utf8(r@)) is Ok,
            vstd::utf8::is_ascii_chars(r@),
    {
        proof {
            use_type_invariant(self);
            lemma_valid_text_is_ascii(self.inner@);
        }
        self.inner.as_str()
    }

    /// Decode this wire form into text.
    pub fn decode(&self) -> (text: String)
        ensures
            text@ == decode_spec(encode_utf8(self@)),
    {
        proof {
            use_type_invariant(self);
        }
        decode_valid(self.inner.as_str())
    }
}

} // verus!
