use mail_notifier::imap_utf7::base64::{
    decode_mutf7_base64_slice, encode_mutf7_base64, is_mutf7_base64_char,
};
use mail_notifier::imap_utf7::decode::{decode_bytes, decode_imap_utf7};
use mail_notifier::imap_utf7::encode::encode_imap_utf7;
use mail_notifier::imap_utf7::validate::{
    validate_bytes, validate_imap_utf7, validate_mutf7_base64_utf16,
};
use mail_notifier::imap_utf7::ImapUtf7ValidateError;

#[test]
fn the_alphabet_ends_in_plus_and_comma() {
    let alphabet = b"ABCDEFGHIJKLMNOPQRSTUVWXYZabcdefghijklmnopqrstuvwxyz0123456789+,";
    for b in 0..=255u8 {
        assert_eq!(is_mutf7_base64_char(b), alphabet.contains(&b), "{b}");
    }
    let all: Vec<u8> = (0..64u8).collect();
    let bytes = decode_mutf7_base64_slice(alphabet).unwrap();
    assert_eq!(bytes.len(), 48);
    let mut sextets = Vec::new();
    for chunk in bytes.chunks(3) {
        sextets.push(chunk[0] >> 2);
        sextets.push(((chunk[0] & 3) << 4) | (chunk[1] >> 4));
        sextets.push(((chunk[1] & 15) << 2) | (chunk[2] >> 6));
        sextets.push(chunk[2] & 63);
    }
    assert_eq!(sextets, all);
    assert_eq!(encode_mutf7_base64(&bytes), alphabet.to_vec());
}

#[test]
fn base64_has_no_padding() {
    assert_eq!(encode_mutf7_base64(b""), b"".to_vec());
    assert_eq!(encode_mutf7_base64(b"f"), b"Zg".to_vec());
    assert_eq!(encode_mutf7_base64(b"fo"), b"Zm8".to_vec());
    assert_eq!(encode_mutf7_base64(b"foo"), b"Zm9v".to_vec());
    assert_eq!(encode_mutf7_base64(b"foob"), b"Zm9vYg".to_vec());
    assert_eq!(encode_mutf7_base64(&[0xfb, 0xff]), b"+,8".to_vec());
    assert_eq!(decode_mutf7_base64_slice(b""), Ok(b"".to_vec()));
    assert_eq!(decode_mutf7_base64_slice(b"Zg"), Ok(b"f".to_vec()));
    assert_eq!(decode_mutf7_base64_slice(b"Zm8"), Ok(b"fo".to_vec()));
    assert_eq!(decode_mutf7_base64_slice(b"Zm9v"), Ok(b"foo".to_vec()));
    assert_eq!(decode_mutf7_base64_slice(b"Zm9vYg"), Ok(b"foob".to_vec()));
    assert_eq!(decode_mutf7_base64_slice(b"+,8"), Ok(vec![0xfb, 0xff]));
    assert_eq!(
        decode_mutf7_base64_slice(b"Zm9vY"),
        Err(ImapUtf7ValidateError::InvalidBase64Length(5))
    );
    assert_eq!(
        decode_mutf7_base64_slice(b"Zm=v"),
        Err(ImapUtf7ValidateError::InvalidBase64Char(2))
    );
    assert_eq!(
        decode_mutf7_base64_slice(b"Zm9vY-"),
        Err(ImapUtf7ValidateError::InvalidBase64Char(5))
    );
}

#[test]
fn base64_round_trips_every_length() {
    for len in 0..40usize {
        let bytes: Vec<u8> = (0..len).map(|i| (i * 37 + 11) as u8).collect();
        assert_eq!(decode_mutf7_base64_slice(&encode_mutf7_base64(&bytes)), Ok(bytes));
    }
}

#[test]
fn payloads_are_checked_for_length_and_surrogates() {
    assert_eq!(validate_mutf7_base64_utf16(b"AKA", 9), Ok(()));
    assert_eq!(
        validate_mutf7_base64_utf16(b"", 9),
        Err(ImapUtf7ValidateError::InvalidBase64Length(9))
    );
    assert_eq!(validate_mutf7_base64_utf16(b"A", 9), Err(ImapUtf7ValidateError::InvalidBase64Length(9)));
    assert_eq!(validate_mutf7_base64_utf16(b"AKAAA", 9), Err(ImapUtf7ValidateError::InvalidBase64Length(9)));
    assert_eq!(validate_mutf7_base64_utf16(b"AA", 9), Err(ImapUtf7ValidateError::InvalidUtf16Length(9)));
    assert_eq!(validate_mutf7_base64_utf16(b"2AA", 9), Err(ImapUtf7ValidateError::InvalidUtf16));
    assert_eq!(validate_mutf7_base64_utf16(b"2D3eAA", 9), Ok(()));
    assert_eq!(
        validate_mutf7_base64_utf16(b"2AA=", 9),
        Err(ImapUtf7ValidateError::InvalidBase64Char(3))
    );
    assert_eq!(
        validate_mutf7_base64_utf16(b"-", 9),
        Err(ImapUtf7ValidateError::InvalidBase64Char(0))
    );
}

#[test]
fn the_functions_on_strings_and_on_bytes_agree() {
    assert_eq!(encode_imap_utf7("Project\u{a0}Notes"), "Project&AKA-Notes");
    assert_eq!(validate_imap_utf7("Project&AKA-Notes"), Ok(()));
    assert_eq!(validate_bytes(b"Project&AKA-Notes"), Ok(()));
    assert_eq!(
        decode_imap_utf7("Project&AKA-Notes"),
        Ok("Project\u{a0}Notes".to_string())
    );
    assert_eq!(
        decode_bytes(b"Project&AKA-Notes"),
        Ok("Project\u{a0}Notes".to_string())
    );
    assert_eq!(
        decode_imap_utf7("Bad&AAA"),
        Err(ImapUtf7ValidateError::UnterminatedSequence(3))
    );
    assert_eq!(
        decode_bytes(&[b'&', b'2', b'A', b'A', b'-']),
        Err(ImapUtf7ValidateError::InvalidUtf16)
    );
    assert_eq!(
        validate_bytes(&[b'a', 0xff]),
        Err(ImapUtf7ValidateError::NonAscii(1))
    );
}

#[test]
fn a_fault_of_the_alphabet_comes_before_a_fault_of_the_code_units() {
    assert_eq!(
        validate_mutf7_base64_utf16(b"3AAA=", 9),
        Err(ImapUtf7ValidateError::InvalidBase64Char(4))
    );
    assert_eq!(
        validate_mutf7_base64_utf16(b"3AAA", 9),
        Err(ImapUtf7ValidateError::InvalidUtf16)
    );
}
