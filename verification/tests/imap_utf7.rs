use mail_notifier::imap_utf7::{ImapUtf7Str, ImapUtf7String, ImapUtf7ValidateError};

#[test]
fn encode_ascii() {
    let encoded = ImapUtf7String::from_utf8("INBOX");
    assert_eq!(encoded.as_str(), "INBOX");
}

#[test]
fn encode_ampersand() {
    let encoded = ImapUtf7String::from_utf8("A&B");
    assert_eq!(encoded.as_str(), "A&-B");
}

#[test]
fn encode_nbsp() {
    let encoded = ImapUtf7String::from_utf8("Project\u{00A0}Notes");
    assert_eq!(encoded.as_str(), "Project&AKA-Notes");
}

#[test]
fn decode_literal_ampersand() {
    let encoded = ImapUtf7Str::new("&-").unwrap();
    let decoded = encoded.decode();
    assert_eq!(decoded, "&");
}

#[test]
fn decode_nbsp() {
    let encoded = ImapUtf7Str::new("Project&AKA-Notes").unwrap();
    let decoded = encoded.decode();
    assert_eq!(decoded, "Project\u{00A0}Notes");
}

#[test]
fn reject_non_ascii() {
    let err = ImapUtf7Str::new("тест").unwrap_err();
    assert!(matches!(err, ImapUtf7ValidateError::NonAscii(_)));
}

#[test]
fn reject_unterminated_sequence() {
    let err = ImapUtf7Str::new("Bad&AAA").unwrap_err();
    assert!(matches!(
        err,
        ImapUtf7ValidateError::UnterminatedSequence(_)
    ));
}

#[test]
fn reject_invalid_base64_char() {
    let err = ImapUtf7Str::new("Bad&AA=-").unwrap_err();
    assert!(matches!(
        err,
        ImapUtf7ValidateError::InvalidBase64Char(_)
    ));
}

#[test]
fn reject_invalid_base64_length() {
    let err = ImapUtf7Str::new("Bad&A-").unwrap_err();
    assert!(matches!(
        err,
        ImapUtf7ValidateError::InvalidBase64Length(_)
    ));
}

#[test]
fn reject_invalid_utf16_length() {
    let err = ImapUtf7Str::new("Bad&AA-").unwrap_err();
    assert!(matches!(
        err,
        ImapUtf7ValidateError::InvalidUtf16Length(_)
    ));
}

#[test]
fn reject_invalid_utf16_surrogate() {
    let err = ImapUtf7Str::new("Bad&2AA-").unwrap_err();
    assert!(matches!(err, ImapUtf7ValidateError::InvalidUtf16));
}

#[test]
fn display_decodes_utf7() {
    let encoded = ImapUtf7Str::new("Project&AKA-Notes").unwrap();
    assert_eq!(encoded.decode(), "Project\u{00A0}Notes");
}

fn round_trip(text: &str) {
    let encoded = ImapUtf7String::from_utf8(text);
    assert!(encoded.as_str().is_ascii(), "{text:?}");
    assert_eq!(encoded.decode(), text, "{text:?}");
    let again = ImapUtf7Str::new(encoded.as_str()).expect("the wire form is well formed");
    assert_eq!(again.decode(), text, "{text:?}");
}

#[test]
fn every_text_decodes_back_from_its_wire_form() {
    for text in [
        "",
        "INBOX",
        "&",
        "&&",
        "a&b&",
        "-",
        "&-",
        "\u{e9}",
        "\u{e9}t\u{e9}",
        "Entw\u{fc}rfe",
        "\u{65e5}\u{672c}\u{8a9e}",
        "~peter/mail/\u{53f0}\u{5317}/\u{65e5}\u{672c}\u{8a9e}",
        "\u{1f600}",
        "a\u{1f600}\u{10ffff}\u{10000}b",
        "\u{0}\u{1f}\u{7f}",
        "line\nbreak\ttab",
        "\u{d7ff}\u{e000}\u{ffff}",
        "x\u{e9}&\u{e9}-&-",
    ] {
        round_trip(text);
    }
}

#[test]
fn known_wire_forms() {
    let cases = [
        ("~peter/mail/\u{53f0}\u{5317}/\u{65e5}\u{672c}\u{8a9e}", "~peter/mail/&U,BTFw-/&ZeVnLIqe-"),
        ("\u{e9}", "&AOk-"),
        ("\u{e9}\u{e9}", "&AOkA6Q-"),
        ("\u{e9}\u{e9}\u{e9}", "&AOkA6QDp-"),
        ("\u{1f600}", "&2D3eAA-"),
        ("\u{e9}&", "&AOk-&-"),
        ("a\u{7f}b", "a&AH8-b"),
        ("", ""),
    ];
    for (text, wire) in cases {
        assert_eq!(ImapUtf7String::from_utf8(text).as_str(), wire);
        assert_eq!(ImapUtf7Str::new(wire).unwrap().decode(), text);
    }
}

#[test]
fn safe_text_is_its_own_wire_form() {
    for text in ["INBOX", "Sent Items", " ~}{|", "a-b+c,d", "0123456789"] {
        assert_eq!(ImapUtf7String::from_utf8(text).as_str(), text);
    }
}

#[test]
fn faults_are_reported_with_their_byte_offsets() {
    let cases = [
        ("\u{442}", ImapUtf7ValidateError::NonAscii(0)),
        ("ab\u{e9}", ImapUtf7ValidateError::NonAscii(2)),
        ("&-\u{e9}", ImapUtf7ValidateError::NonAscii(2)),
        ("Bad&AAA", ImapUtf7ValidateError::UnterminatedSequence(3)),
        ("&", ImapUtf7ValidateError::UnterminatedSequence(0)),
        ("ab&", ImapUtf7ValidateError::UnterminatedSequence(2)),
        ("Bad&AA=-", ImapUtf7ValidateError::InvalidBase64Char(6)),
        ("&A\u{e9}A-", ImapUtf7ValidateError::InvalidBase64Char(2)),
        ("&AO k-", ImapUtf7ValidateError::InvalidBase64Char(3)),
        ("&&-", ImapUtf7ValidateError::InvalidBase64Char(1)),
        ("Bad&A-", ImapUtf7ValidateError::InvalidBase64Length(5)),
        ("&AAAAA-", ImapUtf7ValidateError::InvalidBase64Length(6)),
        ("Bad&AA-", ImapUtf7ValidateError::InvalidUtf16Length(6)),
        ("&AAAA-", ImapUtf7ValidateError::InvalidUtf16Length(5)),
        ("Bad&2AA-", ImapUtf7ValidateError::InvalidUtf16),
        ("&3AA-", ImapUtf7ValidateError::InvalidUtf16),
        ("&2ADYAA-", ImapUtf7ValidateError::InvalidUtf16),
        ("&2AAAQQ-", ImapUtf7ValidateError::InvalidUtf16),
        ("&3ADYAA-", ImapUtf7ValidateError::InvalidUtf16),
        ("&AOk-&2AA-", ImapUtf7ValidateError::InvalidUtf16),
    ];
    for (candidate, fault) in cases {
        assert_eq!(ImapUtf7Str::new(candidate).unwrap_err(), fault, "{candidate}");
        assert_eq!(
            ImapUtf7String::from_imap_utf7(candidate.to_string()).unwrap_err(),
            fault,
            "{candidate}"
        );
    }
}

#[test]
fn a_surrogate_fault_comes_before_an_odd_byte() {
    assert_eq!(
        ImapUtf7Str::new("&3AAA-").unwrap_err(),
        ImapUtf7ValidateError::InvalidUtf16
    );
}

#[test]
fn well_formed_candidates_are_accepted_as_they_are() {
    for wire in ["", "INBOX", "&-", "a&-b", "&AOk-", "&2D3eAA-", "&AOkA6Q-x&-"] {
        let borrowed = ImapUtf7Str::new(wire).expect("well formed");
        assert_eq!(borrowed.as_str(), wire);
        let owned = borrowed.to_owned_string();
        assert_eq!(owned.as_str(), wire);
        assert_eq!(owned.as_imap_utf7_str().as_str(), wire);
        assert_eq!(owned.decode(), borrowed.decode());
        let owned = ImapUtf7String::from_imap_utf7(wire.to_string()).expect("well formed");
        assert_eq!(owned.as_str(), wire);
    }
}

#[test]
fn bits_left_over_in_a_payload_are_dropped() {
    assert_eq!(ImapUtf7Str::new("&AOl-").unwrap().decode(), "\u{e9}");
}

#[test]
fn a_wire_form_is_parsed_from_a_string() {
    let name: ImapUtf7String = "Project&AKA-Notes".parse().expect("well formed");
    assert_eq!(name.decode(), "Project\u{a0}Notes");
    assert_eq!(name.clone(), name);
    let refused: Result<ImapUtf7String, _> = "Bad&A-".parse();
    assert_eq!(refused.unwrap_err(), ImapUtf7ValidateError::InvalidBase64Length(5));
}

#[test]
fn parsing_a_wire_form_keeps_the_string_or_names_the_first_fault() {
    for wire in ["", "INBOX", "&-", "&AOk-", "a&-b&2D3eAA-"] {
        let name: ImapUtf7String = wire.parse().expect("well formed");
        assert_eq!(name.as_str(), wire);
    }
    for (candidate, fault) in [
        ("\u{e9}", ImapUtf7ValidateError::NonAscii(0)),
        ("a&", ImapUtf7ValidateError::UnterminatedSequence(1)),
        ("&2AA-", ImapUtf7ValidateError::InvalidUtf16),
    ] {
        let refused: Result<ImapUtf7String, _> = candidate.parse();
        assert_eq!(refused.unwrap_err(), fault);
    }
}
