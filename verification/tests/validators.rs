use rfc9839::{
    is_char_unicode_assignable, is_char_unicode_scalar, is_char_xml_char,
    is_rune_unicode_assignable, is_rune_unicode_scalar, is_rune_xml_char,
    is_string_unicode_assignables, is_string_unicode_scalars, is_string_xml_chars,
    is_utf8_unicode_assignables, is_utf8_unicode_scalars, is_utf8_xml_chars,
};

fn utf8(ch: char) -> Vec<u8> {
    let mut buf = [0u8; 4];
    ch.encode_utf8(&mut buf).as_bytes().to_vec()
}

#[test]
fn char_validators_on_common_characters() {
    assert!(is_char_xml_char('A'));
    assert!(is_char_xml_char('\n')); // Line feed is valid
    assert!(is_char_xml_char('\t')); // Tab is valid
    assert!(is_char_xml_char('\r')); // Carriage return is valid
    assert!(!is_char_xml_char('\u{0008}')); // Backspace is invalid
    assert!(!is_char_xml_char('\u{0000}')); // Null is invalid

    assert!(is_char_unicode_assignable('A'));
    assert!(is_char_unicode_assignable('\u{4E2D}'));
    assert!(is_char_unicode_assignable('\n'));
    assert!(!is_char_unicode_assignable('\u{FFFE}')); // Noncharacter
    assert!(!is_char_unicode_assignable('\u{FFFF}')); // Noncharacter
    assert!(!is_char_unicode_assignable('\u{1FFFE}')); // Plane 1 noncharacter
}

#[test]
fn every_character_is_a_scalar_value() {
    for ch in ['\0', 'A', '\u{7F}', '\u{D7FF}', '\u{E000}', '\u{FFFE}', '\u{FFFF}', '\u{10FFFF}'] {
        assert!(is_char_unicode_scalar(ch), "{:x}", ch as u32);
    }
    for code in (0..=0x10FFFFu32).step_by(3) {
        if let Some(ch) = char::from_u32(code) {
            assert!(is_char_unicode_scalar(ch), "{:x}", code);
        }
    }
}

#[test]
fn char_validators_agree_with_code_point_validators() {
    for code in 0..=0x10FFFFu32 {
        if let Some(ch) = char::from_u32(code) {
            assert_eq!(is_char_unicode_scalar(ch), is_rune_unicode_scalar(code), "{:x}", code);
            assert_eq!(is_char_xml_char(ch), is_rune_xml_char(code), "{:x}", code);
            assert_eq!(
                is_char_unicode_assignable(ch),
                is_rune_unicode_assignable(code),
                "{:x}",
                code
            );
        }
    }
}

#[test]
fn rune_validators_on_common_code_points() {
    assert!(is_rune_unicode_scalar(0x41)); // 'A'
    assert!(is_rune_unicode_scalar(0x1F980));
    assert!(!is_rune_unicode_scalar(0xD800)); // Surrogate
    assert!(!is_rune_unicode_scalar(0xDFFF)); // Surrogate
    assert!(!is_rune_unicode_scalar(0x110000)); // Beyond Unicode

    assert!(is_rune_xml_char(0x41)); // 'A'
    assert!(is_rune_xml_char(0x09)); // Tab
    assert!(is_rune_xml_char(0x0A)); // Line feed
    assert!(!is_rune_xml_char(0x00)); // Null
    assert!(!is_rune_xml_char(0x08)); // Backspace

    assert!(is_rune_unicode_assignable(0x41)); // 'A'
    assert!(!is_rune_unicode_assignable(0xFFFE)); // Noncharacter
    assert!(!is_rune_unicode_assignable(0xFDD0)); // Noncharacter
    assert!(!is_rune_unicode_assignable(0x10FFFE)); // Plane 16 noncharacter
}

#[test]
fn string_validators_on_common_strings() {
    assert!(is_string_unicode_scalars("Hello, world!"));
    assert!(is_string_unicode_scalars("Hello, \u{4E16}\u{754C}!"));
    assert!(is_string_unicode_scalars("\u{1F980} Rust \u{1F980}"));
    assert!(is_string_unicode_scalars("")); // Empty string is valid
    assert!(is_string_unicode_scalars("\u{0}\u{FFFE}\u{FFFF}\u{10FFFF}"));

    assert!(is_string_xml_chars("Valid XML text"));
    assert!(is_string_xml_chars("Line 1\nLine 2")); // Newlines are valid
    assert!(is_string_xml_chars("Tab\there")); // Tabs are valid
    assert!(!is_string_xml_chars("Null\u{0000}char")); // Null is invalid
    assert!(!is_string_xml_chars("Bell\u{0007}char")); // Bell is invalid

    assert!(is_string_unicode_assignables("Hello, world!"));
    assert!(is_string_unicode_assignables("Hello, \u{4E16}\u{754C}!"));
    assert!(!is_string_unicode_assignables("Has nonchar\u{FFFE}"));
    assert!(!is_string_unicode_assignables("Has\u{FDD0}nonchar"));
}

#[test]
fn string_validators_find_a_bad_character_wherever_it_stands() {
    assert!(!is_string_xml_chars("\u{1}tail"));
    assert!(!is_string_xml_chars("head\u{1}tail"));
    assert!(!is_string_xml_chars("head\u{1}"));
    assert!(!is_string_xml_chars("\u{FFFF}"));
    assert!(is_string_xml_chars("\u{7F}\u{85}\u{FDD0}\u{1FFFE}"));

    assert!(!is_string_unicode_assignables("\u{7F}tail"));
    assert!(!is_string_unicode_assignables("head\u{85}tail"));
    assert!(!is_string_unicode_assignables("head\u{10FFFF}"));
    assert!(!is_string_unicode_assignables("\u{1}"));
    assert!(is_string_unicode_assignables("\t\r\n ~\u{A0}\u{FDCF}\u{FDF0}\u{10FFFD}"));
}

#[test]
fn string_validators_agree_with_char_validators() {
    let samples = [
        "",
        "plain",
        "tab\tand\nnewline\r",
        "\u{0}",
        "del\u{7F}",
        "c1\u{9F}",
        "\u{FDD0}",
        "\u{FFFD}\u{FFFE}",
        "\u{E000}\u{D7FF}",
        "\u{10000}\u{1FFFD}\u{1FFFE}",
        "\u{10FFFF}",
    ];
    for s in samples {
        assert_eq!(is_string_unicode_scalars(s), s.chars().all(is_char_unicode_scalar), "{:?}", s);
        assert_eq!(is_string_xml_chars(s), s.chars().all(is_char_xml_char), "{:?}", s);
        assert_eq!(
            is_string_unicode_assignables(s),
            s.chars().all(is_char_unicode_assignable),
            "{:?}",
            s
        );
    }
}

#[test]
fn utf8_validators_on_common_bytes() {
    assert!(is_utf8_unicode_scalars(b"Hello, world!"));
    assert!(is_utf8_unicode_scalars("Hello, \u{4E16}\u{754C}!".as_bytes()));
    // Invalid UTF-8 sequences return false
    assert!(!is_utf8_unicode_scalars(&[0xFF, 0xFE]));
    // Surrogate-containing UTF-8 returns false
    assert!(!is_utf8_unicode_scalars(&[0xED, 0xA0, 0x80])); // U+D800

    assert!(is_utf8_xml_chars(b"Valid XML"));
    assert!(is_utf8_xml_chars(b"Line 1\nLine 2"));
    // Control characters are invalid
    assert!(!is_utf8_xml_chars(b"Null\x00char"));
    // Invalid UTF-8 returns false
    assert!(!is_utf8_xml_chars(&[0xFF, 0xFE]));

    assert!(is_utf8_unicode_assignables(b"Hello, world!"));
    assert!(is_utf8_unicode_assignables("Hello, \u{4E16}\u{754C}!".as_bytes()));
    // Invalid UTF-8 returns false
    assert!(!is_utf8_unicode_assignables(&[0xFF, 0xFE]));
}

#[test]
fn utf8_scalar_validator_accepts_what_the_other_subsets_leave_out() {
    let text = "\u{0}\u{7F}\u{85}\u{FDD0}\u{FFFE}\u{FFFF}\u{10FFFF}";
    assert!(is_utf8_unicode_scalars(text.as_bytes()));
    assert!(!is_utf8_xml_chars(text.as_bytes()));
    assert!(!is_utf8_unicode_assignables(text.as_bytes()));
}

#[test]
fn concrete_scenarios() {
    assert!(is_string_xml_chars("Line 1\nLine 2"));
    assert!(!is_string_xml_chars("Null\u{0000}char"));

    let mut bytes = utf8('A');
    bytes.extend_from_slice(&utf8('\u{FFFE}'));
    assert_eq!(bytes, vec![0x41, 0xEF, 0xBF, 0xBE]);
    assert!(!is_utf8_unicode_assignables(&bytes));

    assert!(!is_utf8_unicode_scalars(&[0xED, 0xA0, 0x80]));
    assert!(!is_rune_unicode_assignable(0x1FFFE));
    assert!(is_rune_xml_char(0x9));
}

#[test]
fn empty_input_is_valid_for_every_subset() {
    assert!(is_string_unicode_scalars(""));
    assert!(is_string_xml_chars(""));
    assert!(is_string_unicode_assignables(""));
    assert!(is_string_xml_chars(&String::new()));
    assert!(is_utf8_unicode_scalars(b""));
    assert!(is_utf8_xml_chars(b""));
    assert!(is_utf8_unicode_assignables(b""));
    assert!(is_utf8_unicode_assignables(&Vec::new()));
}

#[test]
fn encoding_a_code_point_keeps_its_verdict() {
    for code in 0..=0x10FFFFu32 {
        if let Some(ch) = char::from_u32(code) {
            let mut buf = [0u8; 4];
            let bytes = ch.encode_utf8(&mut buf).as_bytes();
            assert_eq!(is_utf8_unicode_scalars(bytes), is_rune_unicode_scalar(code), "{:x}", code);
            assert_eq!(is_utf8_xml_chars(bytes), is_rune_xml_char(code), "{:x}", code);
            assert_eq!(
                is_utf8_unicode_assignables(bytes),
                is_rune_unicode_assignable(code),
                "{:x}",
                code
            );
        }
    }
}

#[test]
fn encoding_a_text_keeps_its_verdict() {
    let samples = [
        "",
        "plain text",
        "tab\tand\nnewline\r",
        "nul\u{0}",
        "del\u{7F}",
        "c1 \u{80}\u{9F}",
        "\u{A0}\u{D7FF}\u{E000}",
        "\u{FDCF}\u{FDD0}",
        "\u{FDEF}\u{FDF0}",
        "\u{FFFD}",
        "\u{FFFE}",
        "\u{10000}\u{1FFFD}",
        "\u{2FFFF}",
        "\u{10FFFD}\u{10FFFE}",
    ];
    for s in samples {
        let bytes = s.as_bytes();
        assert_eq!(is_utf8_unicode_scalars(bytes), is_string_unicode_scalars(s), "{:?}", s);
        assert_eq!(is_utf8_xml_chars(bytes), is_string_xml_chars(s), "{:?}", s);
        assert_eq!(
            is_utf8_unicode_assignables(bytes),
            is_string_unicode_assignables(s),
            "{:?}",
            s
        );
    }
}

#[test]
fn validators_give_the_same_answer_twice() {
    for code in [0x0u32, 0x9, 0x41, 0x7F, 0xD800, 0xFDD0, 0xFFFE, 0x1FFFE, 0x10FFFF, 0x110000] {
        assert_eq!(is_rune_unicode_scalar(code), is_rune_unicode_scalar(code));
        assert_eq!(is_rune_xml_char(code), is_rune_xml_char(code));
        assert_eq!(is_rune_unicode_assignable(code), is_rune_unicode_assignable(code));
    }
    for ch in ['\0', '\t', 'A', '\u{7F}', '\u{FDD0}', '\u{FFFE}', '\u{10FFFF}'] {
        assert_eq!(is_char_unicode_scalar(ch), is_char_unicode_scalar(ch));
        assert_eq!(is_char_xml_char(ch), is_char_xml_char(ch));
        assert_eq!(is_char_unicode_assignable(ch), is_char_unicode_assignable(ch));
    }
    for s in ["", "Line 1\nLine 2", "Null\u{0}char", "\u{FFFE}", "\u{85}"] {
        assert_eq!(is_string_unicode_scalars(s), is_string_unicode_scalars(s));
        assert_eq!(is_string_xml_chars(s), is_string_xml_chars(s));
        assert_eq!(is_string_unicode_assignables(s), is_string_unicode_assignables(s));
    }
    let buffers: [&[u8]; 5] =
        [b"", b"ascii", &[0x80], &[0xED, 0xA0, 0x80], &[0x41, 0xEF, 0xBF, 0xBE]];
    for bytes in buffers {
        assert_eq!(is_utf8_unicode_scalars(bytes), is_utf8_unicode_scalars(bytes));
        assert_eq!(is_utf8_xml_chars(bytes), is_utf8_xml_chars(bytes));
        assert_eq!(is_utf8_unicode_assignables(bytes), is_utf8_unicode_assignables(bytes));
    }
}
