use selection_monitor::number::{push_decimal, push_signed_decimal};
use selection_monitor::text::{is_blank, is_white_space, trim};
use selection_monitor::utf16::decode_utf16_lossy;

#[test]
fn white_space_is_the_unicode_property() {
    for c in '\0'..=char::MAX {
        assert_eq!(is_white_space(c), c.is_whitespace(), "{:?}", c);
    }
}

#[test]
fn trimming_cuts_both_ends() {
    assert_eq!(trim("  a b\t\n"), "a b");
    assert_eq!(trim("\u{3000}文字\u{2003}"), "文字");
    assert_eq!(trim("plain"), "plain");
    assert_eq!(trim(" \r\n\t "), "");
    assert_eq!(trim(""), "");
    assert_eq!(trim("\u{180E}x\u{200B}"), "\u{180E}x\u{200B}");
}

#[test]
fn trimming_agrees_with_the_standard_library() {
    let parts: [&str; 6] = ["", " ", "a", "\n", "é", "\u{2028}"];
    for a in parts {
        for b in parts {
            for c in parts {
                for d in parts {
                    let s: String = format!("{}{}{}{}", a, b, c, d);
                    assert_eq!(trim(&s), s.trim());
                    assert_eq!(is_blank(&s), s.trim().is_empty());
                    assert_eq!(trim(&trim(&s)), trim(&s));
                }
            }
        }
    }
}

#[test]
fn blank_texts_are_white_space_only() {
    assert!(is_blank(""));
    assert!(is_blank(" \t\u{00A0}"));
    assert!(!is_blank(" x "));
}

#[test]
fn utf16_text_is_decoded() {
    assert_eq!(decode_utf16_lossy(&[]), "");
    assert_eq!(decode_utf16_lossy(&[0x0041, 0x6587, 0xFFFF]), "A文\u{FFFF}");
    assert_eq!(decode_utf16_lossy(&[0xD83D, 0xDE00]), "😀");
    assert_eq!(decode_utf16_lossy(&[0xDBFF, 0xDFFF]), "\u{10FFFF}");
}

#[test]
fn lone_surrogates_are_replaced() {
    assert_eq!(decode_utf16_lossy(&[0xD83D]), "\u{FFFD}");
    assert_eq!(decode_utf16_lossy(&[0xDE00, 0x0041]), "\u{FFFD}A");
    assert_eq!(decode_utf16_lossy(&[0xD83D, 0x0041]), "\u{FFFD}A");
    assert_eq!(decode_utf16_lossy(&[0xD83D, 0xD83D, 0xDE00]), "\u{FFFD}😀");
    assert_eq!(decode_utf16_lossy(&[0xDE00, 0xD83D]), "\u{FFFD}\u{FFFD}");
}

#[test]
fn utf16_decoding_agrees_with_the_standard_library() {
    for unit in 0..=u16::MAX {
        assert_eq!(decode_utf16_lossy(&[unit]), String::from_utf16_lossy(&[unit]));
    }
    let units: [u16; 9] = [
        0x0000, 0x0041, 0xD7FF, 0xD800, 0xDBFF, 0xDC00, 0xDFFF, 0xE000, 0xFFFF,
    ];
    for a in units {
        for b in units {
            for c in units {
                for d in units {
                    let all: [u16; 4] = [a, b, c, d];
                    assert_eq!(decode_utf16_lossy(&all), String::from_utf16_lossy(&all));
                }
            }
        }
    }
}

#[test]
fn every_character_survives_utf16() {
    let mut buffer: [u16; 2] = [0, 0];
    for c in '\0'..=char::MAX {
        let units: &[u16] = c.encode_utf16(&mut buffer);
        let text: String = decode_utf16_lossy(units);
        assert_eq!(text.chars().next(), Some(c));
        assert_eq!(text.chars().count(), 1);
    }
}

#[test]
fn numerals_are_decimal() {
    for n in [0u64, 7, 9, 10, 11, 99, 100, 12345, u64::MAX] {
        let mut out: String = "n=".to_string();
        push_decimal(&mut out, n);
        assert_eq!(out, format!("n={}", n));
    }
    for i in [0i32, -1, 10, -10, 640, i32::MAX, i32::MIN] {
        let mut out: String = String::new();
        push_signed_decimal(&mut out, i);
        assert_eq!(out, format!("{}", i));
    }
}
