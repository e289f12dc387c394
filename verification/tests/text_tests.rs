//! Text helpers, against the standard library.

use natpmp::text::{
    characters, decimal_text, encode_utf16, is_white, parse_hex, split_at_each, split_words,
    text_before, trim, trim_trailing,
};
use natpmp::Ipv4Addr;

const TEXTS: [&str; 12] = [
    "",
    " ",
    "a",
    " a b ",
    "\t\r\n x\u{a0}\u{2003}y \u{3000}",
    "a;b;c",
    ";",
    "no separator",
    "\u{85}é\u{2028}𝄞\u{205f}",
    "\u{200b}zero width\u{feff}",
    "trailing///",
    "line\n\nline\n",
];

#[test]
fn numbers_are_rendered_in_decimal() {
    for n in 0..=70_000u64 {
        assert_eq!(decimal_text(n), n.to_string());
    }
    for n in [99_999_999, 1_000_000_000_000, u64::MAX - 1, u64::MAX] {
        assert_eq!(decimal_text(n), n.to_string());
    }
}

#[test]
fn addresses_are_dotted() {
    assert_eq!(Ipv4Addr::new(10, 2, 0, 1).to_text(), "10.2.0.1");
    assert_eq!(Ipv4Addr::new(0, 0, 0, 0).to_text(), "0.0.0.0");
    assert_eq!(Ipv4Addr::new(255, 100, 99, 9).to_text(), "255.100.99.9");
    assert_eq!(Ipv4Addr::new(1, 2, 3, 4).octets(), [1, 2, 3, 4]);
}

#[test]
fn white_space_is_that_of_unicode() {
    for c in '\0'..=char::MAX {
        assert_eq!(is_white(c), c.is_whitespace(), "{c:?}");
    }
}

#[test]
fn texts_are_trimmed() {
    for text in TEXTS {
        assert_eq!(trim(text), text.trim());
        assert_eq!(trim_trailing(text, '/'), text.trim_end_matches('/'));
        assert_eq!(text_before(text, ';'), text.split(';').next().unwrap());
    }
}

#[test]
fn texts_are_split() {
    for text in TEXTS {
        let chars = characters(text);
        assert_eq!(chars, text.chars().collect::<Vec<_>>());
        let strings = |pieces: Vec<&[char]>| -> Vec<String> {
            pieces.into_iter().map(|p| p.iter().collect()).collect()
        };
        assert_eq!(strings(split_words(&chars)), text.split_whitespace().collect::<Vec<_>>());
        assert_eq!(strings(split_at_each(&chars, '\n')), text.split('\n').collect::<Vec<_>>());
        assert_eq!(strings(split_at_each(&chars, ';')), text.split(';').collect::<Vec<_>>());
    }
}

#[test]
fn hexadecimal_numbers_are_read() {
    let texts = [
        "0", "9", "a", "F", "10", "0101A8C0", "ffffffff", "FFFFFFFF", "100000000", "+1", "+", "-",
        "-1", "++1", "", "g", "1g", "g1", " 1", "0x1", "00000000000000000001", "fffffffff", "é", "1+",
        "7fffffff", "80000000", "/", ":", "@", "G", "`",
    ];
    for text in texts {
        assert_eq!(
            parse_hex(&characters(text)),
            u32::from_str_radix(text, 16).ok(),
            "{text}"
        );
    }
}

#[test]
fn texts_are_encoded_in_utf16() {
    for text in TEXTS {
        assert_eq!(encode_utf16(text), text.encode_utf16().collect::<Vec<_>>());
    }
    for c in ['\u{d7ff}', '\u{e000}', '\u{ffff}', '\u{10000}', '\u{10ffff}'] {
        let text = c.to_string();
        assert_eq!(encode_utf16(&text), text.encode_utf16().collect::<Vec<_>>());
    }
}
