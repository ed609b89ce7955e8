//! The text helpers: numbers, whitespace, searching.
use blazing_agi::connection::{line_type, LineType};
use blazing_agi::text::{
    chars_eq, find_char, find_sub, is_text, is_whitespace_char, occurs_here, parse_digits,
    parse_i32, parse_unsigned, push_chars, push_decimal, starts_with, to_chars, to_string,
    trim_end, trim_end_len,
};

fn chars(s: &str) -> Vec<char> {
    s.chars().collect()
}

#[test]
fn characters_and_back() {
    assert_eq!(to_chars("a÷b"), vec!['a', '÷', 'b']);
    assert_eq!(to_chars(""), Vec::<char>::new());
    assert_eq!(to_string(&chars("gedöns")), "gedöns");
    let mut s = "ab".to_owned();
    push_chars(&mut s, &chars("cd"));
    assert_eq!(s, "abcd");
    assert!(chars_eq(&chars("abc"), &chars("abc")));
    assert!(!chars_eq(&chars("abc"), &chars("abd")));
    assert!(!chars_eq(&chars("abc"), &chars("ab")));
    assert!(is_text(&chars("abc"), "abc"));
    assert!(!is_text(&chars("abc"), "abcd"));
}

#[test]
fn unsigned_numbers() {
    assert_eq!(parse_unsigned(&chars("0"), 255), Some(0));
    assert_eq!(parse_unsigned(&chars("255"), 255), Some(255));
    assert_eq!(parse_unsigned(&chars("256"), 255), None);
    assert_eq!(parse_unsigned(&chars("+17"), 255), Some(17));
    assert_eq!(parse_unsigned(&chars("0017"), 255), Some(17));
    assert_eq!(parse_unsigned(&chars(""), 255), None);
    assert_eq!(parse_unsigned(&chars("+"), 255), None);
    assert_eq!(parse_unsigned(&chars("++1"), 255), None);
    assert_eq!(parse_unsigned(&chars("-1"), 255), None);
    assert_eq!(parse_unsigned(&chars("1 "), 255), None);
    assert_eq!(parse_unsigned(&chars("1a"), 255), None);
    assert_eq!(parse_unsigned(&chars("٣"), 255), None);
    assert_eq!(
        parse_unsigned(&chars("18446744073709551615"), u64::MAX),
        Some(u64::MAX)
    );
    assert_eq!(parse_unsigned(&chars("18446744073709551616"), u64::MAX), None);
    assert_eq!(parse_unsigned(&chars("99999999999999999999999"), u64::MAX), None);
    assert_eq!(parse_digits(&chars("+1"), 9), None);
    assert_eq!(parse_digits(&chars("9"), 9), Some(9));
    assert_eq!(parse_digits(&chars("10"), 9), None);
}

#[test]
fn signed_numbers() {
    assert_eq!(parse_i32(&chars("0")), Some(0));
    assert_eq!(parse_i32(&chars("-0")), Some(0));
    assert_eq!(parse_i32(&chars("-1")), Some(-1));
    assert_eq!(parse_i32(&chars("+1")), Some(1));
    assert_eq!(parse_i32(&chars("2147483647")), Some(i32::MAX));
    assert_eq!(parse_i32(&chars("2147483648")), None);
    assert_eq!(parse_i32(&chars("-2147483648")), Some(i32::MIN));
    assert_eq!(parse_i32(&chars("-2147483649")), None);
    assert_eq!(parse_i32(&chars("-")), None);
    assert_eq!(parse_i32(&chars("-+1")), None);
    assert_eq!(parse_i32(&chars("")), None);
    assert_eq!(parse_i32(&chars("1.0")), None);
}

#[test]
fn decimal_rendering() {
    for n in [0u64, 7, 10, 99, 100, 65535, 1104922960, u64::MAX] {
        let mut s = "n=".to_owned();
        push_decimal(&mut s, n);
        assert_eq!(s, format!("n={}", n));
    }
}

#[test]
fn whitespace() {
    for c in [' ', '\t', '\n', '\r', '\u{b}', '\u{c}', '\u{85}', '\u{a0}', '\u{3000}'] {
        assert!(is_whitespace_char(c));
    }
    for c in ['a', '0', '\0', '\u{200b}', '_'] {
        assert!(!is_whitespace_char(c));
    }
    // The same characters as std trims.
    for code in 0u32..0x3100 {
        if let Some(c) = char::from_u32(code) {
            assert_eq!(is_whitespace_char(c), c.is_whitespace());
        }
    }
    assert_eq!(trim_end_len(&chars("ab \t\r\n")), 2);
    assert_eq!(trim_end_len(&chars("  ")), 0);
    assert_eq!(trim_end(&chars(" a b ")), &chars(" a b")[..]);
}

#[test]
fn searching() {
    assert_eq!(find_char(&chars("a:b:c"), ':'), 1);
    assert_eq!(find_char(&chars("abc"), ':'), 3);
    assert_eq!(find_sub(&chars("a:b: c: d"), &chars(": ")), 3);
    assert_eq!(find_sub(&chars("abc"), &chars(": ")), 3);
    assert_eq!(find_sub(&chars("ab:"), &chars(": ")), 3);
    assert!(occurs_here(&chars("abc"), &chars("bc"), 1));
    assert!(!occurs_here(&chars("abc"), &chars("bc"), 2));
    assert!(!occurs_here(&chars("abc"), &chars("bc"), 7));
    assert!(starts_with(&chars("agi_arg_1"), "agi_arg_"));
    assert!(!starts_with(&chars("agi_ar"), "agi_arg_"));
}

#[test]
fn line_types() {
    assert_eq!(line_type("\n"), LineType::Empty);
    assert_eq!(line_type("agi_network: yes\n"), LineType::NetworkStart);
    assert_eq!(line_type("agi_network: yes"), LineType::Unknown);
    assert_eq!(line_type("200 result=1\n"), LineType::Status);
    assert_eq!(line_type("xyz result="), LineType::Status);
    assert_eq!(line_type("200 result"), LineType::Unknown);
    assert_eq!(line_type("2000 result=1\n"), LineType::Unknown);
    assert_eq!(line_type("20"), LineType::Unknown);
    assert_eq!(line_type(""), LineType::Unknown);
    assert_eq!(line_type("agi_channel: SIP\n"), LineType::Unknown);
    // The first three bytes count, not the first three characters.
    assert_eq!(line_type("€ result=1\n"), LineType::Status);
    assert_eq!(line_type("€00 result=1\n"), LineType::Unknown);
    assert_eq!(line_type("öa result=1\n"), LineType::Status);
    assert_eq!(line_type("öö result=1\n"), LineType::Unknown);
}
