use slp_chat::digits::{hex_byte_digit, parse_hex_pair, parse_u8, parse_unsigned, push_decimal, push_hex_byte, push_padded2};
use slp_chat::text::{append_str, chars_of, is_whitespace, str_eq, string_from_chars, to_owned_string, trim};

#[test]
fn trim_removes_unicode_whitespace() {
    assert_eq!(trim("  hello \n"), "hello");
    assert_eq!(trim("\u{3000}a b\u{2009}\t"), "a b");
    assert_eq!(trim("   "), "");
    assert_eq!(trim(""), "");
    assert_eq!(trim("x"), "x");
}

#[test]
fn trim_agrees_with_std() {
    for s in ["\u{85}x\u{A0}", " \u{1680}mid dle\u{205F} ", "\u{200B}zero width", "a\u{2028}"] {
        assert_eq!(trim(s), s.trim());
    }
}

#[test]
fn whitespace_class() {
    assert!(is_whitespace(' '));
    assert!(is_whitespace('\u{3000}'));
    assert!(!is_whitespace('a'));
    assert!(!is_whitespace('\u{200B}'));
}

#[test]
fn char_helpers() {
    let v = chars_of("héllo");
    assert_eq!(v, vec!['h', 'é', 'l', 'l', 'o']);
    assert_eq!(string_from_chars(&v, 1, 3), "él");
    assert!(str_eq("abc", "abc"));
    assert!(!str_eq("abc", "abd"));
    assert!(!str_eq("ab", "abc"));
    let mut s = to_owned_string("ab");
    append_str(&mut s, "cd");
    assert_eq!(s, "abcd");
}

#[test]
fn unsigned_parsing_follows_from_str() {
    assert_eq!(parse_u8("255"), Some(255));
    assert_eq!(parse_u8("256"), None);
    assert_eq!(parse_u8("007"), Some(7));
    assert_eq!(parse_u8("+5"), Some(5));
    assert_eq!(parse_u8("+"), None);
    assert_eq!(parse_u8(""), None);
    assert_eq!(parse_u8("-1"), None);
    assert_eq!(parse_u8(" 1"), None);
    assert_eq!(parse_unsigned("4294967295", u32::MAX), Some(u32::MAX));
    assert_eq!(parse_unsigned("4294967296", u32::MAX), None);
    assert_eq!(parse_unsigned("12", 11), None);
    for s in ["0", "42", "+42", "1a", "99999999999"] {
        assert_eq!(parse_unsigned(s, u32::MAX), s.parse::<u32>().ok());
    }
}

#[test]
fn decimal_and_hex_output() {
    let mut s = String::new();
    push_decimal(&mut s, 0);
    s.push(' ');
    push_decimal(&mut s, 4096);
    assert_eq!(s, "0 4096");
    let mut t = String::new();
    push_padded2(&mut t, 7);
    push_padded2(&mut t, 42);
    push_padded2(&mut t, 123);
    push_padded2(&mut t, 0);
    assert_eq!(t, "074212300");
    let mut h = String::new();
    push_hex_byte(&mut h, 0xAB);
    push_hex_byte(&mut h, 0x05);
    assert_eq!(h, "AB05");
}

#[test]
fn hex_pairs_follow_from_str_radix() {
    assert_eq!(hex_byte_digit(b'f'), Some(15));
    assert_eq!(hex_byte_digit(b'G'), None);
    assert_eq!(parse_hex_pair(b'F', b'f'), Some(255));
    assert_eq!(parse_hex_pair(b'+', b'a'), Some(10));
    assert_eq!(parse_hex_pair(b'a', b'+'), None);
    assert_eq!(parse_hex_pair(b'-', b'1'), None);
    for pair in ["00", "7f", "+9", "x1", "++"] {
        let b = pair.as_bytes();
        assert_eq!(parse_hex_pair(b[0], b[1]), u8::from_str_radix(pair, 16).ok());
    }
}

#[test]
fn trim_is_idempotent() {
    for s in ["  a b  ", "\t\n", "x", "\u{3000} mid \u{3000}", ""] {
        assert_eq!(trim(&trim(s)), trim(s));
    }
}
