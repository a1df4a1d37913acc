use bank_network::text::{
    decimal_text, is_whitespace_char, parse_i32, parse_i64, split_whitespace, utf8_bytes,
};

#[test]
fn decimal_text_matches_display() {
    for n in [0i64, 7, 10, 99, 100, -1, -10, 1234567890, i64::MAX, i64::MIN] {
        assert_eq!(decimal_text(n), n.to_string());
    }
}

#[test]
fn split_whitespace_matches_std() {
    for s in ["", "   ", "a", " a b ", "a\tb\nc", "x\u{3000}y\u{85}z", "12 34  56 ", "\u{a0}q\u{2028}"] {
        let expected: Vec<String> = s.split_whitespace().map(|w| w.to_string()).collect();
        assert_eq!(split_whitespace(s), expected);
    }
}

#[test]
fn whitespace_chars() {
    for c in ['\t', '\n', '\r', ' ', '\u{85}', '\u{a0}', '\u{1680}', '\u{2000}', '\u{200a}', '\u{2028}', '\u{2029}', '\u{202f}', '\u{205f}', '\u{3000}', 'a', '0', '\u{200b}', '-'] {
        assert_eq!(is_whitespace_char(c), c.is_whitespace());
    }
}

#[test]
fn utf8_bytes_of_text() {
    assert_eq!(utf8_bytes("aé"), vec![0x61, 0xc3, 0xa9]);
}

#[test]
fn decimal_text_reads_back() {
    for n in [0i64, -3, 42, i64::MIN, i64::MAX] {
        assert_eq!(decimal_text(n).parse::<i64>().unwrap(), n);
    }
}

#[test]
fn parsers_match_std() {
    for s in [
        "", "-", "+", "0", "-0", "+7", "42", "-42", "007", "1 ", " 1", "1a", "+-1", "--1",
        "2147483647", "2147483648", "-2147483648", "-2147483649",
        "9223372036854775807", "9223372036854775808", "-9223372036854775808",
        "-9223372036854775809", "99999999999999999999999", "١٢", "12\u{663}",
    ] {
        assert_eq!(parse_i64(s), s.parse::<i64>().ok(), "i64 {:?}", s);
        assert_eq!(parse_i32(s), s.parse::<i32>().ok(), "i32 {:?}", s);
    }
}
