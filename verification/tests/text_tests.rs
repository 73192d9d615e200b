use epicode_kb::error::AppError;
use epicode_kb::parse::pdf::PdfParser;
use epicode_kb::parse::text::decode_document;
use epicode_kb::text::{
    byte_len, distinct_words, is_blank, parse_usize, split_whitespace,
    to_decimal, trim,
};

#[test]
fn trim_drops_outer_whitespace() {
    assert_eq!(trim("  hello world \n"), "hello world");
    assert_eq!(trim(" \t\n "), "");
    assert_eq!(trim("x"), "x");
}

#[test]
fn blank_strings() {
    assert!(is_blank(""));
    assert!(is_blank(" \n\t"));
    assert!(!is_blank(" a "));
}

#[test]
fn words_are_split_on_whitespace() {
    assert_eq!(split_whitespace("  the quick\tbrown \n fox "), vec!["the", "quick", "brown", "fox"]);
    assert!(split_whitespace("   ").is_empty());
}

#[test]
fn distinct_words_keep_first_occurrence() {
    assert_eq!(distinct_words("b a b c a"), vec!["b", "a", "c"]);
}

#[test]
fn byte_len_counts_utf8_bytes() {
    assert_eq!(byte_len("abc"), 3);
    assert_eq!(byte_len("é"), 2);
    assert_eq!(byte_len("知识"), 6);
}

#[test]
fn decimal_numerals() {
    assert_eq!(to_decimal(0), "0");
    assert_eq!(to_decimal(42), "42");
    assert_eq!(to_decimal(18446744073709551615), "18446744073709551615");
}

#[test]
fn parse_usize_like_std() {
    assert_eq!(parse_usize("384"), Some(384));
    assert_eq!(parse_usize("+7"), Some(7));
    assert_eq!(parse_usize("007"), Some(7));
    assert_eq!(parse_usize(""), None);
    assert_eq!(parse_usize("+"), None);
    assert_eq!(parse_usize("12a"), None);
    assert_eq!(parse_usize(" 12"), None);
    assert_eq!(parse_usize("-1"), None);
    assert_eq!(parse_usize("99999999999999999999999"), None);
    for s in ["0", "1", "42", "+8", "1000000", "x", "1 2"] {
        assert_eq!(parse_usize(s), s.parse::<usize>().ok());
    }
}

#[test]
fn parse_reads_back_decimal() {
    for n in [0u64, 9, 10, 12345, 4294967296] {
        assert_eq!(parse_usize(&to_decimal(n)), Some(n as usize));
    }
}

#[test]
fn utf8_decoding() {
    assert_eq!(decode_document(b"hi").unwrap(), "hi");
    match decode_document(&[0x68, 0xff]) {
        Err(AppError::BadRequest(m)) => assert!(m.contains("invalid utf-8")),
        _ => panic!("expected a bad request"),
    }
    assert_eq!(PdfParser::extract_ascii_text(b"BT\n(ok)\nET"), "ok \n");
    assert_eq!(PdfParser::extract_ascii_text(b"BT\n(a\xffb)\nET"), "a\u{FFFD}b \n");
}

#[test]
fn trim_drops_unicode_whitespace() {
    assert_eq!(trim("\u{3000}x y\u{00A0}\u{2029}"), "x y");
    assert_eq!(trim("\u{200B}x"), "\u{200B}x");
}
