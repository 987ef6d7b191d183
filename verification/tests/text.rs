use hypertide::digest::{hash_bytes, hash_text};
use hypertide::text::{
    ascii_lowercase_text, contains_text, i64_to_text, parse_i64, parse_u64, parse_usize, replace_char_text,
    saturating_sub_i64, trim_text, u64_to_text,
};

#[test]
fn blake3_digests_match_the_reference_values() {
    assert_eq!(hash_bytes(b""), "af1349b9f5f9a1a6a0404dea36dcc9499bcb25c9adc112b7cc9a93cae41f3262");
    assert_eq!(hash_text("abc"), "6437b3ac38465133ffb63b75273a8db548c558465d79db03fd359c6cd5bd9d85");
}

#[test]
fn numbers_parse_like_str_parse() {
    assert_eq!(parse_u64("42"), Some(42));
    assert_eq!(parse_u64("+7"), Some(7));
    assert_eq!(parse_u64("-7"), None);
    assert_eq!(parse_u64(""), None);
    assert_eq!(parse_u64("+"), None);
    assert_eq!(parse_u64(" 1"), None);
    assert_eq!(parse_u64("18446744073709551615"), Some(u64::MAX));
    assert_eq!(parse_u64("18446744073709551616"), None);
    assert_eq!(parse_i64("-9223372036854775808"), Some(i64::MIN));
    assert_eq!(parse_i64("9223372036854775807"), Some(i64::MAX));
    assert_eq!(parse_i64("9223372036854775808"), None);
    assert_eq!(parse_i64("-0"), Some(0));
    assert_eq!(parse_i64("-"), None);
    assert_eq!(parse_i64("--1"), None);
    assert_eq!(parse_usize("300"), Some(300));
    for s in ["0", "12", "-5", "+3", "x", "99999999999999999999"] {
        assert_eq!(parse_i64(s), s.parse::<i64>().ok());
        assert_eq!(parse_u64(s), s.parse::<u64>().ok());
    }
}

#[test]
fn printed_numbers_parse_back() {
    for n in [0u64, 9, 10, 12345, u64::MAX] {
        assert_eq!(parse_u64(&u64_to_text(n)), Some(n));
    }
    for n in [i64::MIN, -1, 0, 77, i64::MAX] {
        assert_eq!(parse_i64(&i64_to_text(n)), Some(n));
        assert_eq!(i64_to_text(n), n.to_string());
    }
}

#[test]
fn trimming_matches_str_trim() {
    for s in ["  a b  ", "\t\n x\u{3000}", "", "   ", "\u{85}y\u{a0}", "none"] {
        assert_eq!(trim_text(s), s.trim());
        assert_eq!(trim_text(&trim_text(s)), trim_text(s));
    }
}

#[test]
fn text_helpers() {
    assert_eq!(ascii_lowercase_text("TrUe-É"), "true-É");
    assert!(contains_text("a Lock conflict here", "Lock conflict"));
    assert!(!contains_text("lock", "Lock"));
    assert!(contains_text("x", ""));
    assert_eq!(replace_char_text("a\\b\\c", '\\', '/'), "a/b/c");
    assert_eq!(saturating_sub_i64(i64::MIN, 1), i64::MIN);
    assert_eq!(saturating_sub_i64(i64::MAX, -1), i64::MAX);
    assert_eq!(saturating_sub_i64(10, 30), -20);
}
