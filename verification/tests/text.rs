//! Texts and numbers.

use fileshare::text::{
    count_char, decimal, end_within, has_bytes, pad_left, pad_right, parse_decimal, repeat_char,
    replace_char, same, start_within, starts_with, strip_prefix, text_after_last, text_before,
    text_segment_after, trim, trim_char,
};

#[test]
fn decimal_round_trip() {
    for n in [0u64, 7, 10, 999, 1_000_000, u64::MAX] {
        let text = decimal(n);
        assert_eq!(text, n.to_string());
        assert_eq!(parse_decimal(&text, u64::MAX), Some(n));
    }
}

#[test]
fn parsing_follows_the_standard_library() {
    for s in ["", "+", "-1", "+5", "007", " 1", "1 ", "1a", "65535", "65536", "99999999999999999999"] {
        assert_eq!(parse_decimal(s, u16::MAX as u64), s.parse::<u16>().ok().map(u64::from), "{}", s);
        assert_eq!(parse_decimal(s, u64::MAX), s.parse::<u64>().ok(), "{}", s);
    }
}

#[test]
fn parts_of_texts() {
    assert_eq!(text_before("512-1023", '-'), "512");
    assert_eq!(text_before("512", '-'), "512");
    assert_eq!(text_after_last("bytes 0-9/10", '/'), "10");
    assert_eq!(text_after_last("10", '/'), "10");
    assert_eq!(text_segment_after("a; filename=b; filename=c", "filename="), Some("b; ".to_string()));
    assert_eq!(text_segment_after("inline", "filename="), None);
    assert_eq!(strip_prefix("bytes=5-", "bytes="), Some("5-".to_string()));
    assert_eq!(strip_prefix("items=5-", "bytes="), None);
    assert!(starts_with("dir:ab", "dir:"));
    assert!(!starts_with("di", "dir:"));
    assert!(same("ä", "ä"));
    assert!(!same("a", "b"));
    assert_eq!(count_char("a:b:c", ':'), 2);
}

#[test]
fn trimming_and_replacing() {
    assert_eq!(trim(" \t name\u{a0}\n"), " \t name\u{a0}\n".trim());
    assert_eq!(trim(""), "");
    assert_eq!(trim_char("\"\"quoted\"", '"'), "quoted");
    assert_eq!(replace_char("a\\b\\c", '\\', "/"), "a/b/c");
}

#[test]
fn bytes_and_padding() {
    assert!(has_bytes("é", 2));
    assert!(!has_bytes("é", 3));
    assert!(has_bytes("", 0));
    assert_eq!(start_within("aéb", 2), "a");
    assert_eq!(start_within("aéb", 3), "aé");
    assert_eq!(end_within("aéb", 2), "b");
    assert_eq!(end_within("aéb", 9), "aéb");
    assert_eq!(pad_right("é", 3), format!("{:<3}", "é"));
    assert_eq!(pad_left("12", 4), format!("{:>4}", "12"));
    assert_eq!(pad_left("12345", 4), "12345");
    assert_eq!(repeat_char('█', 3), "███");
}
