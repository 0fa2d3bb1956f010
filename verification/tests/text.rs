use position_manager::bytes::{find, find_any_of_three, find_byte, parse_i64, parse_u64, text_of};
use position_manager::text::{characters, contains, format_duration, format_uptime, push_number, push_signed, push_two_digits};
use position_manager::config::key_text;
use position_manager::words::{read_number, split, starts_with, trim, words};

#[test]
fn durations_are_padded() {
    assert_eq!(format_duration(3723), "01:02:03");
    assert_eq!(format_duration(0), "00:00:00");
    assert_eq!(format_duration(360_000), "100:00:00");
}

#[test]
fn uptimes_begin_with_the_largest_unit() {
    assert_eq!(format_uptime(3723), "1h2m3s");
    assert_eq!(format_uptime(3600), "1h0m0s");
    assert_eq!(format_uptime(61), "1m1s");
    assert_eq!(format_uptime(59), "59s");
    assert_eq!(format_uptime(0), "0s");
}

#[test]
fn numbers_are_written_in_decimal() {
    let mut out = String::from("n=");
    push_number(&mut out, u64::MAX);
    assert_eq!(out, "n=18446744073709551615");
    let mut out = String::new();
    push_two_digits(&mut out, 7);
    push_two_digits(&mut out, 123);
    assert_eq!(out, "07123");
    let mut out = String::new();
    push_signed(&mut out, i64::MIN);
    assert_eq!(out, "-9223372036854775808");
}

#[test]
fn different_numbers_are_written_differently() {
    let mut seen: Vec<String> = Vec::new();
    for n in 0..1200 {
        let mut out = String::new();
        push_number(&mut out, n);
        assert!(!seen.contains(&out));
        seen.push(out);
    }
}

#[test]
fn substrings_are_found() {
    assert!(contains("market up", "up"));
    assert!(contains("up", "up"));
    assert!(contains("anything", ""));
    assert!(!contains("u", "up"));
    assert!(!contains("uq up".get(0..2).unwrap(), "up"));
    assert!(contains("größe", "öß"));
}

#[test]
fn characters_come_one_by_one() {
    assert_eq!(characters("aß1"), vec!['a', 'ß', '1']);
}

#[test]
fn bytes_are_found() {
    assert_eq!(find(b"abcabc", b"ca"), Some(2));
    assert_eq!(find(b"abcabc", b"abc"), Some(0));
    assert_eq!(find(b"abc", b"x"), None);
    assert_eq!(find(b"abc", b""), Some(0));
    assert_eq!(find_byte(b"abcabc", b'c'), Some(2));
    assert_eq!(find_byte(b"abc", b'x'), None);
    assert_eq!(find_any_of_three(b"12]3,", b',', b'}', b']'), Some(2));
    assert_eq!(find_any_of_three(b"123", b',', b'}', b']'), None);
}

#[test]
fn only_utf8_is_text() {
    assert_eq!(text_of("gr\u{fc}n".as_bytes()), Some("gr\u{fc}n"));
    assert_eq!(text_of(&[0xff, 0x61]), None);
}

#[test]
fn integers_are_read() {
    assert_eq!(parse_u64(b"1700000000123"), Some(1700000000123));
    assert_eq!(parse_u64(b"+5"), Some(5));
    assert_eq!(parse_u64(b"18446744073709551615"), Some(u64::MAX));
    assert_eq!(parse_u64(b"18446744073709551616"), None);
    assert_eq!(parse_u64(b""), None);
    assert_eq!(parse_u64(b"+"), None);
    assert_eq!(parse_u64(b"-1"), None);
    assert_eq!(parse_u64(b"1x"), None);
    assert_eq!(parse_i64(b"-9223372036854775808"), Some(i64::MIN));
    assert_eq!(parse_i64(b"-9223372036854775809"), None);
    assert_eq!(parse_i64(b"9223372036854775808"), None);
    assert_eq!(parse_i64(b"-12"), Some(-12));
    assert_eq!(parse_i64(b"--1"), None);
    assert_eq!(read_number("42"), Some(42));
    assert_eq!(read_number(" 42"), None);
}

#[test]
fn pieces_hold_no_separator() {
    assert_eq!(split("a,b,,c", ','), vec!["a", "b", "", "c"]);
    assert_eq!(split("", ','), vec![""]);
    assert_eq!(split(",", ','), vec!["", ""]);
    assert_eq!(split("ab", ','), vec!["ab"]);
    for piece in split("x;y;z;", ';') {
        assert!(!piece.contains(';'));
    }
}

#[test]
fn words_have_no_white_space() {
    assert_eq!(words("  one\ttwo \u{a0}three\n"), vec!["one", "two", "three"]);
    assert!(words(" \t\n").is_empty());
    let line = "4 1 \u{2003}9\u{3000}x";
    let expected: Vec<&str> = line.split_whitespace().collect();
    assert_eq!(words(line), expected);
}

#[test]
fn beginnings_are_recognised() {
    assert!(starts_with("# note", "#"));
    assert!(starts_with("abc", ""));
    assert!(!starts_with("a", "ab"));
    assert!(!starts_with(" #", "#"));
}

#[test]
fn keys_are_read_without_their_wrapping() {
    assert_eq!(key_text("  0xabc1\n"), "abc1");
    assert_eq!(key_text("abc1"), "abc1");
    assert_eq!(key_text("0x0xabc1"), "0xabc1");
    assert_eq!(key_text(" \t"), "");
    assert_eq!(key_text("0 x"), "0 x");
    assert_eq!(trim("\u{3000}a b\u{a0}"), "a b");
}
