use magic_wormhole::engine::boss::read_versions;
use magic_wormhole::io::blocking::RelayUrl;
use magic_wormhole::json::Json;
use magic_wormhole::text::{
    chars_of, decimal_text, find_char, join3, parse_decimal, push_chars, push_decimal, same_chars,
    same_text, slice_chars, starts_with,
};

fn chars(s: &str) -> Vec<char> {
    s.chars().collect()
}

#[test]
fn text_and_characters_convert_both_ways() {
    assert_eq!(chars_of("h\u{e9}llo"), chars("h\u{e9}llo"));
    assert_eq!(chars_of(""), Vec::<char>::new());
    // The host is cut out of the characters of the text and made a text
    // again.
    assert_eq!(RelayUrl::parse("tcp:h\u{e9}\u{4e2d}\u{1f600}:1").unwrap().host, "h\u{e9}\u{4e2d}\u{1f600}");
    assert_eq!(RelayUrl::parse("tcp::1").unwrap().host, "");
}

#[test]
fn texts_compare_by_their_characters() {
    assert!(same_text("", ""));
    assert!(same_text("abc", "abc"));
    assert!(!same_text("abc", "abd"));
    assert!(!same_text("abc", "ab"));
    assert!(same_chars(&chars("xy"), &chars("xy")));
    assert!(!same_chars(&chars("xy"), &chars("yx")));
}

#[test]
fn prefixes_and_searches() {
    assert!(starts_with(&chars("crossover"), &chars("cro")));
    assert!(starts_with(&chars("crossover"), &chars("")));
    assert!(starts_with(&chars("cro"), &chars("cro")));
    assert!(!starts_with(&chars("cr"), &chars("cro")));
    assert!(!starts_with(&chars("crossover"), &chars("crs")));
    assert_eq!(find_char(&chars("a-b-c"), '-', 0), Some(1));
    assert_eq!(find_char(&chars("a-b-c"), '-', 1), Some(1));
    assert_eq!(find_char(&chars("a-b-c"), '-', 2), Some(3));
    assert_eq!(find_char(&chars("a-b-c"), '-', 4), None);
    assert_eq!(find_char(&chars("a-b-c"), '-', 40), None);
    assert_eq!(find_char(&chars(""), '-', 0), None);
}

#[test]
fn slices_and_joins() {
    assert_eq!(slice_chars(&chars("abcdef"), 1, 4), chars("bcd"));
    assert_eq!(slice_chars(&chars("abcdef"), 6, 6), chars(""));
    let mut out = chars("ab");
    push_chars(&mut out, &chars("cd"));
    assert_eq!(out, chars("abcd"));
    assert_eq!(join3("4", "-", "purple"), "4-purple");
    assert_eq!(join3("", "", ""), "");
}

#[test]
fn numbers_are_written_in_decimal() {
    assert_eq!(decimal_text(0), "0");
    assert_eq!(decimal_text(7), "7");
    assert_eq!(decimal_text(10), "10");
    assert_eq!(decimal_text(4096), "4096");
    assert_eq!(decimal_text(u64::MAX), "18446744073709551615");
    let mut out = chars("n=");
    push_decimal(&mut out, 305);
    assert_eq!(out, chars("n=305"));
    for n in [0u64, 1, 9, 10, 99, 100, 12345, 1 << 40, u64::MAX - 1] {
        assert_eq!(decimal_text(n), n.to_string());
    }
}

#[test]
fn decimal_numbers_are_read_up_to_a_limit() {
    assert_eq!(parse_decimal(&chars("0"), 10), Some(0));
    assert_eq!(parse_decimal(&chars("0042"), 100), Some(42));
    assert_eq!(parse_decimal(&chars("65535"), 65535), Some(65535));
    assert_eq!(parse_decimal(&chars("65536"), 65535), None);
    assert_eq!(parse_decimal(&chars("18446744073709551615"), u64::MAX), Some(u64::MAX));
    assert_eq!(parse_decimal(&chars("18446744073709551616"), u64::MAX), None);
    assert_eq!(parse_decimal(&chars("99999999999999999999999"), u64::MAX), None);
    assert_eq!(parse_decimal(&chars(""), 10), None);
    assert_eq!(parse_decimal(&chars("-1"), 10), None);
    assert_eq!(parse_decimal(&chars("+1"), 10), None);
    assert_eq!(parse_decimal(&chars("1 "), 10), None);
    assert_eq!(parse_decimal(&chars("1e2"), 1000), None);
    assert_eq!(parse_decimal(&chars("\u{661}"), 10), None);
    assert_eq!(parse_decimal(&chars("11"), 10), None);
}

#[test]
fn bytes_are_read_as_utf8() {
    let versions = |text: &str| format!(r#"{{"app_versions":"{}"}}"#, text).into_bytes();
    assert_eq!(read_versions(&versions("plain")), Some(Json::text("plain")));
    assert_eq!(
        read_versions(&versions("h\u{e9}\u{4e2d}\u{1f600}")),
        Some(Json::text("h\u{e9}\u{4e2d}\u{1f600}"))
    );
    for bad in [&[0xffu8][..], &[0xc3], &[0xed, 0xa0, 0x80], &[0xc0, 0x80]] {
        let mut bytes = br#"{"app_versions":""#.to_vec();
        bytes.extend_from_slice(bad);
        bytes.extend_from_slice(br#""}"#);
        assert_eq!(read_versions(&bytes), None);
    }
}
