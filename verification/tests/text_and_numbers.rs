use see::number::{parse_u64, parse_usize};
use see::text::{
    chars_of, contains_chars, find_from, sanitize_range, split_lines, str_contains,
    string_from_chars, string_from_range, strip_all_str,
};

#[test]
fn chars_round_trip() {
    let cs = chars_of("a📅b");
    assert_eq!(cs, vec!['a', '📅', 'b']);
    assert_eq!(string_from_chars(&cs), "a📅b");
    assert_eq!(string_from_range(&cs, 1, 3), "📅b");
    assert_eq!(string_from_range(&cs, 2, 2), "");
}

#[test]
fn find_from_first_occurrence() {
    let hay = chars_of("msg=a msg=b");
    let needle = chars_of("msg=");
    assert_eq!(find_from(&hay, &needle, 0), Some(0));
    assert_eq!(find_from(&hay, &needle, 1), Some(6));
    assert_eq!(find_from(&hay, &needle, 7), None);
    let empty: Vec<char> = vec![];
    assert_eq!(find_from(&hay, &empty, 3), Some(3));
    assert_eq!(find_from(&hay, &empty, 11), Some(11));
    assert_eq!(find_from(&hay, &empty, 12), None);
}

#[test]
fn contains_on_chars_and_str() {
    assert!(contains_chars(&chars_of("daemon started"), &chars_of("mon st")));
    assert!(!contains_chars(&chars_of("daemon"), &chars_of("demon")));
    assert!(str_contains("has not started", "not"));
    assert!(str_contains("anything", ""));
    assert!(!str_contains("", "x"));
}

#[test]
fn sanitize_tabs_and_returns() {
    let cs = chars_of("a\tb\r\nc");
    assert_eq!(sanitize_range(&cs, 0, cs.len()), "a    b\nc");
    assert_eq!(sanitize_range(&cs, 1, 3), "    b");
}

#[test]
fn strip_service_suffix() {
    assert_eq!(strip_all_str("sshd.service", ".service"), "sshd");
    assert_eq!(strip_all_str("a.service.service", ".service"), "a");
    assert_eq!(strip_all_str("cron", ".service"), "cron");
    assert_eq!(strip_all_str("aaa", "aa"), "a");
    assert_eq!(strip_all_str("abc", ""), "abc");
}

#[test]
fn split_lines_like_str_lines() {
    assert_eq!(split_lines("a.service\nb.service\n"), vec!["a.service", "b.service"]);
    assert_eq!(split_lines("x\r\ny"), vec!["x", "y"]);
    assert_eq!(split_lines("\n\nz"), vec!["", "", "z"]);
    let none: Vec<String> = vec![];
    assert_eq!(split_lines(""), none);
}

#[test]
fn parse_u64_like_str_parse() {
    assert_eq!(parse_u64("1700000000000000"), Some(1700000000000000));
    assert_eq!(parse_u64("+5"), Some(5));
    assert_eq!(parse_u64("007"), Some(7));
    assert_eq!(parse_u64("18446744073709551615"), Some(u64::MAX));
    assert_eq!(parse_u64("18446744073709551616"), None);
    assert_eq!(parse_u64(""), None);
    assert_eq!(parse_u64("+"), None);
    assert_eq!(parse_u64("-1"), None);
    assert_eq!(parse_u64("12a"), None);
    assert_eq!(parse_u64(" 1"), None);
}

#[test]
fn parse_usize_like_str_parse() {
    assert_eq!(parse_usize("42"), Some(42));
    assert_eq!(parse_usize("0"), Some(0));
    assert_eq!(parse_usize("4x"), None);
    assert_eq!(parse_usize(""), None);
}
