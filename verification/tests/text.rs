use aurek::text::{chars_of, contains_str, split_lines, strip_end, strip_start, trim_str, CharClass};

#[test]
fn trims_unicode_white_space() {
    assert_eq!(trim_str("\u{3000} a b \t\r\n"), "a b");
    assert_eq!(trim_str("   "), "");
}

#[test]
fn strips_classes() {
    assert_eq!(strip_end("v;;", CharClass::Semicolon), "v");
    assert_eq!(strip_start("-*\u{2022}- x", CharClass::Bullet), " x");
}

#[test]
fn finds_substrings() {
    assert!(contains_str("curl x | sh", "| sh"));
    assert!(!contains_str("curl x |sh", "| sh"));
    assert!(contains_str("abc", ""));
}

#[test]
fn splits_at_newlines() {
    assert_eq!(split_lines("a\n\nb\n"), vec!["a", "", "b", ""]);
    assert_eq!(split_lines(""), vec![""]);
}

#[test]
fn chars_in_order() {
    assert_eq!(chars_of("h\u{e9}!"), vec!['h', '\u{e9}', '!']);
}
