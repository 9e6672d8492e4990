use orange_downloader::i18n::{get_messages, Locale};
use orange_downloader::model::{lookup_pair, str_eq};
use orange_downloader::naming::{join_path, name_from_path, sanitize_file_name};
use orange_downloader::text::{
    eq_ignore_case, format_u64, has_prefix, has_prefix_ignore_case, is_blank, join_with_sep,
    last_slash_segment, parse_u16, parse_u64, replace_all, split_char, strip_all, strip_leading,
};

#[test]
fn decimal_parsing_is_exact() {
    assert_eq!(parse_u64("0"), Some(0));
    assert_eq!(parse_u64("007"), Some(7));
    assert_eq!(parse_u64("734003200"), Some(734003200));
    assert_eq!(parse_u64("18446744073709551615"), Some(u64::MAX));
    assert_eq!(parse_u64("18446744073709551616"), None);
    assert_eq!(parse_u64(""), None);
    assert_eq!(parse_u64("12a"), None);
    assert_eq!(parse_u64("-3"), None);
    assert_eq!(parse_u16("65535"), Some(65535));
    assert_eq!(parse_u16("65536"), None);
    assert_eq!(parse_u16("21"), Some(21));
}

#[test]
fn decimal_rendering_round_trips() {
    assert_eq!(format_u64(0), "0");
    assert_eq!(format_u64(7), "7");
    assert_eq!(format_u64(734003200), "734003200");
    assert_eq!(format_u64(u64::MAX), "18446744073709551615");
    assert_eq!(parse_u64(&format_u64(123456789)), Some(123456789));
}

#[test]
fn string_comparisons() {
    assert!(str_eq("abc", "abc"));
    assert!(!str_eq("abc", "abd"));
    assert!(!str_eq("abc", "ab"));
    assert!(has_prefix("magnet:?x", "magnet:"));
    assert!(!has_prefix("magnet", "magnet:"));
    assert!(eq_ignore_case("GitHub.COM", "github.com"));
    assert!(!eq_ignore_case("github.org", "github.com"));
    assert!(has_prefix_ignore_case("ED2K://x", "ed2k://"));
    assert!(is_blank("  \t\n"));
    assert!(!is_blank(" x "));
}

#[test]
fn splitting_keeps_empty_segments() {
    assert_eq!(split_char("a|b||c", '|'), vec!["a", "b", "", "c"]);
    assert_eq!(split_char("", '|'), vec![""]);
    assert_eq!(split_char("|", '|'), vec!["", ""]);
    assert_eq!(join_with_sep(&vec!["a".to_string(), "b".to_string()], "/"), "a/b");
    assert_eq!(join_with_sep(&Vec::new(), "/"), "");
}

#[test]
fn prefix_and_pipe_stripping() {
    assert_eq!(strip_all("ed2k://ed2k://rest", "ed2k://"), "rest");
    assert_eq!(strip_all("none", "ed2k://"), "none");
    assert_eq!(strip_leading("||x|y", '|'), "x|y");
    assert_eq!(strip_leading("x", '|'), "x");
}

#[test]
fn replacement_is_left_to_right_and_non_overlapping() {
    assert_eq!(replace_all("a {url} b {url}", "{url}", "U"), "a U b U");
    assert_eq!(replace_all("aaa", "aa", "b"), "ba");
    assert_eq!(replace_all("x", "{out}", "y"), "x");
}

#[test]
fn path_names_come_from_the_last_segment() {
    assert_eq!(last_slash_segment("/a/b/c.bin"), "c.bin");
    assert_eq!(last_slash_segment("/a/b/"), "");
    assert_eq!(last_slash_segment("plain"), "plain");
    assert_eq!(name_from_path("/a/b/c.bin", "fallback"), "c.bin");
    assert_eq!(name_from_path("/a/b/", "fallback"), "fallback");
    assert_eq!(join_path("/out", "f.bin"), "/out/f.bin");
    assert_eq!(join_path("/out/", "f.bin"), "/out/f.bin");
}

#[test]
fn sanitization_removes_reserved_characters() {
    assert_eq!(sanitize_file_name("a/b\\c:d*e?f\"g<h>i|j"), "abcdefghij");
    assert_eq!(sanitize_file_name("hello\u{0}world\u{1f}!"), "helloworld!");
    assert_eq!(sanitize_file_name(".."), "");
    assert_eq!(sanitize_file_name("name.bin"), "name.bin");
}

#[test]
fn locale_tags_select_the_catalogue() {
    assert_eq!(Locale::from_str("zh"), Locale::Zh);
    assert_eq!(Locale::from_str("ZH-CN"), Locale::Zh);
    assert_eq!(Locale::from_str("zh_TW"), Locale::Zh);
    assert_eq!(Locale::from_str("en"), Locale::En);
    assert_eq!(Locale::from_str(""), Locale::En);
    assert_eq!(Locale::default(), Locale::En);
    assert_eq!(get_messages(Locale::En).job_started, "Job started");
    assert_eq!(get_messages(Locale::Zh).summary_header, "摘要");
}

#[test]
fn pair_lookup_takes_the_first_match() {
    let pairs = vec![
        ("k".to_string(), "v1".to_string()),
        ("k".to_string(), "v2".to_string()),
        ("other".to_string(), "x".to_string()),
    ];
    assert_eq!(lookup_pair(&pairs, "k").unwrap().as_str(), "v1");
    assert_eq!(lookup_pair(&pairs, "other").unwrap().as_str(), "x");
    assert_eq!(lookup_pair(&pairs, "missing"), None);
}
