use contrib_inbox::text::{
    after_first, chars_for_bytes, contains, decimal_string, hex_string, less_than, lines_of,
    same_text, starts_with, strip_prefix_or_all, to_chars, trim_string, truncate,
};
use contrib_inbox::uri::{encode_uri_component, form};

#[test]
fn truncate_keeps_short_text() {
    assert_eq!(truncate("hello", 5), "hello");
    assert_eq!(truncate("", 0), "");
}

#[test]
fn truncate_cuts_with_ellipsis() {
    assert_eq!(truncate("hello world", 5), "hell…");
    assert_eq!(truncate("héllo wörld", 6), "héllo…");
    assert_eq!(truncate("ab", 0), "…");
    assert_eq!(truncate("ab", 1), "…");
}

#[test]
fn decimal_strings() {
    assert_eq!(decimal_string(0), "0");
    assert_eq!(decimal_string(7), "7");
    assert_eq!(decimal_string(1234567890), "1234567890");
    assert_eq!(decimal_string(u64::MAX), "18446744073709551615");
}

#[test]
fn hex_strings_are_lowercase_pairs() {
    assert_eq!(hex_string(&[]), "");
    assert_eq!(hex_string(&[0x00, 0x0f, 0xa5, 0xff]), "000fa5ff");
}

#[test]
fn trim_removes_unicode_whitespace() {
    assert_eq!(trim_string("  a b \n"), "a b");
    assert_eq!(trim_string("\u{3000}x\u{a0}"), "x");
    assert_eq!(trim_string(" \t\r\n"), "");
    assert_eq!(trim_string("x"), "x");
}

#[test]
fn lines_match_std_lines() {
    for text in ["", "a", "a\n", "a\r\nb", "\n\nx", "a\rb\n", "a\n\n", "x\r"] {
        let expected: Vec<String> = text.lines().map(|l| l.to_string()).collect();
        assert_eq!(lines_of(text), expected, "text {:?}", text);
    }
}

#[test]
fn less_than_orders_like_str() {
    let cases = [
        ("", ""),
        ("", "a"),
        ("a", ""),
        ("2024-01-01T00:00:00Z", "2024-01-02T00:00:00Z"),
        ("abc", "abd"),
        ("ab", "abc"),
        ("é", "z"),
        ("z", "é"),
    ];
    for (a, b) in cases {
        assert_eq!(less_than(a, b), a < b, "{:?} < {:?}", a, b);
    }
}

#[test]
fn prefix_and_split_helpers() {
    assert!(starts_with("https://api.github.com/repos/a/b", "https://api.github.com/repos/"));
    assert!(!starts_with("http", "https"));
    assert_eq!(strip_prefix_or_all("pre-fix", "pre-"), "fix");
    assert_eq!(strip_prefix_or_all("fix", "pre-"), "fix");
    assert_eq!(after_first("owner/repo/x", '/'), Some("repo/x".to_string()));
    assert_eq!(after_first("norepo", '/'), None);
    assert!(contains("GitHub token (classic)", "token"));
    assert!(!contains("comment on a/b#1", "token"));
    assert!(contains("abc", ""));
    assert!(same_text("open", "open"));
    assert!(!same_text("open", "opened"));
}

#[test]
fn byte_boundaries_follow_utf8() {
    let v = to_chars("aé€😀");
    assert_eq!(chars_for_bytes(&v, 0), Some(0));
    assert_eq!(chars_for_bytes(&v, 1), Some(1));
    assert_eq!(chars_for_bytes(&v, 2), None);
    assert_eq!(chars_for_bytes(&v, 3), Some(2));
    assert_eq!(chars_for_bytes(&v, 6), Some(3));
    assert_eq!(chars_for_bytes(&v, 10), Some(4));
    assert_eq!(chars_for_bytes(&v, 11), None);
    for n in 0..12 {
        let text = "aé€😀";
        assert_eq!(chars_for_bytes(&v, n).is_some(), text.is_char_boundary(n) && n <= text.len());
    }
}

#[test]
fn uri_components_encode_like_encode_uri_component() {
    assert_eq!(
        encode_uri_component("author:me archived:false sort:updated-desc"),
        "author%3Ame%20archived%3Afalse%20sort%3Aupdated-desc"
    );
    assert_eq!(encode_uri_component("-_.!~*'()AZaz09"), "-_.!~*'()AZaz09");
    assert_eq!(encode_uri_component("é/&=?#+"), "%C3%A9%2F%26%3D%3F%23%2B");
    assert_eq!(encode_uri_component("😀"), "%F0%9F%98%80");
}

#[test]
fn form_joins_encoded_pairs() {
    let params = vec![
        ("client_id".to_string(), "abc 1".to_string()),
        ("scope".to_string(), "repo".to_string()),
    ];
    assert_eq!(form(&params), "client_id=abc%201&scope=repo");
    assert_eq!(form(&Vec::new()), "");
}
