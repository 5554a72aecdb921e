use hzii_net::text::{decimal_string, safe_excerpt, starts_with, trim_end_matches_char};

#[test]
fn excerpts() {
    assert_eq!(safe_excerpt("  hello\u{0}world \u{3000}"), "hello world");
    assert_eq!(safe_excerpt(" \t\n"), "服务器未返回错误详情");
    assert_eq!(safe_excerpt(&"a".repeat(250)).len(), 200);
}

#[test]
fn decimals() {
    assert_eq!(decimal_string(0), "0");
    assert_eq!(decimal_string(451), "451");
    assert_eq!(decimal_string(u64::MAX), u64::MAX.to_string());
}

#[test]
fn prefixes_and_trailing_slashes() {
    assert!(starts_with("http://x", "http://"));
    assert!(!starts_with("http:/", "http://"));
    assert!(!starts_with("https://", "http://"));
    assert_eq!(trim_end_matches_char("a//", '/'), "a");
    assert_eq!(trim_end_matches_char("//", '/'), "");
}
