use bpp_onest_lite::text::{concat2, concat3, has_prefix, join_url, trim_end_slash,
    trim_start_slash, u64_to_dec};
use bpp_onest_lite::json::str_eq;
use bpp_onest_lite::hashing::to_hex;

#[test]
fn decimal_rendering_digits() {
    assert_eq!(u64_to_dec(0), "0");
    assert_eq!(u64_to_dec(7), "7");
    assert_eq!(u64_to_dec(10), "10");
    assert_eq!(u64_to_dec(120), "120");
    assert_eq!(u64_to_dec(18446744073709551615), "18446744073709551615");
}

#[test]
fn url_joining_single_slash() {
    assert_eq!(join_url("http://a", "search"), "http://a/search");
    assert_eq!(join_url("http://a/", "search"), "http://a/search");
    assert_eq!(join_url("http://a", "/search"), "http://a/search");
    assert_eq!(join_url("http://a///", "///search"), "http://a/search");
    assert_eq!(join_url("", ""), "/");
}

#[test]
fn slash_trimming() {
    assert_eq!(trim_end_slash("http://a//"), "http://a");
    assert_eq!(trim_end_slash("http://a"), "http://a");
    assert_eq!(trim_end_slash("///"), "");
    assert_eq!(trim_start_slash("//x"), "x");
    assert_eq!(trim_start_slash("x/"), "x/");
}

#[test]
fn prefix_detection() {
    assert!(has_prefix("on_search", "on_"));
    assert!(has_prefix("on_", "on_"));
    assert!(!has_prefix("on", "on_"));
    assert!(!has_prefix("search", "on_"));
    assert!(has_prefix("anything", ""));
}

#[test]
fn string_equality() {
    assert!(str_eq("abc", "abc"));
    assert!(!str_eq("abc", "abd"));
    assert!(!str_eq("abc", "ab"));
    assert!(str_eq("", ""));
}

#[test]
fn concatenation() {
    assert_eq!(concat2("on_", "search"), "on_search");
    assert_eq!(concat3("a", "b", "c"), "abc");
}

#[test]
fn hex_rendering() {
    assert_eq!(to_hex(&vec![]), "");
    assert_eq!(to_hex(&vec![0x00, 0xff, 0x1a]), "00ff1a");
}
