use ip_pool::glob::glob_match;
use ip_pool::text::{chars_of, contains, parse_decimal, replace_all, split, trim, u8_to_decimal};

fn chars(s: &str) -> Vec<char> {
    s.chars().collect()
}

#[test]
fn glob_without_star_is_equality() {
    assert!(glob_match("ip_live::http::1", "ip_live::http::1"));
    assert!(!glob_match("ip_live::http::1", "ip_live::http::2"));
    assert!(!glob_match("abc", "abcd"));
    assert!(glob_match("", ""));
    assert!(!glob_match("", "a"));
}

#[test]
fn glob_star_matches_any_text() {
    assert!(glob_match("*", ""));
    assert!(glob_match("*", "anything"));
    assert!(glob_match("ip_live::*", "ip_live::socks5::3"));
    assert!(!glob_match("ip_live::*", "ip_cache::socks5::3"));
    assert!(glob_match("ip_live::http::*", "ip_live::http::1"));
    assert!(!glob_match("ip_live::http::*", "ip_live::https::1"));
    assert!(glob_match("*::1", "ip_live::http::1"));
    assert!(!glob_match("*::1", "ip_live::http::2"));
}

#[test]
fn glob_several_stars_backtrack_free() {
    assert!(glob_match("a*b*c", "abc"));
    assert!(glob_match("a*b*c", "axxbyyc"));
    assert!(glob_match("a*b*c", "abbbc"));
    assert!(!glob_match("a*b*c", "acb"));
    assert!(glob_match("*a*a*", "aa"));
    assert!(!glob_match("*a*a*", "a"));
    assert!(glob_match("a**b", "ab"));
    // the last part must end the text, and cannot reuse what the middle took
    assert!(!glob_match("*ab*b", "ab"));
    assert!(glob_match("*ab*b", "abb"));
}

#[test]
fn trim_strips_unicode_whitespace() {
    assert_eq!(trim("  1.2.3.4\t\n"), "1.2.3.4");
    assert_eq!(trim("\u{3000}高匿\u{a0}"), "高匿");
    assert_eq!(trim("   "), "");
    assert_eq!(trim("a b"), "a b");
}

#[test]
fn replace_all_is_left_to_right_and_non_overlapping() {
    assert_eq!(replace_all("aaa", "aa", "b"), "ba");
    assert_eq!(replace_all("http://x/{page}/{page}", "{page}", "7"), "http://x/7/7");
    assert_eq!(replace_all("abc", "", "-"), "-a-b-c-");
    assert_eq!(replace_all("", "", "-"), "-");
    assert_eq!(replace_all("abc", "z", "-"), "abc");
    assert_eq!(replace_all("a\u{a0}b", "\u{a0}", " "), "a b");
}

#[test]
fn split_keeps_empty_fields() {
    let parts = split(&chars("a::b::::c"), &chars("::"));
    let texts: Vec<String> = parts.iter().map(|p| p.iter().collect()).collect();
    assert_eq!(texts, vec!["a", "b", "", "c"]);
    let parts = split(&chars(""), &chars("."));
    assert_eq!(parts.len(), 1);
    assert!(parts[0].is_empty());
    let parts = split(&chars(":::"), &chars("::"));
    let texts: Vec<String> = parts.iter().map(|p| p.iter().collect()).collect();
    assert_eq!(texts, vec!["", ":"]);
}

#[test]
fn parse_decimal_follows_from_str() {
    assert_eq!(parse_decimal(&chars("255"), 255), Some(255));
    assert_eq!(parse_decimal(&chars("256"), 255), None);
    assert_eq!(parse_decimal(&chars("+7"), 255), Some(7));
    assert_eq!(parse_decimal(&chars("007"), 255), Some(7));
    assert_eq!(parse_decimal(&chars("+"), 255), None);
    assert_eq!(parse_decimal(&chars(""), 255), None);
    assert_eq!(parse_decimal(&chars("-1"), 255), None);
    assert_eq!(parse_decimal(&chars("1 "), 255), None);
    assert_eq!(parse_decimal(&chars("99999999999"), 65535), None);
    assert_eq!(parse_decimal(&chars("65535"), 65535), Some(65535));
    for s in ["0", "12", "+200", "256", "", "+", "x1", "0255", "1000"] {
        assert_eq!(parse_decimal(&chars(s), 255), s.parse::<u8>().ok().map(u32::from));
    }
}

#[test]
fn contains_and_decimal() {
    assert!(contains(&chars_of("proxy socks 5 fast"), &chars_of("socks 5")));
    assert!(!contains(&chars_of("sock5"), &chars_of("socks5")));
    assert!(contains(&chars_of("abc"), &chars_of("")));
    assert_eq!(u8_to_decimal(0), "0");
    assert_eq!(u8_to_decimal(9), "9");
    assert_eq!(u8_to_decimal(10), "10");
    assert_eq!(u8_to_decimal(255), "255");
    for n in 0..=255u8 {
        assert_eq!(u8_to_decimal(n), n.to_string());
    }
}
