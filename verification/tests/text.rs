use codex_manager::paths::{join, Platform};
use codex_manager::text::{
    concat_str, first_token_chars, parse_u32_chars, push_decimal, str_chars, str_eq,
    str_is_blank,
};

fn chars(s: &str) -> Vec<char> {
    s.chars().collect()
}

#[test]
fn parse_u32_like_std() {
    for s in ["0", "42", "+7", "4294967295", "007"] {
        assert_eq!(parse_u32_chars(&chars(s)), s.parse::<u32>().ok(), "{}", s);
    }
    for s in ["", "+", "-1", "4294967296", "1a", " 1", "++1"] {
        assert_eq!(parse_u32_chars(&chars(s)), None, "{}", s);
        assert!(s.parse::<u32>().is_err());
    }
}

#[test]
fn decimal_round_trip() {
    for n in [0u32, 9, 10, 99, 100, 4242, u32::MAX] {
        let mut s = String::from("x");
        push_decimal(&mut s, n);
        assert_eq!(s, format!("x{}", n));
        assert_eq!(parse_u32_chars(&chars(&s[1..])), Some(n));
    }
}

#[test]
fn whitespace_and_tokens() {
    assert!(str_is_blank(""));
    assert!(str_is_blank(" \t\r\n\u{a0}\u{2003}"));
    assert!(!str_is_blank(" a "));
    assert_eq!(first_token_chars(&chars("  12 ab")), Some(chars("12")));
    assert_eq!(first_token_chars(&chars("\u{3000}x")), Some(chars("x")));
    assert_eq!(first_token_chars(&chars(" \t ")), None);
}

#[test]
fn join_paths() {
    assert_eq!(join(Platform::Linux, "/home/a", "b"), "/home/a/b");
    assert_eq!(join(Platform::Linux, "/", ".codex_manager"), "/.codex_manager");
    assert_eq!(join(Platform::Linux, "", "b"), "b");
    assert_eq!(join(Platform::Windows, "C:\\Users\\a", "b"), "C:\\Users\\a\\b");
    assert_eq!(join(Platform::Windows, "C:\\", "b"), "C:\\b");
    assert_eq!(join(Platform::Windows, "C:/x/", "b"), "C:/x/b");
    assert_eq!(join(Platform::MacOs, "a\\", "b"), "a\\/b");
}

#[test]
fn small_helpers() {
    assert_eq!(str_chars("héllo"), chars("héllo"));
    assert!(str_eq("abc", "abc"));
    assert!(!str_eq("abc", "abd"));
    assert!(!str_eq("abc", "ab"));
    assert_eq!(concat_str("ab", "cd"), "abcd");
}
