use brachyura::text::{dec_u16, eq_ignore_case, find_char, is_ipv4_literal_str, str_eq};

#[test]
fn str_eq_decides_exact_equality() {
    assert!(str_eq("test.home", "test.home"));
    assert!(!str_eq("test.home", "Test.home"));
    assert!(!str_eq("test", "test.home"));
    assert!(str_eq("", ""));
}

#[test]
fn eq_ignore_case_folds_ascii_only() {
    assert!(eq_ignore_case("Keep-Alive", "keep-alive"));
    assert!(eq_ignore_case("HOST", "host"));
    assert!(eq_ignore_case("x-no-proxy", "X-No-Proxy"));
    assert!(!eq_ignore_case("host", "hos"));
    assert!(!eq_ignore_case("host", "host "));
}

#[test]
fn find_char_returns_first_occurrence() {
    assert_eq!(find_char("test.home:443", ':'), Some(9));
    assert_eq!(find_char("a:b:c", ':'), Some(1));
    assert_eq!(find_char("no-colon", ':'), None);
}

#[test]
fn ipv4_literals_are_recognized() {
    assert!(is_ipv4_literal_str("127.0.0.1"));
    assert!(is_ipv4_literal_str("255.255.255.255"));
    assert!(is_ipv4_literal_str("0.0.0.0"));
    assert!(!is_ipv4_literal_str("256.0.0.1"));
    assert!(!is_ipv4_literal_str("01.2.3.4"));
    assert!(!is_ipv4_literal_str("1.2.3"));
    assert!(!is_ipv4_literal_str("1.2.3.4.5"));
    assert!(!is_ipv4_literal_str("a.b.c.d"));
    assert!(!is_ipv4_literal_str("test.home"));
    assert!(!is_ipv4_literal_str(""));
    assert!(!is_ipv4_literal_str("1..2.3"));
}

#[test]
fn dec_u16_renders_decimal() {
    assert_eq!(dec_u16(0).as_str(), "0");
    assert_eq!(dec_u16(7).as_str(), "7");
    assert_eq!(dec_u16(200).as_str(), "200");
    assert_eq!(dec_u16(503).as_str(), "503");
    assert_eq!(dec_u16(65535).as_str(), "65535");
}
