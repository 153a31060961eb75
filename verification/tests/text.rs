use ctxbroker::text::{push_decimal, push_signed_decimal, text_equal, text_less};

fn decimal(n: u128) -> String {
    let mut s = String::new();
    push_decimal(&mut s, n);
    s
}

fn signed(n: i64) -> String {
    let mut s = String::from("x");
    push_signed_decimal(&mut s, n);
    s
}

#[test]
fn decimal_rendering() {
    assert_eq!(decimal(0), "0");
    assert_eq!(decimal(7), "7");
    assert_eq!(decimal(10), "10");
    assert_eq!(decimal(1_700_000_000_123_456_789), "1700000000123456789");
    assert_eq!(decimal(u128::MAX), u128::MAX.to_string());
}

#[test]
fn signed_decimal_rendering() {
    assert_eq!(signed(0), "x0");
    assert_eq!(signed(-42), "x-42");
    assert_eq!(signed(i64::MAX), format!("x{}", i64::MAX));
    assert_eq!(signed(i64::MIN), "x-9223372036854775808");
}

#[test]
fn decimal_appends_after_existing_text() {
    let mut s = String::from("abé");
    push_decimal(&mut s, 905);
    assert_eq!(s, "abé905");
}

#[test]
fn text_order() {
    assert!(text_less("2024-01-01 00:00:00", "2024-01-01 00:00:01"));
    assert!(!text_less("2024-01-01 00:00:01", "2024-01-01 00:00:00"));
    assert!(!text_less("same", "same"));
    assert!(text_less("abc", "abcd"));
    assert!(!text_less("abcd", "abc"));
    assert!(text_less("", "a"));
    assert!(!text_less("", ""));
    assert!(text_less("Z", "a"));
    assert!(text_less("a", "é"));
}

#[test]
fn text_equality() {
    assert!(text_equal("", ""));
    assert!(text_equal("héllo", "héllo"));
    assert!(!text_equal("hello", "hellO"));
    assert!(!text_equal("hell", "hello"));
}
