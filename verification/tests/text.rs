//! Trimming, tokens and decimal rendering behave as specified.

use uci::text::{first_token_str, second_token_str, str_eq, trim_str, u32_digits};

#[test]
fn trim_removes_leading_and_trailing_whitespace() {
    assert_eq!(trim_str("  readyok \r\n"), "readyok");
    assert_eq!(trim_str("readyok"), "readyok");
    assert_eq!(trim_str("\t\r\n "), "");
    assert_eq!(trim_str(""), "");
    assert_eq!(trim_str(" a b "), "a b");
}

#[test]
fn tokens_are_whitespace_delimited() {
    assert_eq!(first_token_str("bestmove e2e4 ponder e7e5\n"), "bestmove");
    assert_eq!(second_token_str("bestmove e2e4 ponder e7e5\n"), "e2e4");
    assert_eq!(second_token_str("bestmove   e2e4\n"), "e2e4");
    assert_eq!(second_token_str("  bestmove\te2e4"), "e2e4");
    assert_eq!(first_token_str("   "), "");
    assert_eq!(second_token_str("bestmove\n"), "");
}

#[test]
fn str_eq_compares_contents() {
    assert!(str_eq("readyok", "readyok"));
    assert!(!str_eq("readyok", "readyok\n"));
    assert!(!str_eq("a", "b"));
    assert!(str_eq("", ""));
}

#[test]
fn u32_digits_renders_decimal() {
    assert_eq!(u32_digits(0), "0");
    assert_eq!(u32_digits(7), "7");
    assert_eq!(u32_digits(100), "100");
    assert_eq!(u32_digits(1050), "1050");
    assert_eq!(u32_digits(4294967295), "4294967295");
}
