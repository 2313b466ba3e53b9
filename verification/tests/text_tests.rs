//! The verified text primitives: trimming, substring search, and decimal
//! rendering of counters.

use stocker::text::{dec_string, str_contains_str, trim_text};

#[test]
fn trimming_strips_both_ends_only() {
    assert_eq!(trim_text("  SupplyA  "), "SupplyA");
    assert_eq!(trim_text("\t a b \n"), "a b");
    assert_eq!(trim_text("untouched"), "untouched");
    assert_eq!(trim_text(""), "");
    assert_eq!(trim_text(" \t\r\n"), "");
    assert_eq!(trim_text("\u{3000}wide\u{3000}"), "wide");
}

#[test]
fn substring_search_is_contiguous_and_case_sensitive() {
    assert!(str_contains_str("SupplyA", "ppl"));
    assert!(str_contains_str("SupplyA", "SupplyA"));
    assert!(str_contains_str("SupplyA", ""));
    assert!(!str_contains_str("SupplyA", "supply"));
    assert!(!str_contains_str("SupplyA", "SupplyAB"));
    assert!(!str_contains_str("", "a"));
}

#[test]
fn counters_render_as_plain_decimals() {
    assert_eq!(dec_string(0), "0");
    assert_eq!(dec_string(1), "1");
    assert_eq!(dec_string(10), "10");
    assert_eq!(dec_string(907), "907");
    assert_eq!(dec_string(u64::MAX), "18446744073709551615");
}
