use vors_core::text::str_contains;
use vors_core::text::u64_to_string;

#[test]
fn decimal_rendering() {
    assert_eq!(u64_to_string(0), "0");
    assert_eq!(u64_to_string(7), "7");
    assert_eq!(u64_to_string(10), "10");
    assert_eq!(u64_to_string(480), "480");
    assert_eq!(u64_to_string(18446744073709551615), "18446744073709551615");
}

#[test]
fn substring_search() {
    assert!(str_contains("nightly.2024", "nightly"));
    assert!(str_contains("a", "a"));
    assert!(str_contains("anything", ""));
    assert!(str_contains("", ""));
    assert!(!str_contains("", "a"));
    assert!(!str_contains("night", "nightly"));
    assert!(!str_contains("VB-CABLE", "cable"));
    assert!(str_contains("VB-CABLE", "CABLE"));
}
