use cli_modbus_rtu_master_rust::text::{
    chars_of, decimal_string, equal_ignoring_ascii_case, str_equal, string_of, trimmed_chars,
};

#[test]
fn trimming_uses_unicode_whitespace() {
    let t: String = trimmed_chars("\t\u{2003} abc d \u{85}\n").into_iter().collect();
    assert_eq!(t, "abc d");
    assert_eq!(trimmed_chars("   ").len(), 0);
    assert_eq!(trimmed_chars("").len(), 0);
    let t: String = trimmed_chars("\u{200b}x").into_iter().collect();
    assert_eq!(t, "\u{200b}x");
}

#[test]
fn decimals() {
    assert_eq!(decimal_string(0), "0");
    assert_eq!(decimal_string(10), "10");
    assert_eq!(decimal_string(u64::MAX), u64::MAX.to_string());
}

#[test]
fn comparisons() {
    assert!(equal_ignoring_ascii_case("AbC", "aBc"));
    assert!(!equal_ignoring_ascii_case("Ä", "ä"));
    assert!(str_equal("да", "да"));
    assert!(!str_equal("да", "ДА"));
    assert_eq!(string_of(&chars_of("Привет")), "Привет");
}
