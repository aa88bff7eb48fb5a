use dota_2_gsi_invoker::text::{chars_of, contains_str, decimal_text_of, starts_with, str_eq};

#[test]
fn string_helpers() {
    assert_eq!(chars_of("héllo"), vec!['h', 'é', 'l', 'l', 'o']);
    assert!(str_eq("emp", "emp"));
    assert!(!str_eq("emp", "emp "));
    assert!(starts_with("invoker_emp", "invoker_"));
    assert!(!starts_with("invoke", "invoker_"));
    assert!(contains_str("a/dota_addons/hero_demo/b", "dota_addons/hero_demo"));
    assert!(contains_str("abc", ""));
    assert!(!contains_str("dota_addons/hero_dem", "dota_addons/hero_demo"));
}

#[test]
fn decimal_texts_of_counts() {
    assert_eq!(decimal_text_of(0), "0");
    assert_eq!(decimal_text_of(9), "9");
    assert_eq!(decimal_text_of(10), "10");
    assert_eq!(decimal_text_of(12345), "12345");
}
