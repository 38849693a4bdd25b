use winglide::logging::logging::{max_level, module_tag_prefix};
use winglide::logging::formatter::LogLevel;
use winglide::text::{chars_of, contains, ends_with, push_decimal, push_signed_decimal, rfind};
use winglide::utils::truncate;

#[test]
fn truncate_longer_string_gets_ellipsis() {
    assert_eq!(truncate("hello world", 5), "hello...");
}

#[test]
fn truncate_short_string_unchanged() {
    assert_eq!(truncate("hi", 5), "hi");
    assert_eq!(truncate("exact", 5), "exact");
    assert_eq!(truncate("", 0), "");
}

#[test]
fn truncate_counts_characters_not_bytes() {
    assert_eq!(truncate("héllo wörld", 7), "héllo w...");
    assert_eq!(truncate("日本語テキスト", 3), "日本語...");
}

#[test]
fn truncate_to_zero() {
    assert_eq!(truncate("abc", 0), "...");
}

#[test]
fn rfind_finds_last_occurrence() {
    let s = chars_of("a - b - c");
    let p = chars_of(" - ");
    assert_eq!(rfind(&s, &p), Some(5));
    assert_eq!(rfind(&s, &chars_of("x")), None);
    assert_eq!(rfind(&chars_of("ab"), &chars_of("abc")), None);
}

#[test]
fn contains_and_ends_with() {
    let s = chars_of("setup.msi");
    assert!(ends_with(&s, &chars_of(".msi")));
    assert!(!ends_with(&s, &chars_of(".exe")));
    assert!(contains(&s, &chars_of("tup")));
    assert!(contains(&s, &chars_of("")));
    assert!(!contains(&s, &chars_of("msix")));
}

#[test]
fn decimal_rendering() {
    let mut s = String::new();
    push_decimal(&mut s, 0);
    assert_eq!(s, "0");
    let mut s = String::from("n=");
    push_decimal(&mut s, 1234567890123);
    assert_eq!(s, "n=1234567890123");
    let mut s = String::new();
    push_signed_decimal(&mut s, -42);
    assert_eq!(s, "-42");
    let mut s = String::new();
    push_signed_decimal(&mut s, i64::MIN);
    assert_eq!(s, i64::MIN.to_string());
    let mut s = String::new();
    push_signed_decimal(&mut s, i64::MAX);
    assert_eq!(s, i64::MAX.to_string());
}

#[test]
fn module_tag_is_last_path_segment() {
    assert_eq!(module_tag_prefix("winglide::hotkey::manager"), "manager");
    assert_eq!(module_tag_prefix("main"), "main");
    assert_eq!(module_tag_prefix("a:::b"), "b");
    assert_eq!(module_tag_prefix("trailing::"), "");
}

#[test]
fn max_level_follows_verbose_flag() {
    assert_eq!(max_level(true), LogLevel::Debug);
    assert_eq!(max_level(false), LogLevel::Warn);
}
