use curtain_relay::msgtext::{trim_text, validate_text, MAX_TEXT_CHARS};
use curtain_relay::textmatch::contains_ci_str;

#[test]
fn trim_removes_surrounding_whitespace() {
    assert_eq!(trim_text("  hello  "), "hello");
    assert_eq!(trim_text("\t\nhi\r\n"), "hi");
    assert_eq!(trim_text("no trim"), "no trim");
    assert_eq!(trim_text("   "), "");
    assert_eq!(trim_text(""), "");
}

#[test]
fn trim_keeps_inner_whitespace() {
    assert_eq!(trim_text("  a  b  "), "a  b");
}

#[test]
fn validate_accepts_trimmed_text() {
    assert_eq!(validate_text(" ok "), Some("ok".to_string()));
}

#[test]
fn validate_rejects_empty_after_trim() {
    assert_eq!(validate_text("   "), None);
    assert_eq!(validate_text(""), None);
}

#[test]
fn validate_enforces_the_length_bound() {
    let max = "x".repeat(MAX_TEXT_CHARS);
    assert_eq!(validate_text(&max).as_deref(), Some(max.as_str()));
    let over = "x".repeat(MAX_TEXT_CHARS + 1);
    assert_eq!(validate_text(&over), None);
    // trimming happens before the length check
    let padded = format!("  {}  ", max);
    assert_eq!(validate_text(&padded).as_deref(), Some(max.as_str()));
}

#[test]
fn contains_ci_finds_substrings_in_any_case() {
    assert!(contains_ci_str("Scrolling Text", "scroll"));
    assert!(contains_ci_str("SCROLLING TEXT", "text"));
    assert!(contains_ci_str("scrolling text", "TEXT"));
    assert!(!contains_ci_str("Rainbow", "text"));
}

#[test]
fn contains_ci_edge_cases() {
    assert!(contains_ci_str("abc", ""));
    assert!(contains_ci_str("", ""));
    assert!(!contains_ci_str("", "a"));
    assert!(!contains_ci_str("ab", "abc"));
    assert!(contains_ci_str("abc", "abc"));
}
