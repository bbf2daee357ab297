//! Character-count truncation of display names.

use netviz::text::truncate_chars;

#[test]
fn main_test_short_string_unchanged() {
    assert_eq!(truncate_chars("Hello", 10), "Hello");
}

#[test]
fn handlers_test_short_string_unchanged() {
    assert_eq!(truncate_chars("Hello", 10), "Hello");
}

#[test]
fn main_test_exact_length_unchanged() {
    assert_eq!(truncate_chars("Hello", 5), "Hello");
}

#[test]
fn handlers_test_exact_length_unchanged() {
    assert_eq!(truncate_chars("Hello", 5), "Hello");
}

#[test]
fn main_test_long_string_truncated() {
    assert_eq!(truncate_chars("Hello, World!", 5), "Hello...");
}

#[test]
fn handlers_test_long_string_truncated() {
    assert_eq!(truncate_chars("Hello, World!", 5), "Hello...");
}

#[test]
fn test_empty_string() {
    assert_eq!(truncate_chars("", 10), "");
}

#[test]
fn test_unicode_characters() {
    assert_eq!(truncate_chars("こんにちは世界", 5), "こんにちは...");
}

#[test]
fn main_test_emoji_characters() {
    assert_eq!(truncate_chars("Hello 🌍🌍🌍", 8), "Hello 🌍🌍...");
}

#[test]
fn handlers_test_emoji_characters() {
    assert_eq!(truncate_chars("Hello 🌍🌍🌍", 8), "Hello 🌍🌍...");
}

#[test]
fn test_zero_max_chars() {
    assert_eq!(truncate_chars("Hello", 0), "...");
}
