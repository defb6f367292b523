use git_changes::decimal::{decimal_digits, push_chars, push_decimal, push_padded_decimal};
use git_changes::logging::default_log_filter;
use git_changes::error::ChangelogError;
use git_changes::text::{chars_of, string_of, strip_prefix};

#[test]
fn characters_of_a_text_and_back() {
    assert_eq!(chars_of("añ✓"), vec!['a', 'ñ', '✓']);
    assert!(chars_of("").is_empty());
    assert_eq!(string_of(&vec!['a', 'ñ', '✓']), "añ✓");
    assert_eq!(string_of(&Vec::new()), "");
}

#[test]
fn prefix_is_stripped_where_it_stands() {
    assert_eq!(strip_prefix("refs/tags/1.0.0", "refs/tags/"), Some("1.0.0".to_string()));
    assert_eq!(strip_prefix("refs/tags/", "refs/tags/"), Some("".to_string()));
    assert_eq!(strip_prefix("abc", ""), Some("abc".to_string()));
    assert_eq!(strip_prefix("", ""), Some("".to_string()));
    assert_eq!(strip_prefix("ünïcode", "ün"), Some("ïcode".to_string()));
}

#[test]
fn prefix_that_does_not_stand_gives_nothing() {
    assert_eq!(strip_prefix("refs/heads/main", "refs/tags/"), None);
    assert_eq!(strip_prefix("refs/tags", "refs/tags/"), None);
    assert_eq!(strip_prefix("", "x"), None);
    assert_eq!(strip_prefix("xrefs/tags/1", "refs/tags/"), None);
}

#[test]
fn decimal_digits_of_numbers() {
    assert_eq!(decimal_digits(0), vec!['0']);
    assert_eq!(decimal_digits(7), vec!['7']);
    assert_eq!(decimal_digits(10), vec!['1', '0']);
    assert_eq!(string_of(&decimal_digits(1234567890)), "1234567890");
    assert_eq!(string_of(&decimal_digits(u64::MAX)), "18446744073709551615");
}

#[test]
fn decimal_is_appended() {
    let mut text = "n=".to_string();
    push_decimal(&mut text, 405);
    assert_eq!(text, "n=405");
    push_chars(&mut text, &vec![';', ' ']);
    push_padded_decimal(&mut text, 7, 3);
    assert_eq!(text, "n=405; 007");
    push_padded_decimal(&mut text, 12345, 3);
    assert_eq!(text, "n=405; 00712345");
    push_padded_decimal(&mut text, 0, 0);
    assert_eq!(text, "n=405; 007123450");
    push_padded_decimal(&mut text, 0, 2);
    assert_eq!(text, "n=405; 00712345000");
}

#[test]
fn log_filter_of_each_verbosity() {
    assert_eq!(default_log_filter(0), "warn");
    assert_eq!(default_log_filter(1), "info");
    assert_eq!(default_log_filter(2), "info,git_changes=debug");
    assert_eq!(default_log_filter(3), "info,git_changes=trace");
    assert_eq!(default_log_filter(4), "debug");
    assert_eq!(default_log_filter(5), "trace");
    assert_eq!(default_log_filter(255), "trace");
}

#[test]
fn every_failure_has_its_message() {
    assert_eq!(ChangelogError::InvalidVersion.message(), "Invalid semantic version");
    assert_eq!(ChangelogError::InvalidPattern.message(), "Invalid commit message pattern");
    assert_eq!(ChangelogError::MissingInitialCommit.message(), "Missing initial commit");
    assert_eq!(ChangelogError::TimestampOutOfRange.message(), "Commit timestamp out of range");
}
