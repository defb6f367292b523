use git_changes::identifier::{
    all_digits, compare_identifier_lists, compare_identifiers, split_identifiers,
};
use git_changes::precedence::Precedence;

fn chars(text: &str) -> Vec<char> {
    text.chars().collect()
}

fn list(items: &[&str]) -> Vec<Vec<char>> {
    items.iter().map(|item| chars(item)).collect()
}

#[test]
fn split_at_every_dot() {
    assert_eq!(split_identifiers("alpha.1"), list(&["alpha", "1"]));
    assert_eq!(split_identifiers("rc"), list(&["rc"]));
    assert_eq!(split_identifiers("a.b.c.d"), list(&["a", "b", "c", "d"]));
}

#[test]
fn split_keeps_empty_identifiers() {
    assert_eq!(split_identifiers(""), list(&[""]));
    assert_eq!(split_identifiers("."), list(&["", ""]));
    assert_eq!(split_identifiers("a..b"), list(&["a", "", "b"]));
    assert_eq!(split_identifiers(".a."), list(&["", "a", ""]));
}

#[test]
fn split_then_join_gives_the_text_back() {
    for text in ["", ".", "a", "a.b", "a..b", "..", "rc.1.x", "é.ü"] {
        let joined: Vec<String> =
            split_identifiers(text).iter().map(|id| id.iter().collect::<String>()).collect();
        assert_eq!(joined.join("."), text);
        for id in split_identifiers(text) {
            assert!(!id.contains(&'.'));
        }
    }
}

#[test]
fn digits_only_is_numeric() {
    assert!(all_digits(&chars("0")));
    assert!(all_digits(&chars("0123456789")));
    assert!(all_digits(&chars("")));
    assert!(!all_digits(&chars("12a")));
    assert!(!all_digits(&chars("-1")));
    assert!(!all_digits(&chars("１")));
}

#[test]
fn numeric_identifiers_by_number() {
    assert_eq!(compare_identifiers(&chars("9"), &chars("10")), Precedence::Lower);
    assert_eq!(compare_identifiers(&chars("100"), &chars("99")), Precedence::Higher);
    assert_eq!(compare_identifiers(&chars("42"), &chars("42")), Precedence::Same);
    assert_eq!(compare_identifiers(&chars("123"), &chars("124")), Precedence::Lower);
    assert_eq!(compare_identifiers(&chars("0"), &chars("1")), Precedence::Lower);
}

#[test]
fn leading_zeros_count_only_among_equal_numbers() {
    assert_eq!(compare_identifiers(&chars("007"), &chars("8")), Precedence::Lower);
    assert_eq!(compare_identifiers(&chars("010"), &chars("9")), Precedence::Higher);
    assert_eq!(compare_identifiers(&chars("7"), &chars("07")), Precedence::Lower);
    assert_eq!(compare_identifiers(&chars("007"), &chars("07")), Precedence::Higher);
    assert_eq!(compare_identifiers(&chars("0"), &chars("00")), Precedence::Lower);
    assert_eq!(compare_identifiers(&chars(""), &chars("0")), Precedence::Lower);
    assert_eq!(compare_identifiers(&chars("000"), &chars("1")), Precedence::Lower);
}

#[test]
fn textual_identifiers_by_character() {
    assert_eq!(compare_identifiers(&chars("alpha"), &chars("beta")), Precedence::Lower);
    assert_eq!(compare_identifiers(&chars("rc"), &chars("rc-1")), Precedence::Lower);
    assert_eq!(compare_identifiers(&chars("B"), &chars("a")), Precedence::Lower);
    assert_eq!(compare_identifiers(&chars("pre12"), &chars("pre8")), Precedence::Lower);
    assert_eq!(compare_identifiers(&chars("x"), &chars("x")), Precedence::Same);
    assert_eq!(compare_identifiers(&chars("1a"), &chars("999")), Precedence::Higher);
}

#[test]
fn lists_by_first_difference_then_length() {
    assert_eq!(
        compare_identifier_lists(&list(&["alpha"]), &list(&["alpha", "1"])),
        Precedence::Lower
    );
    assert_eq!(
        compare_identifier_lists(&list(&["alpha", "2"]), &list(&["alpha", "11"])),
        Precedence::Lower
    );
    assert_eq!(
        compare_identifier_lists(&list(&["beta"]), &list(&["alpha", "11"])),
        Precedence::Higher
    );
    assert_eq!(compare_identifier_lists(&list(&["a", "b"]), &list(&["a", "b"])), Precedence::Same);
    assert_eq!(compare_identifier_lists(&list(&[]), &list(&[])), Precedence::Same);
    assert_eq!(compare_identifier_lists(&list(&[]), &list(&["0"])), Precedence::Lower);
}
