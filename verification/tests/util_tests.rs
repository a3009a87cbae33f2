//! String helpers, URL tails, and the goal direction type.

use strands_metrics::goals::Direction;
use strands_metrics::strutil::{eq_ignore_case, has_prefix, str_eq, tail_number};

#[test]
fn string_equality() {
    assert!(str_eq("abc", "abc"));
    assert!(!str_eq("abc", "abd"));
    assert!(!str_eq("abc", "ab"));
    assert!(str_eq("", ""));
}

#[test]
fn prefix_test() {
    assert!(has_prefix("private_notes", "private_"));
    assert!(!has_prefix("priv", "private_"));
    assert!(!has_prefix("public_notes", "private_"));
    assert!(has_prefix("anything", ""));
}

#[test]
fn case_insensitive_equality() {
    assert!(eq_ignore_case("Not Found", "not found"));
    assert!(eq_ignore_case("NOT FOUND.", "not found."));
    assert!(!eq_ignore_case("Not Found", "not found."));
}

#[test]
fn url_tail_numbers() {
    assert_eq!(tail_number("https://host/repos/o/r/issues/42"), 42);
    assert_eq!(tail_number("12"), 12);
    assert_eq!(tail_number("https://host/repos/o/r/issues/"), 0);
    assert_eq!(tail_number("https://host/a/b/notanumber"), 0);
    assert_eq!(tail_number(""), 0);
    assert_eq!(tail_number("a/-7"), -7);
    assert_eq!(tail_number("a/99999999999999999999999999"), 0);
}

#[test]
fn direction_spellings() {
    assert_eq!(Direction::LowerIsBetter.as_str(), "lower_is_better");
    assert_eq!(Direction::HigherIsBetter.as_str(), "higher_is_better");
}
