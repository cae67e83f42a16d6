use control_center::text::{contains, decimal, join, split, trim, Sep};

#[test]
fn decimals_are_written_without_leading_zeros() {
    assert_eq!(decimal(0), "0");
    assert_eq!(decimal(7), "7");
    assert_eq!(decimal(1234567890), "1234567890");
}

#[test]
fn trim_removes_whitespace_at_both_ends() {
    assert_eq!(trim("  a b \n"), "a b");
    assert_eq!(trim("\t\r\n"), "");
    assert_eq!(trim("x"), "x");
}

#[test]
fn split_keeps_empty_pieces_like_str_split() {
    assert_eq!(split("a,b\n,c", Sep::NewlineOrComma), vec!["a", "b", "", "c"]);
    assert_eq!(split("", Sep::Newline), vec![""]);
    assert_eq!(split("a b,c", Sep::SpaceOrComma), vec!["a", "b", "c"]);
}

#[test]
fn contains_finds_substrings() {
    assert!(contains("billing export", "export"));
    assert!(contains("abc", ""));
    assert!(!contains("abc", "abcd"));
    assert!(!contains("abc", "ac"));
}

#[test]
fn join_puts_the_separator_between_parts() {
    let parts = vec!["a".to_string(), "b".to_string(), "c".to_string()];
    assert_eq!(join(&parts, ", "), "a, b, c");
    assert_eq!(join(&Vec::new(), ", "), "");
}
