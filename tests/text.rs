use cargo_do::text::{contains_str, find, same_text, trimmed_starts_with};

#[test]
fn find_gives_first_char_index() {
    assert_eq!(find("ab !!: x !!:", "!!:"), Some(3));
    assert_eq!(find("é!!:", "!!:"), Some(1));
    assert_eq!(find("abc", "!!:"), None);
    assert_eq!(find("abc", ""), Some(0));
    assert_eq!(find("", ""), Some(0));
}

#[test]
fn contains_and_same_text() {
    assert!(contains_str("app miscomp x", "miscomp"));
    assert!(!contains_str("app misc", "miscomp"));
    assert!(same_text("--", "--"));
    assert!(!same_text("--", "---"));
}

#[test]
fn trimmed_prefix() {
    assert!(trimmed_starts_with("x:  None", 2, "None"));
    assert!(trimmed_starts_with("x:\u{3000}None", 2, "None"));
    assert!(!trimmed_starts_with("x: Some(", 2, "None"));
    assert!(trimmed_starts_with("x:", 2, ""));
}
