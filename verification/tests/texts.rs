use ldap_users::text::{contains_text, join_texts, same_text, text_chars};
use ldap_users::types::{UserId, Uuid};

#[test]
fn same_text_compares_characters() {
    assert!(same_text("", ""));
    assert!(same_text("abc", "abc"));
    assert!(!same_text("abc", "abd"));
    assert!(!same_text("abc", "ab"));
    assert!(!same_text("abc", "ABC"));
    assert!(same_text("\u{e9}t\u{e9}", "\u{e9}t\u{e9}"));
    assert!(!same_text("\u{e9}", "e"));
}

#[test]
fn text_chars_lists_the_characters() {
    assert_eq!(text_chars("a\u{e9}\u{1f600}"), vec!['a', '\u{e9}', '\u{1f600}']);
    assert_eq!(text_chars(""), Vec::<char>::new());
}

#[test]
fn join_texts_joins_two_texts() {
    assert_eq!(join_texts("ab", "cd"), "abcd");
    assert_eq!(join_texts("", ""), "");
}

#[test]
fn contains_text_finds_exact_names() {
    let names = vec!["a".to_string(), "bc".to_string()];
    assert!(contains_text(&names, "bc"));
    assert!(!contains_text(&names, "b"));
    assert!(!contains_text(&names, "BC"));
    assert!(!contains_text(&[], "a"));
}

#[test]
fn user_id_is_kept_in_lower_case() {
    assert_eq!(UserId::new("Bob").as_str(), "bob");
    assert_eq!(UserId::new("ALICE_01").as_str(), "alice_01");
    assert_eq!(UserId::new("Bob"), UserId::new("bOB"));
    assert_eq!(UserId::new("Bob").clone(), UserId::new("bob"));
    // Only the letters A to Z change.
    assert_eq!(UserId::new("\u{c9}mile[Z]@`").as_str(), "\u{c9}mile[z]@`");
}

#[test]
fn uuid_keeps_its_text() {
    assert_eq!(Uuid::new("04AC-75e0").as_str(), "04AC-75e0");
}
