use emote_fetch::text::{decimal_text, lowercase, replace_all, starts_with};

#[test]
fn decimal_of_edge_values() {
    assert_eq!(decimal_text(0), "0");
    assert_eq!(decimal_text(9), "9");
    assert_eq!(decimal_text(10), "10");
    assert_eq!(decimal_text(25), "25");
    assert_eq!(decimal_text(u64::MAX), "18446744073709551615");
}

#[test]
fn replace_takes_matches_from_the_left() {
    assert_eq!(replace_all("aaa", "aa", "X"), "Xa");
    assert_eq!(replace_all("a{id}b{id}", "{id}", "7"), "a7b7");
    assert_eq!(replace_all("none", "{id}", "7"), "none");
    assert_eq!(replace_all("", "x", "y"), "");
    assert_eq!(replace_all("héllo", "é", "e"), "hello");
}

#[test]
fn prefix_test() {
    assert!(starts_with("//cdn", "//"));
    assert!(!starts_with("/", "//"));
    assert!(starts_with("abc", ""));
}

#[test]
fn lowercase_changes_letters() {
    assert_eq!(lowercase("XqC"), "xqc");
    assert_eq!(lowercase(""), "");
}
