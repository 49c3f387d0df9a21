use jaxbrain::order::{lex_le_str, str_eq};

#[test]
fn lexicographic_order_on_plain_strings() {
    assert!(lex_le_str("abc", "abd", false));
    assert!(!lex_le_str("abd", "abc", false));
    assert!(lex_le_str("abc", "abc", false));
    assert!(lex_le_str("ab", "abc", false));
    assert!(!lex_le_str("abc", "ab", false));
    assert!(lex_le_str("", "a", false));
    // Without folding, upper case sorts before lower case.
    assert!(lex_le_str("Zebra", "apple", false));
}

#[test]
fn case_folded_order_treats_upper_as_lower() {
    assert!(lex_le_str("apple", "Zebra", true));
    assert!(lex_le_str("Apple", "apple", true));
    assert!(lex_le_str("apple", "Apple", true));
    assert!(!lex_le_str("Zebra", "apple", true));
}

#[test]
fn string_equality_by_characters() {
    assert!(str_eq("", ""));
    assert!(str_eq("same", "same"));
    assert!(!str_eq("same", "sane"));
    assert!(!str_eq("same", "sames"));
}
