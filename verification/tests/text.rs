use llmwrap::text::{
    characters, find_line_end, join, trim_back, trim_front, trim_stretch, trimmed, CharClass,
};

#[test]
fn characters_are_the_chars_of_the_text() {
    assert_eq!(characters("héy"), vec!['h', 'é', 'y']);
    assert_eq!(characters(""), Vec::<char>::new());
}

#[test]
fn line_ends_at_the_first_line_feed() {
    assert_eq!(find_line_end(&characters("ab\ncd\n")), 2);
    assert_eq!(find_line_end(&characters("abcd")), 4);
    assert_eq!(find_line_end(&characters("\n")), 0);
    assert_eq!(find_line_end(&characters("")), 0);
}

#[test]
fn class_contains_its_characters() {
    assert!(CharClass::Whitespace.contains(' '));
    assert!(CharClass::Whitespace.contains('\n'));
    assert!(CharClass::Whitespace.contains('\u{a0}'));
    assert!(!CharClass::Whitespace.contains('a'));
    assert!(!CharClass::Whitespace.contains('`'));
    assert!(CharClass::Only('`').contains('`'));
    assert!(!CharClass::Only('`').contains(' '));
}

#[test]
fn trims_within_the_given_stretch() {
    let chars = characters("xx  ab  yy");
    assert_eq!(trim_front(&chars, 2, 8, CharClass::Whitespace), 4);
    assert_eq!(trim_back(&chars, 2, 8, CharClass::Whitespace), 6);
    assert_eq!(trim_stretch(&chars, 2, 8, CharClass::Whitespace), (4, 6));
    assert_eq!(trim_stretch(&chars, 0, 10, CharClass::Whitespace), (0, 10));
    assert_eq!(trim_stretch(&chars, 2, 4, CharClass::Whitespace), (4, 4));
    assert_eq!(trim_stretch(&chars, 0, 10, CharClass::Only('x')), (2, 10));
}

#[test]
fn trimmed_text_loses_the_class_at_both_ends() {
    assert_eq!(trimmed("  a b \t", CharClass::Whitespace), "a b");
    assert_eq!(trimmed("``a`b``", CharClass::Only('`')), "a`b");
    assert_eq!(trimmed("````", CharClass::Only('`')), "");
    assert_eq!(trimmed("é ", CharClass::Whitespace), "é");
}

#[test]
fn join_puts_the_separator_between_parts() {
    let parts = vec!["a".to_string(), "".to_string(), "b".to_string()];
    assert_eq!(join(&parts, ", "), "a, , b");
    assert_eq!(join(&vec!["a".to_string()], ", "), "a");
    assert_eq!(join(&vec![], ", "), "");
}
