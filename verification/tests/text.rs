use hangman::text::{chars_of, contains_char};

#[test]
fn contains_char_finds_a_character_anywhere() {
    assert!(contains_char("cat", 'c'));
    assert!(contains_char("cat", 'a'));
    assert!(contains_char("cat", 't'));
    assert!(contains_char("héllo", 'é'));
}

#[test]
fn contains_char_misses_what_is_not_there() {
    assert!(!contains_char("cat", 'x'));
    assert!(!contains_char("cat", 'C'));
    assert!(!contains_char("", 'a'));
    assert!(!contains_char("héllo", 'e'));
}

#[test]
fn chars_of_gives_the_characters_in_order() {
    assert_eq!(chars_of("cat"), vec!['c', 'a', 't']);
    assert_eq!(chars_of("é_ß"), vec!['é', '_', 'ß']);
    assert_eq!(chars_of(""), Vec::<char>::new());
}
