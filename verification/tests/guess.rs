use hangman::guess::{accept_guess, check_guess, fold_case, parse_guess, validate_guess, GuessResult};

#[test]
fn empty_input_is_invalid() {
    assert_eq!(parse_guess(""), None);
    assert!(!validate_guess(parse_guess("")));
    assert_eq!(accept_guess(""), None);
}

#[test]
fn whitespace_only_input_is_invalid() {
    assert_eq!(parse_guess("   "), None);
    assert_eq!(parse_guess("\n"), None);
    assert_eq!(parse_guess(" \t\r\n"), None);
    assert_eq!(accept_guess(" \t\r\n"), None);
}

#[test]
fn two_characters_are_invalid() {
    assert_eq!(parse_guess("ab"), None);
    assert!(!validate_guess(parse_guess("ab")));
    assert_eq!(accept_guess("ab"), None);
    assert_eq!(accept_guess("a b"), None);
    assert_eq!(accept_guess("ab\n"), None);
}

#[test]
fn digit_is_invalid() {
    assert_eq!(parse_guess("5"), Some('5'));
    assert!(!validate_guess(Some('5')));
    assert_eq!(accept_guess("5"), None);
}

#[test]
fn punctuation_is_invalid() {
    assert_eq!(parse_guess("!"), Some('!'));
    assert!(!validate_guess(Some('!')));
    assert_eq!(accept_guess("!"), None);
    assert_eq!(accept_guess("_"), None);
}

#[test]
fn nothing_is_invalid() {
    assert!(!validate_guess(None));
}

#[test]
fn lowercase_letter_is_accepted() {
    assert_eq!(parse_guess("a"), Some('a'));
    assert!(validate_guess(Some('a')));
    assert_eq!(accept_guess("a"), Some('a'));
}

#[test]
fn uppercase_letter_is_folded() {
    assert_eq!(parse_guess("Z"), Some('Z'));
    assert!(validate_guess(Some('Z')));
    assert_eq!(accept_guess("Z"), Some('z'));
}

#[test]
fn whitespace_around_the_letter_is_dropped() {
    assert_eq!(parse_guess("a\n"), Some('a'));
    assert_eq!(parse_guess("  q  "), Some('q'));
    assert_eq!(parse_guess("\tq\r\n"), Some('q'));
    assert_eq!(accept_guess(" Q\n"), Some('q'));
    assert_eq!(parse_guess("\u{a0}x\u{2003}"), Some('x'));
}

#[test]
fn letters_beyond_ascii_are_accepted() {
    assert!(validate_guess(Some('é')));
    assert_eq!(accept_guess("é\n"), Some('é'));
    assert_eq!(accept_guess("É"), Some('é'));
    assert_eq!(accept_guess("京"), Some('京'));
}

#[test]
fn fold_case_takes_the_first_of_the_mapping() {
    assert_eq!(fold_case('A'), 'a');
    assert_eq!(fold_case('a'), 'a');
    assert_eq!(fold_case('ß'), 'ß');
    assert_eq!(fold_case('7'), '7');
    assert_eq!(fold_case('\u{130}'), 'i');
}

#[test]
fn new_letter_in_the_word_is_correct() {
    assert_eq!(check_guess('a', "", "cat"), GuessResult::Correct);
    assert_eq!(check_guess('t', "cxa", "cat"), GuessResult::Correct);
}

#[test]
fn new_letter_outside_the_word_is_incorrect() {
    assert_eq!(check_guess('x', "", "cat"), GuessResult::Incorrect);
    assert_eq!(check_guess('x', "ca", "cat"), GuessResult::Incorrect);
    assert_eq!(check_guess('a', "", ""), GuessResult::Incorrect);
}

#[test]
fn repeat_comes_before_correctness() {
    assert_eq!(check_guess('a', "a", "cat"), GuessResult::AlreadyGuessed);
    assert_eq!(check_guess('x', "ax", "cat"), GuessResult::AlreadyGuessed);
}

#[test]
fn same_correct_letter_twice() {
    let mut discovered = String::new();
    assert_eq!(check_guess('a', &discovered, "cat"), GuessResult::Correct);
    discovered.push('a');
    assert_eq!(check_guess('a', &discovered, "cat"), GuessResult::AlreadyGuessed);
}

#[test]
fn classification_is_case_sensitive() {
    assert_eq!(check_guess('A', "a", "cat"), GuessResult::Incorrect);
}
