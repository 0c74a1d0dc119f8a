use hangman::words::{get_word, parse_dictionary, pick_word, DictionaryError, SEPARATOR};

#[test]
fn words_are_split_at_commas() {
    assert_eq!(parse_dictionary("cat,dog,bird"), vec!["cat", "dog", "bird"]);
    assert_eq!(SEPARATOR, ',');
}

#[test]
fn text_without_comma_is_one_word() {
    assert_eq!(parse_dictionary("hangman"), vec!["hangman"]);
}

#[test]
fn empty_text_is_one_empty_word() {
    assert_eq!(parse_dictionary(""), vec![""]);
}

#[test]
fn commas_at_the_ends_and_in_a_row_give_empty_words() {
    assert_eq!(parse_dictionary(","), vec!["", ""]);
    assert_eq!(parse_dictionary("a,,b"), vec!["a", "", "b"]);
    assert_eq!(parse_dictionary(",a,"), vec!["", "a", ""]);
}

#[test]
fn nothing_but_the_comma_is_dropped() {
    assert_eq!(parse_dictionary("cat, dog\n"), vec!["cat", " dog\n"]);
    assert_eq!(parse_dictionary("été,naïve"), vec!["été", "naïve"]);
}

#[test]
fn joining_the_words_gives_the_text_back() {
    for text in ["", ",", "cat", "cat,dog", ",a,,b,", "x, y ,z"] {
        let words = parse_dictionary(text);
        assert!(words.len() >= 1);
        assert_eq!(words.join(","), text);
        for word in &words {
            assert!(!word.contains(','));
        }
    }
}

#[test]
fn pick_word_takes_the_word_at_the_index() {
    let words = vec![String::from("cat"), String::from("dog"), String::from("bird")];
    assert_eq!(pick_word(&words, 0), "cat");
    assert_eq!(pick_word(&words, 1), "dog");
    assert_eq!(pick_word(&words, 2), "bird");
}

#[test]
fn empty_dictionary_is_an_error() {
    assert_eq!(get_word(""), Err(DictionaryError::Empty));
    assert_eq!(DictionaryError::Empty.message(), "The dictionary is empty");
}

#[test]
fn single_word_is_always_drawn() {
    for _ in 0..20 {
        assert_eq!(get_word("cat"), Ok(String::from("cat")));
    }
}

#[test]
fn drawn_word_is_one_of_the_dictionary() {
    let text = "cat,dog,bird,fish";
    let words = parse_dictionary(text);
    for _ in 0..200 {
        let word = get_word(text).unwrap();
        assert!(words.contains(&word));
    }
}

#[test]
fn every_word_is_drawn_sooner_or_later() {
    let mut seen_cat = false;
    let mut seen_dog = false;
    for _ in 0..2000 {
        let word = get_word("cat,dog").unwrap();
        if word == "cat" {
            seen_cat = true;
        }
        if word == "dog" {
            seen_dog = true;
        }
    }
    assert!(seen_cat);
    assert!(seen_dog);
}
