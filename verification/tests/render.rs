use hangman::guess::{GuessResult, Turn};
use hangman::render::{
    board_lines, decimal_string, feedback_lines, guesses_line, hangman_art, lives_line, word_line,
    RenderError, ART_ROWS, PROMPT,
};
use hangman::round::Outcome;

#[test]
fn art_with_no_life_left() {
    assert_eq!(
        hangman_art(0),
        Ok(vec![
            "     __  ",
            "    |  | ",
            "    0  | ",
            "   /|\\ | ",
            "   / \\ | ",
            "      _|_",
        ])
    );
}

#[test]
fn art_with_one_life() {
    assert_eq!(
        hangman_art(1),
        Ok(vec![
            "     __  ",
            "    |  | ",
            "    0  | ",
            "   /|\\ | ",
            "     \\ | ",
            "      _|_",
        ])
    );
}

#[test]
fn art_with_two_lives() {
    assert_eq!(
        hangman_art(2),
        Ok(vec![
            "     __  ",
            "    |  | ",
            "    0  | ",
            "   /|\\ | ",
            "       | ",
            "      _|_",
        ])
    );
}

#[test]
fn art_with_three_lives() {
    assert_eq!(
        hangman_art(3),
        Ok(vec![
            "     __  ",
            "    |  | ",
            "    0  | ",
            "   /|  | ",
            "       | ",
            "      _|_",
        ])
    );
}

#[test]
fn art_with_four_lives() {
    assert_eq!(
        hangman_art(4),
        Ok(vec![
            "     __  ",
            "    |  | ",
            "    0  | ",
            "    |  | ",
            "       | ",
            "      _|_",
        ])
    );
}

#[test]
fn art_with_five_lives() {
    assert_eq!(
        hangman_art(5),
        Ok(vec![
            "     __  ",
            "    |  | ",
            "    0  | ",
            "       | ",
            "       | ",
            "      _|_",
        ])
    );
}

#[test]
fn art_with_six_lives() {
    assert_eq!(
        hangman_art(6),
        Ok(vec![
            "     __  ",
            "    |  | ",
            "       | ",
            "       | ",
            "       | ",
            "      _|_",
        ])
    );
}

#[test]
fn art_has_six_rows_of_nine_characters() {
    assert_eq!(ART_ROWS, 6);
    for lives in 0..=6 {
        let rows = hangman_art(lives).unwrap();
        assert_eq!(rows.len(), 6);
        for row in rows {
            assert_eq!(row.chars().count(), 9);
        }
    }
}

#[test]
fn art_for_more_than_six_lives_is_an_error() {
    assert_eq!(hangman_art(7), Err(RenderError::UnknownLivesState(7)));
    assert_eq!(hangman_art(255), Err(RenderError::UnknownLivesState(255)));
}

#[test]
fn render_error_in_words() {
    assert_eq!(RenderError::UnknownLivesState(9).message(), "Unknown Lives State!");
}

#[test]
fn decimal_of_small_and_large_numbers() {
    assert_eq!(decimal_string(0), "0");
    assert_eq!(decimal_string(6), "6");
    assert_eq!(decimal_string(9), "9");
    assert_eq!(decimal_string(10), "10");
    assert_eq!(decimal_string(42), "42");
    assert_eq!(decimal_string(99), "99");
    assert_eq!(decimal_string(100), "100");
    assert_eq!(decimal_string(107), "107");
    assert_eq!(decimal_string(255), "255");
    assert_eq!(decimal_string(1000), "1000");
    assert_eq!(decimal_string(9_876_543_210), "9876543210");
    assert_eq!(decimal_string(usize::MAX), usize::MAX.to_string());
}

#[test]
fn lives_line_counts_the_lives() {
    assert_eq!(lives_line(6), "6 Lives Remaining");
    assert_eq!(lives_line(1), "1 Lives Remaining");
    assert_eq!(lives_line(0), "0 Lives Remaining");
    assert_eq!(lives_line(12), "12 Lives Remaining");
}

#[test]
fn guesses_line_without_guesses() {
    assert_eq!(guesses_line(""), "Guesses:");
}

#[test]
fn guesses_line_puts_a_space_before_each_letter() {
    assert_eq!(guesses_line("a"), "Guesses: a");
    assert_eq!(guesses_line("xca"), "Guesses: x c a");
    assert_eq!(guesses_line("éz"), "Guesses: é z");
}

#[test]
fn word_line_shows_the_masked_word() {
    assert_eq!(word_line("c_t"), "Word: c_t");
    assert_eq!(word_line(""), "Word: ");
}

#[test]
fn board_in_full() {
    assert_eq!(
        board_lines("xca", "ca_", 5),
        Ok(vec![
            String::from("5 Lives Remaining"),
            String::from("     __  "),
            String::from("    |  | "),
            String::from("    0  | "),
            String::from("       | "),
            String::from("       | "),
            String::from("      _|_"),
            String::from("Guesses: x c a"),
            String::from("Word: ca_"),
        ])
    );
}

#[test]
fn board_of_a_lost_round() {
    let lines = board_lines("xyzqwv", "___", 0).unwrap();
    assert_eq!(lines.len(), 9);
    assert_eq!(lines[0], "0 Lives Remaining");
    assert_eq!(lines[3], "    0  | ");
    assert_eq!(lines[4], "   /|\\ | ");
    assert_eq!(lines[5], "   / \\ | ");
    assert_eq!(lines[7], "Guesses: x y z q w v");
    assert_eq!(lines[8], "Word: ___");
}

#[test]
fn board_for_more_than_six_lives_is_an_error() {
    assert_eq!(board_lines("", "___", 7), Err(RenderError::UnknownLivesState(7)));
}

#[test]
fn prompt_asks_for_a_guess() {
    assert_eq!(PROMPT, "Enter your guess: ");
}

#[test]
fn invalid_input_is_told_how_a_guess_looks() {
    assert_eq!(
        feedback_lines(Turn::Invalid, Outcome::InProgress),
        vec!["Please enter a single character (a-z) as your guess."]
    );
}

#[test]
fn repeated_letter_is_named() {
    assert_eq!(
        feedback_lines(Turn::Taken('q', GuessResult::AlreadyGuessed), Outcome::InProgress),
        vec!["", "You already guessed 'q'"]
    );
}

#[test]
fn wrong_letter_is_said_to_cost_a_life() {
    assert_eq!(
        feedback_lines(Turn::Taken('q', GuessResult::Incorrect), Outcome::InProgress),
        vec!["", "Incorrect! You lost a life!"]
    );
}

#[test]
fn nothing_is_said_of_the_letter_that_cost_the_last_life() {
    assert_eq!(
        feedback_lines(Turn::Taken('q', GuessResult::Incorrect), Outcome::Lost),
        Vec::<String>::new()
    );
}

#[test]
fn right_letter_is_said_to_be_right() {
    assert_eq!(
        feedback_lines(Turn::Taken('q', GuessResult::Correct), Outcome::InProgress),
        vec!["", "Correct!"]
    );
    assert_eq!(
        feedback_lines(Turn::Taken('q', GuessResult::Correct), Outcome::Won),
        vec!["", "Correct!"]
    );
}
