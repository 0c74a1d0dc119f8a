//! The rules of a game of hangman: how a guess is read and classified, how the
//! secret word is masked, how a round moves from guess to guess until it is won
//! or lost, what the board shows, and how a word is drawn from a dictionary.

pub mod text;
pub mod mask;
pub mod guess;
pub mod round;
pub mod laws;
pub mod render;
pub mod words;
