//! A round of the game: the secret word, the letters guessed so far, the lives
//! that are left, and the step from one guess to the next.

use vstd::prelude::*;
use vstd::string::{StrSliceExecFns, StringExecFns};
use crate::guess::{accept_guess, accepted, check_guess, classify, GuessResult, Turn};
use crate::mask::{
    format_masked_word,
    is_revealed,
    lemma_miss_keeps_mask,
    lemma_push_contains,
    masked,
    revealed,
    PLACEHOLDER,
};
use crate::render::{board, board_lines, decimal, decimal_string};
use crate::text::texts;

verus! {

/// The lives a round starts with.
pub const MAX_LIVES: u8 = 6;

/// Where a round stands.
#[derive(Clone, Copy, Debug, PartialEq, Eq, Structural)]
pub enum Outcome {
    /// Guesses are still taken.
    InProgress,
    /// The word is revealed in full.
    Won,
    /// No life is left.
    Lost,
}

/// A round as the rules see it.
pub struct RoundState {
    /// The secret word.
    pub word: Seq<char>,
    /// The letters guessed so far, right or wrong, in the order of the guesses.
    pub discovered: Seq<char>,
    /// The wrong guesses that the player can still afford.
    pub lives: nat,
    /// Whether a correct guess has completed the word.
    pub solved: bool,
}

/// How many of the discovered letters do not occur in the word.
pub open spec fn misses(word: Seq<char>, discovered: Seq<char>) -> nat {
    discovered.filter(|c: char| !word.contains(c)).len()
}

impl RoundState {
    /// The round before the first guess.
    pub open spec fn start(word: Seq<char>) -> RoundState {
        RoundState { word, discovered: Seq::empty(), lives: MAX_LIVES as nat, solved: false }
    }

    /// Won once the word is solved, lost once no life is left, in progress
    /// otherwise.
    pub open spec fn outcome(self) -> Outcome {
        if self.solved {
            Outcome::Won
        } else if self.lives == 0 {
            Outcome::Lost
        } else {
            Outcome::InProgress
        }
    }

    /// The word as the player sees it.
    pub open spec fn masked(self) -> Seq<char> {
        masked(self.word, self.discovered)
    }

    /// The class of a guess in this round.
    pub open spec fn classify(self, guess: char) -> GuessResult {
        classify(guess, self.discovered, self.word)
    }

    /// The round after a valid guess. A repeated letter changes nothing. A
    /// wrong letter is recorded and costs a life, as long as there is one to
    /// lose. A right letter is recorded, and solves the round if the masked
    /// word then holds no placeholder.
    pub open spec fn after(self, guess: char) -> RoundState {
        match self.classify(guess) {
            GuessResult::AlreadyGuessed => self,
            GuessResult::Incorrect => RoundState {
                discovered: self.discovered.push(guess),
                lives: if self.lives > 0 {
                    (self.lives - 1) as nat
                } else {
                    0
                },
                ..self
            },
            GuessResult::Correct => RoundState {
                discovered: self.discovered.push(guess),
                solved: revealed(self.word, self.discovered.push(guess)),
                ..self
            },
        }
    }

    /// The round after a run of valid guesses, taken in order for as long as the
    /// round is in progress. What follows the guess that ends the round is not
    /// looked at.
    pub open spec fn run(self, guesses: Seq<char>) -> RoundState
        decreases guesses.len(),
    {
        if guesses.len() == 0 || self.outcome() != Outcome::InProgress {
            self
        } else {
            self.after(guesses.first()).run(guesses.drop_first())
        }
    }

    /// What holds of every round that play can reach: no letter is recorded
    /// twice; each wrong letter on record has cost one life of the six, and no
    /// other life is gone; a solved round has a life left; and a round is solved
    /// exactly when its word is not empty and shows no placeholder.
    pub open spec fn wf(self) -> bool {
        &&& self.discovered.no_duplicates()
        &&& self.lives + misses(self.word, self.discovered) == MAX_LIVES
        &&& self.solved ==> self.lives > 0
        &&& self.solved <==> self.word.len() > 0 && revealed(self.word, self.discovered)
    }
}

/// One more letter on record adds a miss exactly when it is not in the word.
pub proof fn lemma_misses_push(word: Seq<char>, discovered: Seq<char>, c: char)
    ensures
        misses(word, discovered.push(c)) == misses(word, discovered) + (if word.contains(c) {
            0nat
        } else {
            1nat
        }),
{
    reveal(Seq::filter);
    assert(discovered.push(c).drop_last() =~= discovered);
    assert(discovered.push(c).last() == c);
}

/// The round before the first guess is well formed and in progress.
pub proof fn lemma_start_wf(word: Seq<char>)
    ensures
        RoundState::start(word).wf(),
        RoundState::start(word).outcome() == Outcome::InProgress,
{
    let s = RoundState::start(word);
    if word.len() > 0 {
        assert(!s.discovered.contains(word[0]));
        assert(masked(word, s.discovered)[0] == PLACEHOLDER);
    }
}

/// A valid guess takes a well-formed round in progress to a well-formed
/// round. Lives never grow, and the record only grows.
pub proof fn lemma_after_wf(s: RoundState, guess: char)
    requires
        s.wf(),
        s.outcome() == Outcome::InProgress,
    ensures
        s.after(guess).wf(),
        s.after(guess).word == s.word,
        s.after(guess).lives <= s.lives,
        s.discovered.is_prefix_of(s.after(guess).discovered),
{
    let t = s.after(guess);
    match s.classify(guess) {
        GuessResult::AlreadyGuessed => {},
        GuessResult::Incorrect => {
            lemma_misses_push(s.word, s.discovered, guess);
            lemma_push_fresh(s.discovered, guess);
            lemma_miss_keeps_mask(s.word, s.discovered, guess);
        },
        GuessResult::Correct => {
            lemma_misses_push(s.word, s.discovered, guess);
            lemma_push_fresh(s.discovered, guess);
            assert(s.word.len() > 0);
        },
    }
}

/// A sequence without repeats stays so when a character that it does not hold
/// is put at its end.
pub proof fn lemma_push_fresh(s: Seq<char>, c: char)
    requires
        s.no_duplicates(),
        !s.contains(c),
    ensures
        s.push(c).no_duplicates(),
{
    let t = s.push(c);
    assert forall|i: int, j: int| 0 <= i < t.len() && 0 <= j < t.len() && i != j implies t[i]
        != t[j] by {
        if i < s.len() {
            assert(s.contains(s[i]));
        }
        if j < s.len() {
            assert(s.contains(s[j]));
        }
    }
}

/// What is said at the end of a round.
pub open spec fn closing(s: RoundState) -> Seq<Seq<char>> {
    match s.outcome() {
        Outcome::InProgress => Seq::empty(),
        Outcome::Won => seq!["You won in "@ + decimal(s.discovered.len()) + " guesses!"@],
        Outcome::Lost => board(s.discovered, s.masked(), s.lives) + seq![
            "Oh no! You lost!"@,
            "The word was "@ + s.word,
        ],
    }
}

/// A round of hangman.
pub struct Round {
    word: String,
    discovered: String,
    lives: u8,
    solved: bool,
}

impl View for Round {
    type V = RoundState;

    closed spec fn view(&self) -> RoundState {
        RoundState {
            word: self.word@,
            discovered: self.discovered@,
            lives: self.lives as nat,
            solved: self.solved,
        }
    }
}

impl Round {
    /// Whether the round is one that play can reach.
    pub open spec fn wf(&self) -> bool {
        self@.wf()
    }

    /// Starts a round on `word`: six lives, no letter guessed, in progress.
    pub fn new(word: String) -> (round: Round)
        ensures
            round.wf(),
            round@ == RoundState::start(word@),
    {
        proof {
            lemma_start_wf(word@);
        }
        Round { word, discovered: String::new(), lives: MAX_LIVES, solved: false }
    }

    /// The secret word.
    pub fn word(&self) -> (word: &str)
        ensures
            word@ == self@.word,
    {
        self.word.as_str()
    }

    /// The letters guessed so far, in the order of the guesses.
    pub fn discovered(&self) -> (discovered: &str)
        ensures
            discovered@ == self@.discovered,
    {
        self.discovered.as_str()
    }

    /// The lives that are left.
    pub fn lives(&self) -> (lives: u8)
        ensures
            lives == self@.lives,
    {
        self.lives
    }

    /// How many letters have been guessed, repeats and invalid input not
    /// counted.
    pub fn guess_count(&self) -> (count: usize)
        ensures
            count == self@.discovered.len(),
    {
        self.discovered.as_str().unicode_len()
    }

    /// Where the round stands.
    pub fn outcome(&self) -> (outcome: Outcome)
        ensures
            outcome == self@.outcome(),
    {
        if self.solved {
            Outcome::Won
        } else if self.lives == 0 {
            Outcome::Lost
        } else {
            Outcome::InProgress
        }
    }

    /// The word as the player sees it.
    pub fn masked_word(&self) -> (shown: String)
        ensures
            shown@ == self@.masked(),
    {
        format_masked_word(self.word.as_str(), self.discovered.as_str())
    }

    /// The board of the round, line by line. A round that play can reach
    /// always has a gallows: its lives lie between 0 and 6.
    pub fn board(&self) -> (lines: Vec<String>)
        requires
            self.wf(),
        ensures
            texts(lines@) == board(self@.discovered, self@.masked(), self@.lives),
    {
        let shown = self.masked_word();
        match board_lines(self.discovered.as_str(), shown.as_str(), self.lives) {
            Ok(lines) => lines,
            Err(_) => vstd::pervasive::unreached(),
        }
    }

    /// Takes one valid guess in a round in progress, and says what it was.
    pub fn guess(&mut self, guess: char) -> (result: GuessResult)
        requires
            old(self).wf(),
            old(self)@.outcome() == Outcome::InProgress,
        ensures
            final(self).wf(),
            result == old(self)@.classify(guess),
            final(self)@ == old(self)@.after(guess),
    {
        let result = check_guess(guess, self.discovered.as_str(), self.word.as_str());
        proof {
            lemma_after_wf(self@, guess);
        }
        match result {
            GuessResult::AlreadyGuessed => {},
            GuessResult::Incorrect => {
                self.discovered.push(guess);
                if self.lives > 0 {
                    self.lives = self.lives - 1;
                }
            },
            GuessResult::Correct => {
                self.discovered.push(guess);
                let shown = format_masked_word(self.word.as_str(), self.discovered.as_str());
                self.solved = is_revealed(shown.as_str());
            },
        }
        result
    }

    /// Takes one line of input in a round in progress. A line that is no valid
    /// guess changes nothing; a valid one is folded to lowercase and taken as a
    /// guess.
    pub fn submit(&mut self, line: &str) -> (turn: Turn)
        requires
            old(self).wf(),
            old(self)@.outcome() == Outcome::InProgress,
        ensures
            final(self).wf(),
            accepted(line@) is None ==> turn == Turn::Invalid && final(self)@ == old(self)@,
            accepted(line@) matches Some(guess) ==> {
                &&& turn == Turn::Taken(guess, old(self)@.classify(guess))
                &&& final(self)@ == old(self)@.after(guess)
            },
    {
        match accept_guess(line) {
            Some(guess) => Turn::Taken(guess, self.guess(guess)),
            None => Turn::Invalid,
        }
    }

    /// What is said when the round is over: the number of guesses if it was
    /// won; the board, and the word, if it was lost. Nothing while the round
    /// is in progress.
    pub fn closing_lines(&self) -> (lines: Vec<String>)
        requires
            self.wf(),
        ensures
            texts(lines@) == closing(self@),
    {
        match self.outcome() {
            Outcome::InProgress => {
                let lines: Vec<String> = Vec::new();
                assert(texts(lines@) =~= closing(self@));
                lines
            },
            Outcome::Won => {
                let mut line = String::from_str("You won in ");
                let count = decimal_string(self.guess_count());
                line.append(count.as_str());
                line.append(" guesses!");
                let mut lines: Vec<String> = Vec::new();
                lines.push(line);
                assert(texts(lines@) =~= closing(self@));
                lines
            },
            Outcome::Lost => {
                let mut lines = self.board();
                let mut line = String::from_str("The word was ");
                line.append(self.word.as_str());
                lines.push(String::from_str("Oh no! You lost!"));
                lines.push(line);
                assert(texts(lines@) =~= closing(self@));
                lines
            },
        }
    }
}

} // verus!
