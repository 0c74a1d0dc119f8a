//! Reading a guess from a line of input, and classifying it against a round.

use vstd::prelude::*;
use crate::text::{alphabetic, chars_of, contains_char, lowercase_chars, lowercase_of, whitespace};

verus! {

/// What a valid guess turns out to be.
#[derive(Clone, Copy, Debug, PartialEq, Eq, Structural)]
pub enum GuessResult {
    /// The letter occurs in the word and had not been guessed.
    Correct,
    /// The letter does not occur in the word and had not been guessed.
    Incorrect,
    /// The letter is among the discovered letters already.
    AlreadyGuessed,
}

/// What became of a line of input.
#[derive(Clone, Copy, Debug, PartialEq, Eq, Structural)]
pub enum Turn {
    /// The line was no valid guess, and nothing was done.
    Invalid,
    /// The line stood for this letter, which was taken as a guess with this
    /// result.
    Taken(char, GuessResult),
}

/// The class of `guess`. A letter guessed before is `AlreadyGuessed` whether or
/// not it occurs in the word: the repeat is looked for first.
pub open spec fn classify(guess: char, discovered: Seq<char>, word: Seq<char>) -> GuessResult {
    if discovered.contains(guess) {
        GuessResult::AlreadyGuessed
    } else if !word.contains(guess) {
        GuessResult::Incorrect
    } else {
        GuessResult::Correct
    }
}

/// `s` without the whitespace at its start.
pub open spec fn trim_start(s: Seq<char>) -> Seq<char>
    decreases s.len(),
{
    if s.len() > 0 && whitespace(s.first()) {
        trim_start(s.drop_first())
    } else {
        s
    }
}

/// `s` without the whitespace at its end.
pub open spec fn trim_end(s: Seq<char>) -> Seq<char>
    decreases s.len(),
{
    if s.len() > 0 && whitespace(s.last()) {
        trim_end(s.drop_last())
    } else {
        s
    }
}

/// `s` without the whitespace at either end.
pub open spec fn trimmed(s: Seq<char>) -> Seq<char> {
    trim_end(trim_start(s))
}

/// The character that a line of input resolves to: the one character that is
/// left of it when the whitespace around is dropped. A line that leaves none,
/// or more than one, resolves to nothing.
pub open spec fn resolved(line: Seq<char>) -> Option<char> {
    if trimmed(line).len() == 1 {
        Some(trimmed(line)[0])
    } else {
        None
    }
}

/// Whether a resolved guess is valid: there is a character, and it is a letter.
pub open spec fn valid(guess: Option<char>) -> bool {
    match guess {
        Some(g) => alphabetic(g),
        None => false,
    }
}

/// `c` folded to lowercase: the first character of its lowercase mapping. A
/// character whose mapping is empty stays as it is.
pub open spec fn folded(c: char) -> char {
    if lowercase_of(c).len() > 0 {
        lowercase_of(c)[0]
    } else {
        c
    }
}

/// The guess that a line of input stands for: the letter it resolves to, in
/// lowercase, or nothing where the line is no valid guess.
pub open spec fn accepted(line: Seq<char>) -> Option<char> {
    match resolved(line) {
        Some(g) => if alphabetic(g) {
            Some(folded(g))
        } else {
            None
        },
        None => None,
    }
}

proof fn lemma_trim_start_skip(s: Seq<char>, n: int)
    requires
        0 <= n <= s.len(),
        forall|j: int| 0 <= j < n ==> whitespace(s[j]),
    ensures
        trim_start(s) == trim_start(s.skip(n)),
    decreases n,
{
    if n == 0 {
        assert(s.skip(0) =~= s);
    } else {
        let rest = s.drop_first();
        assert forall|j: int| 0 <= j < n - 1 implies whitespace(rest[j]) by {
            assert(rest[j] == s[j + 1]);
        }
        lemma_trim_start_skip(rest, n - 1);
        assert(rest.skip(n - 1) =~= s.skip(n));
    }
}

proof fn lemma_trim_end_take(s: Seq<char>, n: int)
    requires
        0 <= n <= s.len(),
        forall|j: int| n <= j < s.len() ==> whitespace(s[j]),
    ensures
        trim_end(s) == trim_end(s.take(n)),
    decreases s.len() - n,
{
    if n == s.len() {
        assert(s.take(n) =~= s);
    } else {
        let rest = s.drop_last();
        lemma_trim_end_take(rest, n);
        assert(rest.take(n) =~= s.take(n));
    }
}

/// Resolves a line of input to the one character it holds, the whitespace
/// around it left aside.
pub fn parse_guess(line: &str) -> (guess: Option<char>)
    ensures
        guess == resolved(line@),
{
    let chars = chars_of(line);
    let mut start: usize = 0;
    while start < chars.len() && chars[start].is_whitespace()
        invariant
            start <= chars.len(),
            forall|j: int| 0 <= j < start ==> whitespace(chars@[j]),
        decreases chars.len() - start,
    {
        start += 1;
    }
    let mut end: usize = chars.len();
    while end > start && chars[end - 1].is_whitespace()
        invariant
            start <= end <= chars.len(),
            forall|j: int| end <= j < chars.len() ==> whitespace(chars@[j]),
        decreases end,
    {
        end -= 1;
    }
    proof {
        let s = chars@;
        let front = s.skip(start as int);
        lemma_trim_start_skip(s, start as int);
        assert(trim_start(front) == front);
        assert forall|j: int| end - start <= j < front.len() implies whitespace(front[j]) by {
            assert(front[j] == s[j + start]);
        }
        lemma_trim_end_take(front, end - start);
        let middle = front.take(end - start);
        assert(trim_end(middle) == middle) by {
            if middle.len() > 0 {
                assert(middle.last() == s[end - 1]);
            }
        }
        assert(trimmed(s) == middle);
        if middle.len() == 1 {
            assert(middle[0] == s[start as int]);
        }
    }
    if end - start == 1 {
        Some(chars[start])
    } else {
        None
    }
}

/// Whether a resolved guess is valid: it holds a character, and the character
/// is a letter.
pub fn validate_guess(guess: Option<char>) -> (ok: bool)
    ensures
        ok == valid(guess),
        ok ==> guess is Some,
{
    match guess {
        Some(g) => g.is_alphabetic(),
        None => false,
    }
}

/// Folds a character to lowercase.
pub fn fold_case(c: char) -> (lower: char)
    ensures
        lower == folded(c),
{
    let mapping = lowercase_chars(c);
    if mapping.len() > 0 {
        mapping[0]
    } else {
        c
    }
}

/// Reads a guess from a line of input: resolves the line to one character,
/// checks that it is a letter, and folds it to lowercase. `None` says that the
/// line is no valid guess.
pub fn accept_guess(line: &str) -> (guess: Option<char>)
    ensures
        guess == accepted(line@),
{
    let raw = parse_guess(line);
    if validate_guess(raw) {
        match raw {
            Some(g) => Some(fold_case(g)),
            None => None,
        }
    } else {
        None
    }
}

/// Classifies a guess against the letters discovered so far and the secret
/// word. The repeat is looked for first, so a correct letter guessed again is
/// `AlreadyGuessed`.
pub fn check_guess(guess: char, discovered_characters: &str, word: &str) -> (result: GuessResult)
    ensures
        result == classify(guess, discovered_characters@, word@),
        result is AlreadyGuessed <==> discovered_characters@.contains(guess),
        result is Incorrect <==> !discovered_characters@.contains(guess) && !word@.contains(guess),
        result is Correct <==> !discovered_characters@.contains(guess) && word@.contains(guess),
{
    if contains_char(discovered_characters, guess) {
        return GuessResult::AlreadyGuessed;
    }
    if !contains_char(word, guess) {
        return GuessResult::Incorrect;
    }
    GuessResult::Correct
}

} // verus!
