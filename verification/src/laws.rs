//! What holds of every round, proved from the rules of the step.

use vstd::prelude::*;
use crate::guess::GuessResult;
use crate::mask::{lemma_push_contains, lemma_revealed_iff_all_discovered, PLACEHOLDER};
use crate::round::{lemma_after_wf, lemma_start_wf, Outcome, RoundState, MAX_LIVES};

verus! {

/// A letter that has just been recorded is a repeat from then on: guessed
/// again, it is `AlreadyGuessed`, and the round stays as it is. So a correct
/// letter guessed twice in a row is `Correct`, then `AlreadyGuessed`.
pub proof fn lemma_second_guess_is_repeat(s: RoundState, guess: char)
    requires
        s.classify(guess) != GuessResult::AlreadyGuessed,
    ensures
        s.after(guess).classify(guess) == GuessResult::AlreadyGuessed,
        s.after(guess).after(guess) == s.after(guess),
        s.after(guess).discovered.len() == s.discovered.len() + 1,
{
    lemma_push_contains(s.discovered, guess, guess);
}

/// A repeated letter changes nothing, whether or not it occurs in the word.
pub proof fn lemma_repeat_changes_nothing(s: RoundState, guess: char)
    requires
        s.discovered.contains(guess),
    ensures
        s.classify(guess) == GuessResult::AlreadyGuessed,
        s.after(guess) == s,
{
}

/// A round that has a life left and only letters of its word on record is won
/// by guesses that are all letters of the word and that, with the record,
/// cover the word. No life is lost on the way, and the record still holds only
/// letters of the word. The word must not be empty nor hold the placeholder.
pub proof fn lemma_hits_win(s: RoundState, guesses: Seq<char>)
    requires
        s.wf(),
        s.lives > 0,
        s.word.len() > 0,
        !s.word.contains(PLACEHOLDER),
        forall|i: int| 0 <= i < s.discovered.len() ==> s.word.contains(s.discovered[i]),
        forall|i: int| 0 <= i < guesses.len() ==> s.word.contains(guesses[i]),
        forall|i: int|
            0 <= i < s.word.len() ==> s.discovered.contains(s.word[i]) || guesses.contains(
                s.word[i],
            ),
    ensures
        s.run(guesses).wf(),
        s.run(guesses).outcome() == Outcome::Won,
        s.run(guesses).lives == s.lives,
        s.run(guesses).word == s.word,
        forall|i: int|
            0 <= i < s.run(guesses).discovered.len() ==> s.word.contains(
                s.run(guesses).discovered[i],
            ),
    decreases guesses.len(),
{
    if s.outcome() == Outcome::InProgress {
        if guesses.len() == 0 {
            assert forall|i: int| 0 <= i < s.word.len() implies s.discovered.contains(
                #[trigger] s.word[i],
            ) by {
                assert(!guesses.contains(s.word[i]));
            }
            lemma_revealed_iff_all_discovered(s.word, s.discovered);
        } else {
            let g = guesses.first();
            let t = s.after(g);
            let rest = guesses.drop_first();
            lemma_after_wf(s, g);
            assert(s.word.contains(g));
            assert forall|i: int| 0 <= i < t.discovered.len() implies s.word.contains(
                t.discovered[i],
            ) by {
                if i < s.discovered.len() {
                    assert(t.discovered[i] == s.discovered[i]);
                }
            }
            assert forall|i: int| 0 <= i < rest.len() implies s.word.contains(rest[i]) by {
                assert(rest[i] == guesses[i + 1]);
            }
            assert forall|i: int| 0 <= i < s.word.len() implies t.discovered.contains(s.word[i])
                || rest.contains(s.word[i]) by {
                let x = s.word[i];
                lemma_push_contains(s.discovered, g, x);
                if !s.discovered.contains(x) && x != g {
                    let j = choose|j: int| 0 <= j < guesses.len() && guesses[j] == x;
                    assert(rest[j - 1] == x);
                }
            }
            lemma_hits_win(t, rest);
        }
    }
}

/// Whatever the word, as long as it is not empty and holds no placeholder:
/// when only letters of the word are guessed, and each of them at some
/// point, the round is won, no life is lost, and the letters on record are
/// as many as the distinct letters of the word.
pub proof fn lemma_guessing_every_letter_wins(word: Seq<char>, guesses: Seq<char>)
    requires
        word.len() > 0,
        !word.contains(PLACEHOLDER),
        forall|i: int| 0 <= i < guesses.len() ==> word.contains(guesses[i]),
        forall|i: int| 0 <= i < word.len() ==> guesses.contains(word[i]),
    ensures
        RoundState::start(word).run(guesses).outcome() == Outcome::Won,
        RoundState::start(word).run(guesses).lives == MAX_LIVES,
        RoundState::start(word).run(guesses).discovered.len() == word.to_set().len(),
        RoundState::start(word).run(guesses).discovered.to_set() == word.to_set(),
{
    let s = RoundState::start(word);
    let t = s.run(guesses);
    lemma_start_wf(word);
    lemma_hits_win(s, guesses);
    lemma_revealed_iff_all_discovered(word, t.discovered);
    assert forall|x: char| t.discovered.to_set().contains(x) == word.to_set().contains(x) by {
        if t.discovered.contains(x) {
            let i = choose|i: int| 0 <= i < t.discovered.len() && t.discovered[i] == x;
            assert(word.contains(t.discovered[i]));
        }
        if word.contains(x) {
            let i = choose|i: int| 0 <= i < word.len() && word[i] == x;
            assert(t.discovered.contains(word[i]));
        }
    }
    assert(t.discovered.to_set() =~= word.to_set());
    t.discovered.unique_seq_to_set();
}

/// Wrong letters in a row, no two of them the same and none of them on record
/// yet, lose a round in progress as soon as there are as many of them as the
/// round has lives. Each costs one life; the letters up to the one that costs
/// the last are put on record, and what follows is not looked at.
pub proof fn lemma_enough_misses_lose(s: RoundState, guesses: Seq<char>)
    requires
        s.wf(),
        s.outcome() == Outcome::InProgress,
        s.lives <= guesses.len(),
        guesses.no_duplicates(),
        forall|i: int| 0 <= i < guesses.len() ==> !s.word.contains(guesses[i]),
        forall|i: int| 0 <= i < guesses.len() ==> !s.discovered.contains(guesses[i]),
    ensures
        s.run(guesses).outcome() == Outcome::Lost,
        s.run(guesses).lives == 0,
        s.run(guesses).word == s.word,
        s.run(guesses).discovered == s.discovered + guesses.take(s.lives as int),
    decreases guesses.len(),
{
    let g = guesses.first();
    let t = s.after(g);
    let rest = guesses.drop_first();
    lemma_after_wf(s, g);
    assert(s.classify(g) == GuessResult::Incorrect);
    if t.lives == 0 {
        assert(t.run(rest) == t);
        assert(s.discovered.push(g) =~= s.discovered + guesses.take(1));
    } else {
        assert forall|i: int| 0 <= i < rest.len() implies !s.word.contains(rest[i])
            && !t.discovered.contains(rest[i]) by {
            assert(rest[i] == guesses[i + 1]);
            lemma_push_contains(s.discovered, g, rest[i]);
        }
        lemma_enough_misses_lose(t, rest);
        assert(t.discovered + rest.take(t.lives as int) =~= s.discovered + guesses.take(
            s.lives as int,
        ));
    }
}

/// Whatever the word: six wrong letters in a row, no two of them the same,
/// lose the round. Each costs one life, so none is left, and the six letters
/// are what is on record.
pub proof fn lemma_six_misses_lose(word: Seq<char>, guesses: Seq<char>)
    requires
        guesses.len() == MAX_LIVES,
        guesses.no_duplicates(),
        forall|i: int| 0 <= i < guesses.len() ==> !word.contains(guesses[i]),
    ensures
        RoundState::start(word).run(guesses).outcome() == Outcome::Lost,
        RoundState::start(word).run(guesses).lives == 0,
        RoundState::start(word).run(guesses).discovered == guesses,
{
    let s = RoundState::start(word);
    lemma_start_wf(word);
    lemma_enough_misses_lose(s, guesses);
    assert(s.discovered + guesses.take(s.lives as int) =~= guesses);
}

} // verus!
