//! The secret word as the player sees it.

use vstd::prelude::*;
use crate::text::contains_char;

verus! {

/// What stands in the masked word for a letter that has not been guessed.
pub const PLACEHOLDER: char = '_';

/// How one character of the word is shown: itself once it is among the
/// discovered letters, the placeholder until then.
pub open spec fn shown(c: char, discovered: Seq<char>) -> char {
    if discovered.contains(c) {
        c
    } else {
        PLACEHOLDER
    }
}

/// The masked word: each character of `word` as it is shown.
pub open spec fn masked(word: Seq<char>, discovered: Seq<char>) -> Seq<char> {
    Seq::new(word.len(), |i: int| shown(word[i], discovered))
}

/// Whether the masked word holds no placeholder.
pub open spec fn revealed(word: Seq<char>, discovered: Seq<char>) -> bool {
    !masked(word, discovered).contains(PLACEHOLDER)
}

/// Masks `word`: a string of the same length in which each position holds the
/// word's character if it is among `discovered`, and the placeholder otherwise.
pub fn format_masked_word(word: &str, discovered: &str) -> (result: String)
    ensures
        result@ == masked(word@, discovered@),
        result@.len() == word@.len(),
        forall|i: int|
            0 <= i < word@.len() ==> result@[i] == (if discovered@.contains(word@[i]) {
                word@[i]
            } else {
                PLACEHOLDER
            }),
{
    let mut result: String = String::new();
    for c in it: word.chars()
        invariant
            it.seq() == word@,
            result@ == masked(word@, discovered@).take(it.index() as int),
    {
        assert(c == word@[it.index() as int]);
        let known = contains_char(discovered, c);
        result.push(if known {
            c
        } else {
            PLACEHOLDER
        });
    }
    result
}

/// Whether a masked word shows every letter, that is, holds no placeholder.
pub fn is_revealed(word_masked: &str) -> (complete: bool)
    ensures
        complete == !word_masked@.contains(PLACEHOLDER),
{
    !contains_char(word_masked, PLACEHOLDER)
}

/// A guess that is not in the word leaves the masked word as it was.
pub proof fn lemma_miss_keeps_mask(word: Seq<char>, discovered: Seq<char>, c: char)
    requires
        !word.contains(c),
    ensures
        masked(word, discovered.push(c)) == masked(word, discovered),
{
    assert forall|i: int| 0 <= i < word.len() implies shown(word[i], discovered.push(c)) == shown(
        word[i],
        discovered,
    ) by {
        lemma_push_contains(discovered, c, word[i]);
    }
    assert(masked(word, discovered.push(c)) =~= masked(word, discovered));
}

/// What a sequence holds after one more character: what it held, and that
/// character.
pub proof fn lemma_push_contains(s: Seq<char>, c: char, x: char)
    ensures
        s.push(c).contains(x) <==> (s.contains(x) || x == c),
{
    if s.contains(x) {
        let j = choose|j: int| 0 <= j < s.len() && s[j] == x;
        assert(s.push(c)[j] == x);
    }
    if x == c {
        assert(s.push(c)[s.len() as int] == x);
    }
    if s.push(c).contains(x) {
        let j = choose|j: int| 0 <= j < s.push(c).len() && s.push(c)[j] == x;
        if j < s.len() {
            assert(s[j] == x);
        }
    }
}

/// Of a word that does not itself hold the placeholder, the masked word is
/// complete exactly when every letter of the word has been discovered.
pub proof fn lemma_revealed_iff_all_discovered(word: Seq<char>, discovered: Seq<char>)
    requires
        !word.contains(PLACEHOLDER),
    ensures
        revealed(word, discovered) <==> forall|i: int|
            0 <= i < word.len() ==> discovered.contains(#[trigger] word[i]),
{
    let m = masked(word, discovered);
    if revealed(word, discovered) {
        assert forall|i: int| 0 <= i < word.len() implies discovered.contains(
            #[trigger] word[i],
        ) by {
            assert(m[i] == shown(word[i], discovered));
            assert(m.contains(m[i]));
        }
    }
    if forall|i: int| 0 <= i < word.len() ==> discovered.contains(#[trigger] word[i]) {
        if m.contains(PLACEHOLDER) {
            let j = choose|j: int| 0 <= j < m.len() && m[j] == PLACEHOLDER;
            assert(discovered.contains(word[j]));
            assert(m[j] == word[j]);
            assert(word.contains(word[j]));
        }
    }
}

} // verus!
