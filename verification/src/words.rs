//! The dictionary: a text of words with commas between them, and the draw of
//! the secret word.

use vstd::prelude::*;
use rand::rngs::ThreadRng;
use rand::Rng;
use crate::text::texts;

verus! {

/// The generator that `rand` keeps for each thread. Nothing is known of what
/// is inside.
#[verifier::external_type_specification]
#[verifier::external_body]
pub struct ExThreadRng(rand::rngs::ThreadRng);

/// `rand::thread_rng` hands out the thread's generator. Nothing is claimed of
/// it.
pub assume_specification[ rand::thread_rng ]() -> (rng: ThreadRng)
;

/// What stands between two words of the dictionary.
pub const SEPARATOR: char = ',';

/// The words of a dictionary text: what stands before the first comma, between
/// two commas, and behind the last. A text without a comma is one word, the
/// empty text is one empty word, and a comma at either end gives an empty word
/// there.
pub open spec fn split_words(text: Seq<char>) -> Seq<Seq<char>>
    decreases text.len(),
{
    if text.len() == 0 {
        seq![Seq::empty()]
    } else {
        let before = split_words(text.drop_last());
        if text.last() == SEPARATOR {
            before.push(Seq::empty())
        } else {
            before.update(before.len() - 1, before.last().push(text.last()))
        }
    }
}

/// The words with a comma between each two of them.
pub open spec fn join_words(words: Seq<Seq<char>>) -> Seq<char>
    decreases words.len(),
{
    if words.len() == 0 {
        Seq::empty()
    } else if words.len() == 1 {
        words[0]
    } else {
        join_words(words.drop_last()).push(SEPARATOR) + words.last()
    }
}

/// Joining undoes splitting: the words of a text hold no comma, there is at
/// least one of them, and with commas put back between them they are the text
/// again.
pub proof fn lemma_split_then_join(text: Seq<char>)
    ensures
        split_words(text).len() >= 1,
        forall|i: int|
            0 <= i < split_words(text).len() ==> !(#[trigger] split_words(text)[i]).contains(
                SEPARATOR,
            ),
        join_words(split_words(text)) == text,
    decreases text.len(),
{
    if text.len() == 0 {
        assert(join_words(split_words(text)) =~= text);
    } else {
        let front = text.drop_last();
        let before = split_words(front);
        let after = split_words(text);
        lemma_split_then_join(front);
        if text.last() == SEPARATOR {
            assert(after.drop_last() =~= before);
            assert(join_words(after) =~= text);
        } else {
            let grown = before.last().push(text.last());
            assert forall|i: int| 0 <= i < after.len() implies !(#[trigger] after[i]).contains(
                SEPARATOR,
            ) by {
                if i == after.len() - 1 {
                    if grown.contains(SEPARATOR) {
                        let j = choose|j: int| 0 <= j < grown.len() && grown[j] == SEPARATOR;
                        assert(before.last()[j] == SEPARATOR);
                    }
                } else {
                    assert(after[i] == before[i]);
                }
            }
            if before.len() == 1 {
                assert(join_words(after) =~= text);
            } else {
                assert(after.drop_last() =~= before.drop_last());
                assert(join_words(after) =~= join_words(before).push(text.last()));
                assert(join_words(after) =~= text);
            }
        }
    }
}

proof fn lemma_split_append(text: Seq<char>, tail: Seq<char>)
    requires
        !tail.contains(SEPARATOR),
    ensures
        split_words(text + tail) == split_words(text).update(
            split_words(text).len() - 1,
            split_words(text).last() + tail,
        ),
    decreases tail.len(),
{
    let words = split_words(text);
    lemma_split_then_join(text);
    if tail.len() == 0 {
        assert(text + tail =~= text);
        assert(words.last() + tail =~= words.last());
        assert(words.update(words.len() - 1, words.last()) =~= words);
    } else {
        let front = tail.drop_last();
        assert(tail[tail.len() - 1] == tail.last());
        assert forall|j: int| 0 <= j < front.len() implies front[j] != SEPARATOR by {
            assert(front[j] == tail[j]);
        }
        lemma_split_append(text, front);
        assert((text + tail).drop_last() =~= text + front);
        assert((words.last() + front).push(tail.last()) =~= words.last() + tail);
        assert(split_words(text + tail) =~= words.update(words.len() - 1, words.last() + tail));
    }
}

/// Splitting undoes joining: one word or more, none of them with a comma in
/// it, are the words of the text that joins them. So the words of a text are
/// the only such list that joins to it.
pub proof fn lemma_join_then_split(words: Seq<Seq<char>>)
    requires
        words.len() >= 1,
        forall|i: int| 0 <= i < words.len() ==> !(#[trigger] words[i]).contains(SEPARATOR),
    ensures
        split_words(join_words(words)) == words,
    decreases words.len(),
{
    let empty = Seq::<char>::empty();
    if words.len() == 1 {
        lemma_split_append(empty, words[0]);
        assert(empty + words[0] =~= words[0]);
        assert(split_words(join_words(words)) =~= words);
    } else {
        let front = words.drop_last();
        let joined = join_words(front);
        assert forall|i: int| 0 <= i < front.len() implies !(#[trigger] front[i]).contains(
            SEPARATOR,
        ) by {
            assert(front[i] == words[i]);
        }
        lemma_join_then_split(front);
        assert(joined.push(SEPARATOR).drop_last() =~= joined);
        assert(split_words(joined.push(SEPARATOR)) == front.push(empty));
        lemma_split_append(joined.push(SEPARATOR), words.last());
        assert(empty + words.last() =~= words.last());
        assert(split_words(join_words(words)) =~= words);
    }
}

/// Splits a dictionary text at its commas. The words hold no comma, and with
/// commas between them they make up the text.
pub fn parse_dictionary(text: &str) -> (words: Vec<String>)
    ensures
        texts(words@) == split_words(text@),
        words@.len() >= 1,
        join_words(texts(words@)) == text@,
        forall|i: int| 0 <= i < words@.len() ==> !(#[trigger] words@[i])@.contains(SEPARATOR),
{
    proof {
        lemma_split_then_join(text@);
    }
    let mut words: Vec<String> = Vec::new();
    let mut current = String::new();
    assert(text@.take(0) =~= Seq::<char>::empty());
    assert(texts(words@).push(current@) =~= split_words(text@.take(0)));
    for c in it: text.chars()
        invariant
            it.seq() == text@,
            texts(words@).push(current@) == split_words(text@.take(it.index() as int)),
    {
        let ghost k = it.index() as int;
        let ghost done = texts(words@).push(current@);
        assert(c == text@[k]);
        assert(text@.take(k + 1).drop_last() =~= text@.take(k));
        if c == SEPARATOR {
            words.push(current);
            current = String::new();
            assert(texts(words@).push(current@) =~= done.push(Seq::empty()));
        } else {
            current.push(c);
            assert(texts(words@).push(current@) =~= done.update(
                done.len() - 1,
                done.last().push(c),
            ));
        }
    }
    assert(text@.take(text@.len() as int) =~= text@);
    let ghost done = texts(words@).push(current@);
    words.push(current);
    assert(texts(words@) =~= done);
    assert forall|i: int| 0 <= i < words@.len() implies !(#[trigger] words@[i])@.contains(
        SEPARATOR,
    ) by {
        assert(texts(words@)[i] == words@[i]@);
    }
    words
}

/// Why no word could be drawn.
#[derive(Clone, Copy, Debug, PartialEq, Eq, Structural)]
pub enum DictionaryError {
    /// The dictionary text is empty.
    Empty,
}

impl DictionaryError {
    /// The error in words.
    pub fn message(&self) -> (text: &'static str)
        ensures
            text@ == "The dictionary is empty"@,
    {
        "The dictionary is empty"
    }
}

/// Calls `Rng::gen_range` on the thread's generator with the range from 0 up
/// to, and without, `bound`. The range must not be empty: on an empty range
/// the call panics. The claim is that the number drawn lies in the range;
/// which one it is depends on chance.
#[verifier::external_body]
fn random_below(rng: &mut ThreadRng, bound: usize) -> (index: usize)
    requires
        bound > 0,
    ensures
        index < bound,
{
    rng.gen_range(0..bound)
}

/// The word at a position of the list.
pub fn pick_word(words: &Vec<String>, index: usize) -> (word: String)
    requires
        index < words@.len(),
    ensures
        word@ == words@[index as int]@,
{
    words[index].clone()
}

/// Draws the secret word from a dictionary text: one of its words, each as
/// likely as the other. An empty text is an error.
pub fn get_word(text: &str) -> (result: Result<String, DictionaryError>)
    ensures
        result is Err <==> text@.len() == 0,
        result matches Err(e) ==> e == DictionaryError::Empty,
        result matches Ok(word) ==> split_words(text@).contains(word@),
{
    if text.is_empty() {
        return Err(DictionaryError::Empty);
    }
    let words = parse_dictionary(text);
    let mut rng = rand::thread_rng();
    let index = random_below(&mut rng, words.len());
    let word = pick_word(&words, index);
    assert(texts(words@)[index as int] == word@);
    Ok(word)
}

} // verus!
