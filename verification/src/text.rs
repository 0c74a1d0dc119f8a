//! Characters and strings: what the standard library decides about a single
//! character, and the few string operations the game is built from.

use vstd::prelude::*;

verus! {

/// Whether `c` is a letter: whether Unicode counts it as `Alphabetic`, as
/// `char::is_alphabetic` reports it.
pub uninterp spec fn alphabetic(c: char) -> bool;

/// Whether `c` is whitespace: whether Unicode counts it as `White_Space`, as
/// `char::is_whitespace` reports it.
pub uninterp spec fn whitespace(c: char) -> bool;

/// The lowercase mapping of `c`: the characters that `char::to_lowercase`
/// yields, in order.
pub uninterp spec fn lowercase_of(c: char) -> Seq<char>;

/// `char::is_alphabetic` depends on the character alone; its answer is named
/// [`alphabetic`], and nothing more is claimed of it.
pub assume_specification[ char::is_alphabetic ](c: char) -> (b: bool)
    ensures
        b == alphabetic(c),
;

/// `char::is_whitespace` depends on the character alone; its answer is named
/// [`whitespace`], and nothing more is claimed of it.
pub assume_specification[ char::is_whitespace ](c: char) -> (b: bool)
    ensures
        b == whitespace(c),
;

/// `String::push` appends one character at the end and leaves the rest as it
/// was.
pub assume_specification[ String::push ](s: &mut String, c: char)
    ensures
        final(s)@ == old(s)@.push(c),
;

/// Calls `char::to_lowercase` and collects what the iterator yields. The
/// mapping depends on the character alone; it is named [`lowercase_of`], and
/// nothing is claimed of its length or contents.
#[verifier::external_body]
pub(crate) fn lowercase_chars(c: char) -> (lower: Vec<char>)
    ensures
        lower@ == lowercase_of(c),
{
    c.to_lowercase().collect()
}

/// The texts of a list of strings.
pub open spec fn texts<T: View<V = Seq<char>>>(lines: Seq<T>) -> Seq<Seq<char>> {
    Seq::new(lines.len(), |i: int| lines[i]@)
}

/// Whether `c` occurs in `s`.
pub fn contains_char(s: &str, c: char) -> (found: bool)
    ensures
        found == s@.contains(c),
{
    let mut found = false;
    for d in it: s.chars()
        invariant
            it.seq() == s@,
            found <==> exists|j: int| 0 <= j < it.index() && s@[j] == c,
    {
        assert(d == s@[it.index() as int]);
        if d == c {
            found = true;
        }
    }
    found
}

/// The characters of `s`, in order.
pub fn chars_of(s: &str) -> (chars: Vec<char>)
    ensures
        chars@ == s@,
{
    let mut chars: Vec<char> = Vec::new();
    for d in it: s.chars()
        invariant
            it.seq() == s@,
            chars@ == s@.take(it.index() as int),
    {
        chars.push(d);
    }
    chars
}

} // verus!
