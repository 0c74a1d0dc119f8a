//! What the board shows: the lives that are left, the gallows, the letters
//! guessed so far and the masked word, as lines of text.

use vstd::prelude::*;
use vstd::string::StringExecFns;
use crate::guess::{GuessResult, Turn};
use crate::round::{Outcome, MAX_LIVES};
use crate::text::texts;

verus! {

/// The rows of the gallows.
pub const ART_ROWS: usize = 6;

/// Why a board could not be drawn.
#[derive(Clone, Copy, Debug, PartialEq, Eq, Structural)]
pub enum RenderError {
    /// There is no gallows for this number of lives.
    UnknownLivesState(u8),
}

impl RenderError {
    /// The error in words.
    pub fn message(&self) -> (text: &'static str)
        ensures
            text@ == "Unknown Lives State!"@,
    {
        "Unknown Lives State!"
    }
}

/// The head, drawn once the first life is lost.
pub open spec fn head(lives: nat) -> char {
    if lives <= 5 {
        '0'
    } else {
        ' '
    }
}

/// The torso, drawn once two lives are lost.
pub open spec fn torso(lives: nat) -> char {
    if lives <= 4 {
        '|'
    } else {
        ' '
    }
}

/// The arm on the left, drawn once three lives are lost.
pub open spec fn left_arm(lives: nat) -> char {
    if lives <= 3 {
        '/'
    } else {
        ' '
    }
}

/// The arm on the right, drawn once four lives are lost.
pub open spec fn right_arm(lives: nat) -> char {
    if lives <= 2 {
        '\\'
    } else {
        ' '
    }
}

/// The leg on the right, drawn once five lives are lost.
pub open spec fn right_leg(lives: nat) -> char {
    if lives <= 1 {
        '\\'
    } else {
        ' '
    }
}

/// The leg on the left, drawn when no life is left.
pub open spec fn left_leg(lives: nat) -> char {
    if lives == 0 {
        '/'
    } else {
        ' '
    }
}

/// One row of the gallows, nine characters wide: the beam, the rope, then the
/// head, the arms around the torso and the legs as far as they are drawn, each
/// beside the post, and the base.
pub open spec fn art_row(lives: nat, row: int) -> Seq<char> {
    if row == 0 {
        seq![' ', ' ', ' ', ' ', ' ', '_', '_', ' ', ' ']
    } else if row == 1 {
        seq![' ', ' ', ' ', ' ', '|', ' ', ' ', '|', ' ']
    } else if row == 2 {
        seq![' ', ' ', ' ', ' ', head(lives), ' ', ' ', '|', ' ']
    } else if row == 3 {
        seq![' ', ' ', ' ', left_arm(lives), torso(lives), right_arm(lives), ' ', '|', ' ']
    } else if row == 4 {
        seq![' ', ' ', ' ', left_leg(lives), ' ', right_leg(lives), ' ', '|', ' ']
    } else {
        seq![' ', ' ', ' ', ' ', ' ', ' ', '_', '|', '_']
    }
}

/// The gallows for a number of lives, row by row.
pub open spec fn art(lives: nat) -> Seq<Seq<char>> {
    Seq::new(ART_ROWS as nat, |row: int| art_row(lives, row))
}

fn gallows(head_row: &'static str, arms_row: &'static str, legs_row: &'static str) -> (rows: Vec<
    &'static str,
>)
    ensures
        rows@.len() == ART_ROWS,
        rows@[0]@ == art_row(0, 0),
        rows@[1]@ == art_row(0, 1),
        rows@[2] == head_row,
        rows@[3] == arms_row,
        rows@[4] == legs_row,
        rows@[5]@ == art_row(0, 5),
{
    proof {
        reveal_strlit("     __  ");
        reveal_strlit("    |  | ");
        reveal_strlit("      _|_");
        assert("     __  "@ =~= art_row(0, 0));
        assert("    |  | "@ =~= art_row(0, 1));
        assert("      _|_"@ =~= art_row(0, 5));
    }
    let mut rows: Vec<&'static str> = Vec::new();
    rows.push("     __  ");
    rows.push("    |  | ");
    rows.push(head_row);
    rows.push(arms_row);
    rows.push(legs_row);
    rows.push("      _|_");
    rows
}

/// The gallows for a number of lives from 0 to 6, as six rows of nine
/// characters. Any other number of lives is an error.
pub fn hangman_art(lives: u8) -> (result: Result<Vec<&'static str>, RenderError>)
    ensures
        result is Ok <==> lives <= MAX_LIVES,
        result matches Ok(rows) ==> texts(rows@) == art(lives as nat),
        result matches Ok(rows) ==> rows@.len() == ART_ROWS && forall|row: int|
            0 <= row < ART_ROWS ==> (#[trigger] rows@[row])@ == art_row(lives as nat, row),
        result matches Err(e) ==> e == RenderError::UnknownLivesState(lives),
{
    proof {
        reveal_strlit("       | ");
        reveal_strlit("    0  | ");
        reveal_strlit("    |  | ");
        reveal_strlit("   /|  | ");
        reveal_strlit("   /|\\ | ");
        reveal_strlit("     \\ | ");
        reveal_strlit("   / \\ | ");
    }
    let rows = match lives {
        0 => gallows("    0  | ", "   /|\\ | ", "   / \\ | "),
        1 => gallows("    0  | ", "   /|\\ | ", "     \\ | "),
        2 => gallows("    0  | ", "   /|\\ | ", "       | "),
        3 => gallows("    0  | ", "   /|  | ", "       | "),
        4 => gallows("    0  | ", "    |  | ", "       | "),
        5 => gallows("    0  | ", "       | ", "       | "),
        6 => gallows("       | ", "       | ", "       | "),
        _ => {
            return Err(RenderError::UnknownLivesState(lives));
        },
    };
    proof {
        let n = lives as nat;
        assert(rows@[2]@ =~= art_row(n, 2));
        assert(rows@[3]@ =~= art_row(n, 3));
        assert(rows@[4]@ =~= art_row(n, 4));
        assert forall|i: int| 0 <= i < ART_ROWS implies texts(rows@)[i] == art(n)[i] by {}
        assert(texts(rows@) =~= art(n));
    }
    Ok(rows)
}

/// The decimal digit for a number below ten.
pub open spec fn digit(d: nat) -> char {
    seq!['0', '1', '2', '3', '4', '5', '6', '7', '8', '9'][d as int]
}

/// A number in decimal, without leading zeros.
pub open spec fn decimal(n: nat) -> Seq<char>
    decreases n,
{
    if n < 10 {
        seq![digit(n)]
    } else {
        decimal(n / 10).push(digit(n % 10))
    }
}

/// A space before each character of `s`.
pub open spec fn spaced(s: Seq<char>) -> Seq<char> {
    Seq::new(
        2 * s.len(),
        |i: int|
            if i % 2 == 0 {
                ' '
            } else {
                s[i / 2]
            },
    )
}

/// The line that counts the lives.
pub open spec fn lives_text(lives: nat) -> Seq<char> {
    decimal(lives) + " Lives Remaining"@
}

/// The line that lists the guesses.
pub open spec fn guesses_text(discovered: Seq<char>) -> Seq<char> {
    "Guesses:"@ + spaced(discovered)
}

/// The line that shows the masked word.
pub open spec fn word_text(word_masked: Seq<char>) -> Seq<char> {
    "Word: "@ + word_masked
}

/// The board, line by line: the lives, the gallows, the guesses, the word.
pub open spec fn board(discovered: Seq<char>, word_masked: Seq<char>, lives: nat) -> Seq<
    Seq<char>,
> {
    seq![lives_text(lives)] + art(lives) + seq![guesses_text(discovered), word_text(word_masked)]
}

fn digit_char(d: u8) -> (c: char)
    requires
        d < 10,
    ensures
        c == digit(d as nat),
{
    match d {
        0 => '0',
        1 => '1',
        2 => '2',
        3 => '3',
        4 => '4',
        5 => '5',
        6 => '6',
        7 => '7',
        8 => '8',
        _ => '9',
    }
}

/// Writes a number in decimal.
pub fn decimal_string(n: usize) -> (text: String)
    ensures
        text@ == decimal(n as nat),
{
    let mut low: Vec<char> = Vec::new();
    let mut rest = n;
    while rest >= 10
        invariant
            decimal(n as nat) == decimal(rest as nat) + low@.reverse(),
        decreases rest,
    {
        let ghost before = low@;
        let d = digit_char((rest % 10) as u8);
        low.push(d);
        assert(low@.reverse() =~= seq![d] + before.reverse());
        assert(decimal(rest as nat) + before.reverse() =~= decimal((rest / 10) as nat)
            + low@.reverse());
        rest = rest / 10;
    }
    let mut text = String::new();
    text.push(digit_char(rest as u8));
    let mut i = low.len();
    while i > 0
        invariant
            i <= low@.len(),
            text@ == decimal(rest as nat) + low@.reverse().take(low@.len() - i),
        decreases i,
    {
        i -= 1;
        text.push(low[i]);
        assert(low@.reverse().take(low@.len() - i) =~= low@.reverse().take(low@.len() - i - 1).push(
            low@[i as int],
        ));
    }
    assert(low@.reverse().take(low@.len() as int) =~= low@.reverse());
    text
}

/// The line that counts the lives, such as `6 Lives Remaining`.
pub fn lives_line(lives: u8) -> (line: String)
    ensures
        line@ == lives_text(lives as nat),
{
    let mut line = decimal_string(lives as usize);
    line.append(" Lives Remaining");
    line
}

/// The line that lists the guesses: `Guesses:`, then each letter guessed so
/// far behind a space, in the order of the guesses.
pub fn guesses_line(discovered: &str) -> (line: String)
    ensures
        line@ == guesses_text(discovered@),
{
    let mut line = String::from_str("Guesses:");
    assert(line@ =~= guesses_text(discovered@.take(0)));
    for c in it: discovered.chars()
        invariant
            it.seq() == discovered@,
            line@ == guesses_text(discovered@.take(it.index() as int)),
    {
        let ghost k = it.index() as int;
        assert(c == discovered@[k]);
        line.push(' ');
        line.push(c);
        assert(spaced(discovered@.take(k + 1)) =~= spaced(discovered@.take(k)).push(' ').push(c));
        assert(line@ =~= guesses_text(discovered@.take(k + 1)));
    }
    assert(discovered@.take(discovered@.len() as int) =~= discovered@);
    line
}

/// The line that shows the masked word, such as `Word: c_t`.
pub fn word_line(word_masked: &str) -> (line: String)
    ensures
        line@ == word_text(word_masked@),
{
    let mut line = String::from_str("Word: ");
    line.append(word_masked);
    line
}

/// The lines of the board: the lives, the six rows of the gallows, the guesses
/// and the masked word. A number of lives that has no gallows is an error.
pub fn board_lines(discovered: &str, word_masked: &str, lives: u8) -> (result: Result<
    Vec<String>,
    RenderError,
>)
    ensures
        result is Ok <==> lives <= MAX_LIVES,
        result matches Ok(lines) ==> texts(lines@) == board(
            discovered@,
            word_masked@,
            lives as nat,
        ),
        result matches Ok(lines) ==> lines@.len() == ART_ROWS + 3,
        result matches Err(e) ==> e == RenderError::UnknownLivesState(lives),
{
    let rows = match hangman_art(lives) {
        Ok(rows) => rows,
        Err(e) => {
            return Err(e);
        },
    };
    let mut lines: Vec<String> = Vec::new();
    lines.push(lives_line(lives));
    let ghost want = board(discovered@, word_masked@, lives as nat);
    for i in 0..ART_ROWS
        invariant
            rows@.len() == ART_ROWS,
            texts(rows@) == art(lives as nat),
            want == board(discovered@, word_masked@, lives as nat),
            lines@.len() == i + 1,
            forall|j: int| 0 <= j < i + 1 ==> (#[trigger] lines@[j])@ == want[j],
    {
        assert(texts(rows@)[i as int] == rows@[i as int]@);
        lines.push(String::from_str(rows[i]));
    }
    lines.push(guesses_line(discovered));
    lines.push(word_line(word_masked));
    assert(texts(lines@) =~= want);
    Ok(lines)
}

/// What the player is asked before each guess.
pub const PROMPT: &'static str = "Enter your guess: ";

/// What is said of a turn. Invalid input is told how a guess looks. A
/// repeated letter is named. A wrong letter is said to cost a life, unless it
/// cost the last one: then the end of the round speaks for it. A right letter
/// is said to be right. But for the first, an empty line comes before.
pub open spec fn feedback(turn: Turn, outcome: Outcome) -> Seq<Seq<char>> {
    match turn {
        Turn::Invalid => seq!["Please enter a single character (a-z) as your guess."@],
        Turn::Taken(guess, GuessResult::AlreadyGuessed) => seq![
            Seq::empty(),
            "You already guessed '"@ + seq![guess] + "'"@,
        ],
        Turn::Taken(_, GuessResult::Incorrect) => if outcome == Outcome::Lost {
            Seq::empty()
        } else {
            seq![Seq::empty(), "Incorrect! You lost a life!"@]
        },
        Turn::Taken(_, GuessResult::Correct) => seq![Seq::empty(), "Correct!"@],
    }
}

/// The lines that tell the player what became of a turn, given where the
/// round stands after it.
pub fn feedback_lines(turn: Turn, outcome: Outcome) -> (lines: Vec<String>)
    ensures
        texts(lines@) == feedback(turn, outcome),
{
    let mut lines: Vec<String> = Vec::new();
    match turn {
        Turn::Invalid => {
            lines.push(String::from_str("Please enter a single character (a-z) as your guess."));
        },
        Turn::Taken(guess, GuessResult::AlreadyGuessed) => {
            let mut line = String::from_str("You already guessed '");
            line.push(guess);
            line.append("'");
            assert(line@ =~= "You already guessed '"@ + seq![guess] + "'"@);
            lines.push(String::new());
            lines.push(line);
        },
        Turn::Taken(_, GuessResult::Incorrect) => {
            if outcome != Outcome::Lost {
                lines.push(String::new());
                lines.push(String::from_str("Incorrect! You lost a life!"));
            }
        },
        Turn::Taken(_, GuessResult::Correct) => {
            lines.push(String::new());
            lines.push(String::from_str("Correct!"));
        },
    }
    assert(texts(lines@) =~= feedback(turn, outcome));
    lines
}

} // verus!
