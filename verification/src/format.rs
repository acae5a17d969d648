//! The song description format.
//!
//! A description is a title line, a tempo line and a lyrics body:
//!
//! ```text
//! <title>
//! <tempo digits><anything, up to the end of the line>
//! <lyrics, to the end of the text>
//! ```
//!
//! Blank characters between the title line and the tempo, and between the
//! tempo line and the lyrics, are skipped. The format is stated as
//! positions in the text: each part ends where a run of characters of one
//! kind ends.

use vstd::prelude::*;
use crate::song::StructuralParseFailure;

verus! {

/// The kinds of character that make up a run.
pub enum CharClass {
    /// Anything but a newline.
    Line,
    /// Newline, space or tab.
    Blank,
    /// An ASCII digit.
    Digit,
}

/// Newline, space and tab are the blank characters.
pub open spec fn is_blank(c: char) -> bool {
    c == '\n' || c == ' ' || c == '\t'
}

/// The ten ASCII digits are the digits.
pub open spec fn is_digit(c: char) -> bool {
    '0' <= c && c <= '9'
}

/// Whether `c` is a character of `class`.
pub open spec fn in_class(class: CharClass, c: char) -> bool {
    match class {
        CharClass::Line => c != '\n',
        CharClass::Blank => is_blank(c),
        CharClass::Digit => is_digit(c),
    }
}

/// Where the longest run of characters of `class` that begins at `from`
/// ends: the first position at or after `from` that holds a character
/// outside the class, or the length of the text if there is none.
pub open spec fn run_end(text: Seq<char>, from: int, class: CharClass) -> int
    decreases text.len() - from,
{
    if from >= text.len() {
        text.len() as int
    } else if in_class(class, text[from]) {
        run_end(text, from + 1, class)
    } else {
        from
    }
}

/// The number that an ASCII digit stands for.
pub open spec fn digit_value(c: char) -> nat {
    if is_digit(c) {
        (c as int - '0' as int) as nat
    } else {
        0
    }
}

/// The number that a sequence of ASCII digits writes in base ten.
pub open spec fn decimal_value(digits: Seq<char>) -> nat
    decreases digits.len(),
{
    if digits.len() == 0 {
        0
    } else {
        10 * decimal_value(digits.drop_last()) + digit_value(digits.last())
    }
}

/// End of the title: the first newline.
pub open spec fn name_end(text: Seq<char>) -> int {
    run_end(text, 0, CharClass::Line)
}

/// Start of the tempo: the first character after the title line that is
/// not blank.
pub open spec fn bpm_start(text: Seq<char>) -> int {
    run_end(text, name_end(text) + 1, CharClass::Blank)
}

/// End of the tempo's digits.
pub open spec fn bpm_end(text: Seq<char>) -> int {
    run_end(text, bpm_start(text), CharClass::Digit)
}

/// End of the tempo line: the first newline at or after the end of the
/// digits.
pub open spec fn bpm_line_end(text: Seq<char>) -> int {
    run_end(text, bpm_end(text), CharClass::Line)
}

/// Start of the lyrics: the first character after the tempo line that is
/// not blank.
pub open spec fn lyrics_start(text: Seq<char>) -> int {
    run_end(text, bpm_line_end(text) + 1, CharClass::Blank)
}

/// The tempo that the text writes.
pub open spec fn bpm_value(text: Seq<char>) -> nat {
    decimal_value(text.subrange(bpm_start(text), bpm_end(text)))
}

/// The parts of a song description.
pub struct SongText {
    pub name: Seq<char>,
    pub bpm: u32,
    pub lyrics: Seq<char>,
}

/// What a song description holds, or why it is none. An empty title is
/// reported first, then a tempo without digits, then one that does not
/// fit in 32 bits, then one that is zero.
pub open spec fn parse_song_text(text: Seq<char>) -> Result<SongText, StructuralParseFailure> {
    if name_end(text) == 0 {
        Err(StructuralParseFailure::EmptyName)
    } else if bpm_end(text) == bpm_start(text) {
        Err(StructuralParseFailure::MissingBpm)
    } else if bpm_value(text) > u32::MAX {
        Err(StructuralParseFailure::BpmOverflow)
    } else if bpm_value(text) == 0 {
        Err(StructuralParseFailure::InvalidTempo)
    } else {
        Ok(
            SongText {
                name: text.subrange(0, name_end(text)),
                bpm: bpm_value(text) as u32,
                lyrics: text.subrange(lyrics_start(text), text.len() as int),
            },
        )
    }
}

/// A run ends where the definition says: inside the text, after
/// characters of the class only, and before a character outside it.
pub proof fn lemma_run_end(text: Seq<char>, from: int, class: CharClass)
    requires
        0 <= from <= text.len(),
    ensures
        from <= run_end(text, from, class) <= text.len(),
        forall|i: int| from <= i < run_end(text, from, class) ==> in_class(class, #[trigger] text[i]),
        run_end(text, from, class) < text.len() ==> !in_class(
            class,
            text[run_end(text, from, class)],
        ),
    decreases text.len() - from,
{
    if from < text.len() && in_class(class, text[from]) {
        lemma_run_end(text, from + 1, class);
    }
}

/// A position that has only characters of the class between `from` and
/// itself, and none of the class at it, is the end of the run.
pub proof fn lemma_run_end_is(text: Seq<char>, from: int, class: CharClass, end: int)
    requires
        0 <= from <= end <= text.len(),
        forall|i: int| from <= i < end ==> in_class(class, #[trigger] text[i]),
        end < text.len() ==> !in_class(class, text[end]),
    ensures
        run_end(text, from, class) == end,
    decreases end - from,
{
    if from < end {
        lemma_run_end_is(text, from + 1, class, end);
    }
}

/// Appending a digit to a run of digits multiplies its value by ten and
/// adds the digit.
pub proof fn lemma_decimal_value_push(text: Seq<char>, from: int, to: int)
    requires
        0 <= from <= to < text.len(),
    ensures
        decimal_value(text.subrange(from, to + 1)) == 10 * decimal_value(text.subrange(from, to))
            + digit_value(text[to]),
        digit_value(text[to]) <= 9,
{
    assert(text.subrange(from, to + 1).drop_last() =~= text.subrange(from, to));
}

/// A text without its leading blank characters.
pub open spec fn strip_leading_blanks(text: Seq<char>) -> Seq<char> {
    text.subrange(run_end(text, 0, CharClass::Blank), text.len() as int)
}

/// A description that is written as a title, a newline, the tempo's
/// digits, anything up to the end of that line, a newline and the lyrics
/// is read back as just that: the title, the tempo that the digits write,
/// and the lyrics from their first character that is not blank.
///
/// The title is not empty and holds no newline; the digits are ASCII
/// digits that write a number from 1 to `u32::MAX`; what follows them
/// on their line holds no newline and does not begin with a digit.
pub proof fn lemma_parse_well_formed(
    name: Seq<char>,
    digits: Seq<char>,
    junk: Seq<char>,
    lyrics: Seq<char>,
)
    requires
        name.len() > 0,
        forall|i: int| 0 <= i < name.len() ==> name[i] != '\n',
        digits.len() > 0,
        forall|i: int| 0 <= i < digits.len() ==> is_digit(digits[i]),
        0 < decimal_value(digits) <= u32::MAX,
        forall|i: int| 0 <= i < junk.len() ==> junk[i] != '\n',
        junk.len() > 0 ==> !is_digit(junk[0]),
    ensures
        parse_song_text(name + seq!['\n'] + digits + junk + seq!['\n'] + lyrics) == Ok::<
            _,
            StructuralParseFailure,
        >(
            SongText {
                name,
                bpm: decimal_value(digits) as u32,
                lyrics: strip_leading_blanks(lyrics),
            },
        ),
{
    let text = name + seq!['\n'] + digits + junk + seq!['\n'] + lyrics;
    let at_digits: int = name.len() as int + 1;
    let at_junk: int = at_digits + digits.len() as int;
    let at_newline: int = at_junk + junk.len() as int;
    let at_lyrics: int = at_newline + 1;
    assert forall|i: int| 0 <= i < name.len() implies text[i] == name[i] by {}
    assert forall|i: int| at_digits <= i < at_junk implies text[i] == digits[i - at_digits] by {}
    assert forall|i: int| at_junk <= i < at_newline implies text[i] == junk[i - at_junk] by {}
    assert forall|i: int| at_lyrics <= i < text.len() implies text[i] == lyrics[i - at_lyrics] by {}

    // The title ends at the first newline, and the digits follow at once.
    lemma_run_end_is(text, 0, CharClass::Line, name.len() as int);
    assert(!is_blank(text[at_digits]));
    // The digits end where the rest of their line begins.
    assert(!is_digit(text[at_junk]));
    lemma_run_end_is(text, at_digits, CharClass::Digit, at_junk);
    assert(text.subrange(at_digits, at_junk) =~= digits);
    lemma_run_end_is(text, at_junk, CharClass::Line, at_newline);
    // The lyrics begin after as many blanks in the text as they have alone.
    let blanks: int = run_end(lyrics, 0, CharClass::Blank);
    lemma_run_end(lyrics, 0, CharClass::Blank);
    lemma_run_end_is(text, at_lyrics, CharClass::Blank, at_lyrics + blanks);
    assert(text.subrange(0, name.len() as int) =~= name);
    assert(text.subrange(at_lyrics + blanks, text.len() as int) =~= strip_leading_blanks(lyrics));
}

/// A text that is empty or begins with a newline has an empty title, and
/// is turned down for it; no other text has an empty title.
pub proof fn lemma_empty_name_fails(text: Seq<char>)
    ensures
        name_end(text) == 0 <==> text.len() == 0 || text[0] == '\n',
        name_end(text) == 0 ==> parse_song_text(text) == Err::<SongText, _>(
            StructuralParseFailure::EmptyName,
        ),
{
    lemma_run_end(text, 0, CharClass::Line);
}

/// A text with nothing where the tempo is expected, or with something
/// other than a digit there, is turned down: for its empty title if it
/// has one, else for the missing tempo.
pub proof fn lemma_missing_bpm_fails(text: Seq<char>)
    requires
        bpm_start(text) >= text.len() || !is_digit(text[bpm_start(text)]),
    ensures
        parse_song_text(text) is Err,
        name_end(text) > 0 ==> parse_song_text(text) == Err::<SongText, _>(
            StructuralParseFailure::MissingBpm,
        ),
{
    lemma_run_end(text, 0, CharClass::Line);
    if name_end(text) + 1 <= text.len() {
        lemma_run_end(text, name_end(text) + 1, CharClass::Blank);
    }
}

} // verus!
