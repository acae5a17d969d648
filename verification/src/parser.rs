//! The parser of song descriptions: a state machine that reads the text
//! once, character by character, and is proved to find the parts that
//! the format defines.

use vstd::prelude::*;
use crate::format::{
    bpm_end, bpm_line_end, bpm_start, bpm_value, decimal_value, digit_value, is_blank, is_digit,
    lemma_decimal_value_push, lemma_run_end_is, lyrics_start, name_end,
    parse_song_text, CharClass, SongText,
};
use crate::scanner::ScanState;
use crate::song::{Song, SongView, StructuralParseFailure};

verus! {

broadcast use vstd::string::group_string_axioms;

/// `String::push` of the standard library: it appends the character to
/// the end of the string.
pub assume_specification[ String::push ](s: &mut String, c: char)
    ensures
        final(s)@ == old(s)@.push(c),
;

/// Whether a parse result is the one that the format gives for `text`:
/// the song made of the parts of `text` and of `audio_data`, not scanned
/// yet, or the reason for which `text` is no song description.
pub open spec fn is_parse_of<A>(
    result: Result<Song<A>, StructuralParseFailure>,
    text: Seq<char>,
    audio_data: A,
) -> bool {
    match parse_song_text(text) {
        Ok(parts) => result is Ok && result->Ok_0@ == (SongView {
            name: parts.name,
            bpm: parts.bpm,
            lyrics: parts.lyrics,
            scan_state: ScanState::initial(),
        }) && result->Ok_0.audio() == audio_data,
        Err(failure) => result == Err::<Song<A>, _>(failure),
    }
}

/// Parsing is a function of the text alone: two parses of one text agree
/// on whether it is a song description, on the reason if it is none, and
/// on title, tempo and lyrics if it is one, whatever audio handles they
/// were given.
pub proof fn lemma_parse_depends_on_text_alone<A, B>(
    text: Seq<char>,
    first_audio: A,
    first: Result<Song<A>, StructuralParseFailure>,
    second_audio: B,
    second: Result<Song<B>, StructuralParseFailure>,
)
    requires
        is_parse_of(first, text, first_audio),
        is_parse_of(second, text, second_audio),
    ensures
        first is Ok <==> second is Ok,
        first is Ok ==> first->Ok_0@ == second->Ok_0@,
        first is Err ==> first->Err_0 == second->Err_0,
{
}

/// Whether `c` is a blank character.
fn blank(c: char) -> (b: bool)
    ensures
        b == is_blank(c),
{
    c == '\n' || c == ' ' || c == '\t'
}

/// The number that `c` stands for, if `c` is an ASCII digit.
fn digit(c: char) -> (d: Option<u32>)
    ensures
        d is Some == is_digit(c),
        d is Some ==> d->Some_0 == digit_value(c),
{
    if c >= '0' && c <= '9' {
        Some(c as u32 - '0' as u32)
    } else {
        None
    }
}

/// The states of the parser, in the order in which it passes through
/// them. It never goes back.
enum ParserState {
    FindingName,
    FindingBpm,
    DiscardingRestOfLine,
    SkippingLeadingWhitespace,
    FindingLyrics,
}

impl ParserState {
    /// The place of the state in that order.
    spec fn rank(self) -> int {
        match self {
            ParserState::FindingName => 0,
            ParserState::FindingBpm => 1,
            ParserState::DiscardingRestOfLine => 2,
            ParserState::SkippingLeadingWhitespace => 3,
            ParserState::FindingLyrics => 4,
        }
    }
}

/// The parser while it reads: its state and what it has gathered.
struct Reader {
    state: ParserState,
    name: String,
    seen_digit: bool,
    tempo: u32,
    overflow: bool,
    lyrics: String,
}

impl Reader {
    /// The title is complete and not empty.
    spec fn name_found(&self, text: Seq<char>, read: int) -> bool {
        &&& 0 < name_end(text) < read
        &&& self.name@ == text.subrange(0, name_end(text))
    }

    /// The tempo is complete, fits and is not zero.
    spec fn bpm_found(&self, text: Seq<char>, read: int) -> bool {
        &&& name_end(text) < bpm_start(text) < bpm_end(text) < read
        &&& self.tempo == bpm_value(text)
        &&& self.tempo > 0
    }

    /// The digits read so far are the start of the tempo, and `tempo`
    /// and `overflow` say what they are worth.
    spec fn digits_read(&self, text: Seq<char>, read: int) -> bool {
        let value = decimal_value(text.subrange(bpm_start(text), read));
        &&& name_end(text) < bpm_start(text) < read
        &&& forall|i: int| bpm_start(text) <= i < read ==> is_digit(#[trigger] text[i])
        &&& self.overflow ==> value > u32::MAX
        &&& !self.overflow ==> self.tempo == value
    }

    /// The reader is where the format says it is after the first `read`
    /// characters of `text`.
    spec fn agrees(&self, text: Seq<char>, read: int) -> bool {
        &&& 0 <= read <= text.len()
        &&& !self.seen_digit ==> self.tempo == 0 && !self.overflow
        &&& match self.state {
            ParserState::FindingName => {
                &&& !self.seen_digit
                &&& self.name@ == text.subrange(0, read)
                &&& self.lyrics@.len() == 0
                &&& forall|i: int| 0 <= i < read ==> #[trigger] text[i] != '\n'
            },
            ParserState::FindingBpm => {
                &&& self.name_found(text, read)
                &&& self.lyrics@.len() == 0
                &&& if self.seen_digit {
                    self.digits_read(text, read)
                } else {
                    forall|i: int| name_end(text) < i < read ==> is_blank(#[trigger] text[i])
                }
            },
            ParserState::DiscardingRestOfLine => {
                &&& self.name_found(text, read)
                &&& self.bpm_found(text, read)
                &&& self.lyrics@.len() == 0
                &&& forall|i: int| bpm_end(text) <= i < read ==> #[trigger] text[i] != '\n'
            },
            ParserState::SkippingLeadingWhitespace => {
                &&& self.name_found(text, read)
                &&& self.bpm_found(text, read)
                &&& self.lyrics@.len() == 0
                &&& bpm_end(text) <= bpm_line_end(text) < read
                &&& forall|i: int| bpm_line_end(text) < i < read ==> is_blank(#[trigger] text[i])
            },
            ParserState::FindingLyrics => {
                &&& self.name_found(text, read)
                &&& self.bpm_found(text, read)
                &&& bpm_end(text) <= bpm_line_end(text) < lyrics_start(text) < read
                &&& self.lyrics@ == text.subrange(lyrics_start(text), read)
            },
        }
    }

    /// A reader that has read nothing yet.
    fn new() -> (reader: Self)
        ensures
            forall|text: Seq<char>| #[trigger] reader.agrees(text, 0),
    {
        let reader = Reader {
            state: ParserState::FindingName,
            name: String::new(),
            seen_digit: false,
            tempo: 0,
            overflow: false,
            lyrics: String::new(),
        };
        assert forall|text: Seq<char>| #[trigger] reader.agrees(text, 0) by {
            assert(reader.name@ =~= text.subrange(0, 0));
        }
        reader
    }

    /// Takes one more digit into the tempo.
    fn read_digit(&mut self, d: u32, Ghost(text): Ghost<Seq<char>>, Ghost(at): Ghost<int>)
        requires
            0 <= at < text.len(),
            is_digit(text[at]),
            d == digit_value(text[at]),
            old(self).state is FindingBpm,
            old(self).name_found(text, at),
            old(self).lyrics@.len() == 0,
            if old(self).seen_digit {
                old(self).digits_read(text, at)
            } else {
                &&& bpm_start(text) == at
                &&& old(self).tempo == 0
                &&& !old(self).overflow
            },
        ensures
            final(self).agrees(text, at + 1),
            final(self).state is FindingBpm,
    {
        proof {
            lemma_decimal_value_push(text, bpm_start(text), at);
        }
        self.seen_digit = true;
        if !self.overflow {
            let value: u64 = 10 * (self.tempo as u64) + (d as u64);
            if value > 0xffff_ffff {
                self.overflow = true;
            } else {
                self.tempo = value as u32;
            }
        }
    }

    /// What the tempo is worth once its digits have ended.
    fn settle_tempo(&self, Ghost(text): Ghost<Seq<char>>, Ghost(at): Ghost<int>) -> (settled: Result<
        (),
        StructuralParseFailure,
    >)
        requires
            self.state is FindingBpm,
            self.seen_digit,
            0 <= at <= text.len(),
            self.name_found(text, at),
            self.digits_read(text, at),
            bpm_end(text) == at,
        ensures
            settled is Ok ==> self.tempo == bpm_value(text) && self.tempo > 0,
            settled is Err ==> parse_song_text(text) == Err::<SongText, _>(settled->Err_0),
    {
        if self.overflow {
            Err(StructuralParseFailure::BpmOverflow)
        } else if self.tempo == 0 {
            Err(StructuralParseFailure::InvalidTempo)
        } else {
            Ok(())
        }
    }

    /// Reads the character at position `at` of `text`.
    fn read(&mut self, c: char, Ghost(text): Ghost<Seq<char>>, Ghost(at): Ghost<int>) -> (read: Result<
        (),
        StructuralParseFailure,
    >)
        requires
            old(self).agrees(text, at),
            0 <= at < text.len(),
            text[at] == c,
        ensures
            read is Ok ==> final(self).agrees(text, at + 1),
            read is Ok ==> final(self).state.rank() >= old(self).state.rank(),
            read is Err ==> parse_song_text(text) == Err::<SongText, _>(read->Err_0),
    {
        match self.state {
            ParserState::FindingName => {
                if c == '\n' {
                    if self.name.as_str().is_empty() {
                        return Err(StructuralParseFailure::EmptyName);
                    }
                    proof {
                        lemma_run_end_is(text, 0, CharClass::Line, at);
                    }
                    self.state = ParserState::FindingBpm;
                } else {
                    self.name.push(c);
                    assert(self.name@ =~= text.subrange(0, at + 1));
                }
                Ok(())
            },
            ParserState::FindingBpm => {
                if !self.seen_digit && blank(c) {
                    return Ok(());
                }
                proof {
                    if !self.seen_digit {
                        lemma_run_end_is(text, name_end(text) + 1, CharClass::Blank, at);
                    }
                }
                match digit(c) {
                    Some(d) => {
                        self.read_digit(d, Ghost(text), Ghost(at));
                        Ok(())
                    },
                    None => {
                        if !self.seen_digit {
                            return Err(StructuralParseFailure::MissingBpm);
                        }
                        proof {
                            lemma_run_end_is(text, bpm_start(text), CharClass::Digit, at);
                        }
                        match self.settle_tempo(Ghost(text), Ghost(at)) {
                            Ok(()) => {},
                            Err(failure) => {
                                return Err(failure);
                            },
                        }
                        if c == '\n' {
                            self.state = ParserState::SkippingLeadingWhitespace;
                        } else {
                            self.state = ParserState::DiscardingRestOfLine;
                        }
                        Ok(())
                    },
                }
            },
            ParserState::DiscardingRestOfLine => {
                if c == '\n' {
                    proof {
                        lemma_run_end_is(text, bpm_end(text), CharClass::Line, at);
                    }
                    self.state = ParserState::SkippingLeadingWhitespace;
                }
                Ok(())
            },
            ParserState::SkippingLeadingWhitespace => {
                if !blank(c) {
                    proof {
                        lemma_run_end_is(text, bpm_line_end(text) + 1, CharClass::Blank, at);
                    }
                    self.lyrics.push(c);
                    assert(self.lyrics@ =~= text.subrange(at, at + 1));
                    self.state = ParserState::FindingLyrics;
                }
                Ok(())
            },
            ParserState::FindingLyrics => {
                self.lyrics.push(c);
                assert(self.lyrics@ =~= text.subrange(lyrics_start(text), at + 1));
                Ok(())
            },
        }
    }

    /// Ends the reading at the end of `text`.
    fn finish<A>(self, audio_data: A, Ghost(text): Ghost<Seq<char>>) -> (result: Result<
        Song<A>,
        StructuralParseFailure,
    >)
        requires
            self.agrees(text, text.len() as int),
        ensures
            is_parse_of(result, text, audio_data),
    {
        let ghost end = text.len() as int;
        match self.state {
            ParserState::FindingName => {
                proof {
                    lemma_run_end_is(text, 0, CharClass::Line, end);
                }
                if self.name.as_str().is_empty() {
                    return Err(StructuralParseFailure::EmptyName);
                }
                return Err(StructuralParseFailure::MissingBpm);
            },
            ParserState::FindingBpm => {
                if !self.seen_digit {
                    proof {
                        lemma_run_end_is(text, name_end(text) + 1, CharClass::Blank, end);
                    }
                    return Err(StructuralParseFailure::MissingBpm);
                }
                proof {
                    lemma_run_end_is(text, bpm_start(text), CharClass::Digit, end);
                }
                match self.settle_tempo(Ghost(text), Ghost(end)) {
                    Ok(()) => {},
                    Err(failure) => {
                        return Err(failure);
                    },
                }
            },
            ParserState::DiscardingRestOfLine => {
                proof {
                    lemma_run_end_is(text, bpm_end(text), CharClass::Line, end);
                }
            },
            ParserState::SkippingLeadingWhitespace => {
                proof {
                    lemma_run_end_is(text, bpm_line_end(text) + 1, CharClass::Blank, end);
                }
            },
            ParserState::FindingLyrics => {},
        }
        assert(self.lyrics@ =~= text.subrange(lyrics_start(text), end));
        Song::new(audio_data, self.name, self.tempo, self.lyrics)
    }
}

/// Reads a song description and makes the song, which carries
/// `audio_data`.
pub fn try_get_song_from_text<A>(audio_data: A, song_data: &str) -> (result: Result<
    Song<A>,
    StructuralParseFailure,
>)
    ensures
        is_parse_of(result, song_data@, audio_data),
{
    let mut reader = Reader::new();
    for c in it: song_data.chars()
        invariant
            it.seq() == song_data@,
            reader.agrees(song_data@, it.index()),
    {
        match reader.read(c, Ghost(song_data@), Ghost(it.index())) {
            Ok(()) => {},
            Err(failure) => {
                return Err(failure);
            },
        }
    }
    reader.finish(audio_data, Ghost(song_data@))
}

} // verus!
