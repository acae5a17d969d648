//! The song: title, tempo and lyrics, the caller's audio handle, and the
//! scanner state that the song keeps between scans.

use vstd::prelude::*;
use crate::operation::Operation;
use crate::scanner::{scan_lyrics, scan_operations, scan_state, ScanState};

verus! {

/// Why a song could not be made.
#[derive(Clone, Copy, Debug, PartialEq, Eq, Structural)]
pub enum StructuralParseFailure {
    /// The title is empty.
    EmptyName,
    /// No digit stands where the tempo is expected.
    MissingBpm,
    /// The tempo does not fit in 32 bits.
    BpmOverflow,
    /// The tempo is zero.
    InvalidTempo,
}

/// A song. `A` is the caller's audio handle, which the song carries and
/// never looks at.
pub struct Song<A> {
    data: A,
    bpm: u32,
    name: String,
    lyrics: String,
    scan_state: ScanState,
}

/// What a song holds, the audio handle aside.
pub struct SongView {
    pub name: Seq<char>,
    pub bpm: u32,
    pub lyrics: Seq<char>,
    pub scan_state: ScanState,
}

impl<A> View for Song<A> {
    type V = SongView;

    closed spec fn view(&self) -> SongView {
        SongView {
            name: self.name@,
            bpm: self.bpm,
            lyrics: self.lyrics@,
            scan_state: self.scan_state,
        }
    }
}

impl<A> Song<A> {
    /// Every song has a title and a tempo above zero.
    #[verifier::type_invariant]
    spec fn well_formed(self) -> bool {
        self.name@.len() > 0 && self.bpm > 0
    }

    /// The audio handle that the song carries.
    pub closed spec fn audio(&self) -> A {
        self.data
    }

    /// Makes a song that has not been scanned yet. A song has a title and
    /// a tempo above zero: anything else is turned down.
    pub fn new(data: A, name: String, bpm: u32, lyrics: String) -> (made: Result<
        Self,
        StructuralParseFailure,
    >)
        ensures
            name@.len() == 0 ==> made == Err::<Self, _>(StructuralParseFailure::EmptyName),
            name@.len() > 0 && bpm == 0 ==> made == Err::<Self, _>(
                StructuralParseFailure::InvalidTempo,
            ),
            name@.len() > 0 && bpm > 0 ==> made is Ok && made->Ok_0@ == (SongView {
                name: name@,
                bpm,
                lyrics: lyrics@,
                scan_state: ScanState::initial(),
            }) && made->Ok_0.audio() == data,
    {
        if name.as_str().is_empty() {
            return Err(StructuralParseFailure::EmptyName);
        }
        if bpm == 0 {
            return Err(StructuralParseFailure::InvalidTempo);
        }
        Ok(Song { data, name, bpm, lyrics, scan_state: ScanState::default() })
    }

    /// The title, which is never empty.
    pub fn name(&self) -> (name: &str)
        ensures
            name@ == self@.name,
            name@.len() > 0,
    {
        proof {
            use_type_invariant(self);
        }
        self.name.as_str()
    }

    /// The tempo in beats per minute, which is never zero.
    pub fn bpm(&self) -> (bpm: u32)
        ensures
            bpm == self@.bpm,
            bpm > 0,
    {
        proof {
            use_type_invariant(self);
        }
        self.bpm
    }

    /// The lyrics, with their markup.
    pub fn lyrics(&self) -> (lyrics: &str)
        ensures
            lyrics@ == self@.lyrics,
    {
        self.lyrics.as_str()
    }

    /// The audio handle.
    pub fn data(&self) -> (data: &A)
        ensures
            *data == self.audio(),
    {
        &self.data
    }

    /// The state in which the next scan of the lyrics will begin.
    pub fn scan_state(&self) -> (state: ScanState)
        ensures
            state == self@.scan_state,
    {
        self.scan_state
    }

    /// Scans the lyrics from their start and returns the timeline. The
    /// scan begins in the state in which the last scan of this song ended.
    pub fn parse_lyrics(&mut self) -> (operations: Vec<Operation>)
        ensures
            operations@ == scan_operations(old(self)@.lyrics, old(self)@.bpm, old(self)@.scan_state),
            final(self)@ == (SongView {
                scan_state: scan_state(old(self)@.lyrics, old(self)@.scan_state),
                ..old(self)@
            }),
            final(self).audio() == old(self).audio(),
            operations@.len() <= old(self)@.lyrics.len(),
    {
        proof {
            use_type_invariant(&*self);
        }
        let mut state = self.scan_state;
        let operations = scan_lyrics(self.lyrics.as_str(), self.bpm, &mut state);
        self.scan_state = state;
        operations
    }
}

} // verus!
