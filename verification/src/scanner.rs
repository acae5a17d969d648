//! The lyrics scanner: one forward pass over the lyrics, character by
//! character, that yields the timeline.

use vstd::prelude::*;
use crate::breakpoint::{breakpoint_for, find_breakpoint, lemma_breakpoint_for};
use crate::operation::{Interval, Operation};

verus! {

broadcast use vstd::string::group_string_axioms;

/// What the scanner remembers from one character to the next.
#[derive(Clone, Copy, Debug, PartialEq, Eq, Structural)]
pub struct ScanState {
    /// Set right after a pause: literal spaces that follow are dropped.
    pub ignore_spaces: bool,
    /// Set right after an escape marker: the next character is literal.
    pub escaped: bool,
}

impl ScanState {
    /// The state in which a scan begins.
    pub open spec fn initial() -> ScanState {
        ScanState { ignore_spaces: false, escaped: false }
    }
}

impl Default for ScanState {
    fn default() -> (state: Self)
        ensures
            state == ScanState::initial(),
    {
        ScanState { ignore_spaces: false, escaped: false }
    }
}

/// The escape marker.
pub open spec fn is_escape(c: char) -> bool {
    c == '\\'
}

/// The state after the scanner has read `c` in `state`.
pub open spec fn step_state(state: ScanState, c: char) -> ScanState {
    if state.escaped {
        ScanState { escaped: false, ..state }
    } else if is_escape(c) {
        ScanState { escaped: true, ..state }
    } else if breakpoint_for(c) is Some {
        ScanState { ignore_spaces: true, ..state }
    } else if state.ignore_spaces && c == ' ' {
        state
    } else {
        ScanState { ignore_spaces: false, ..state }
    }
}

/// What the scanner emits when it reads `c` in `state` at tempo `bpm`.
pub open spec fn step_output(state: ScanState, c: char, bpm: u32) -> Option<Operation> {
    if state.escaped {
        Some(Operation::Print(c))
    } else if is_escape(c) {
        None
    } else if let Some(breakpoint) = breakpoint_for(c) {
        Some(
            Operation::Pause(
                Interval { length: breakpoint.length, signature: breakpoint.signature, bpm },
            ),
        )
    } else if state.ignore_spaces && c == ' ' {
        None
    } else {
        Some(Operation::Print(c))
    }
}

/// The state after the scanner has read all of `lyrics`, starting in `state`.
pub open spec fn scan_state(lyrics: Seq<char>, state: ScanState) -> ScanState
    decreases lyrics.len(),
{
    if lyrics.len() == 0 {
        state
    } else {
        step_state(scan_state(lyrics.drop_last(), state), lyrics.last())
    }
}

/// The timeline of `lyrics` at tempo `bpm`, for a scanner that starts in
/// `state`.
pub open spec fn scan_operations(lyrics: Seq<char>, bpm: u32, state: ScanState) -> Seq<Operation>
    decreases lyrics.len(),
{
    if lyrics.len() == 0 {
        Seq::empty()
    } else {
        let before = scan_operations(lyrics.drop_last(), bpm, state);
        match step_output(scan_state(lyrics.drop_last(), state), lyrics.last(), bpm) {
            Some(operation) => before.push(operation),
            None => before,
        }
    }
}

/// A timeline is never longer than its lyrics: each character yields one
/// operation or none.
pub proof fn lemma_scan_operations_len(lyrics: Seq<char>, bpm: u32, state: ScanState)
    ensures
        scan_operations(lyrics, bpm, state).len() <= lyrics.len(),
    decreases lyrics.len(),
{
    if lyrics.len() > 0 {
        lemma_scan_operations_len(lyrics.drop_last(), bpm, state);
    }
}

/// At a tempo above zero every pause of a timeline denotes a time, and it
/// is a pause at that tempo.
pub proof fn lemma_scan_pauses_valid(lyrics: Seq<char>, bpm: u32, state: ScanState)
    requires
        bpm > 0,
    ensures
        forall|i: int|
            0 <= i < scan_operations(lyrics, bpm, state).len() ==> (#[trigger] scan_operations(
                lyrics,
                bpm,
                state,
            )[i] matches Operation::Pause(interval) ==> interval.is_valid() && interval.bpm
                == bpm),
    decreases lyrics.len(),
{
    if lyrics.len() > 0 {
        lemma_scan_pauses_valid(lyrics.drop_last(), bpm, state);
        lemma_breakpoint_for(lyrics.last());
    }
}

/// Reads one character: moves `state` on and returns what is emitted.
pub fn scan_step(state: &mut ScanState, c: char, bpm: u32) -> (emitted: Option<Operation>)
    requires
        bpm > 0,
    ensures
        *final(state) == step_state(*old(state), c),
        emitted == step_output(*old(state), c, bpm),
{
    if state.escaped {
        state.escaped = false;
        return Some(Operation::Print(c));
    }
    if c == '\\' {
        state.escaped = true;
        return None;
    }
    match find_breakpoint(c) {
        Some(breakpoint) => {
            state.ignore_spaces = true;
            Some(
                Operation::Pause(
                    Interval { length: breakpoint.length, signature: breakpoint.signature, bpm },
                ),
            )
        },
        None => {
            if state.ignore_spaces && c == ' ' {
                None
            } else {
                state.ignore_spaces = false;
                Some(Operation::Print(c))
            }
        },
    }
}

/// Scans `lyrics` from its start at tempo `bpm`. The scan begins in
/// `state` and leaves there the state in which it ended.
pub fn scan_lyrics(lyrics: &str, bpm: u32, state: &mut ScanState) -> (operations: Vec<Operation>)
    requires
        bpm > 0,
    ensures
        operations@ == scan_operations(lyrics@, bpm, *old(state)),
        *final(state) == scan_state(lyrics@, *old(state)),
        operations@.len() <= lyrics@.len(),
{
    let mut operations: Vec<Operation> = Vec::with_capacity(lyrics.len());
    for c in it: lyrics.chars()
        invariant
            bpm > 0,
            it.seq() == lyrics@,
            *state == scan_state(lyrics@.take(it.index()), *old(state)),
            operations@ == scan_operations(lyrics@.take(it.index()), bpm, *old(state)),
            operations@.len() <= it.index(),
    {
        assert(lyrics@.take(it.index() + 1).drop_last() =~= lyrics@.take(it.index()));
        match scan_step(state, c, bpm) {
            Some(operation) => operations.push(operation),
            None => {},
        }
    }
    assert(lyrics@.take(lyrics@.len() as int) =~= lyrics@);
    operations
}

} // verus!
