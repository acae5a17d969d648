//! Song descriptions and their lyric timelines.
//!
//! A song description is a short text: a title line, a tempo line, and a
//! lyrics body in which a handful of markup characters stand for pauses.
//! This crate splits such a text into its parts and turns the lyrics into
//! an ordered sequence of print and pause operations.

pub mod breakpoint;
pub mod format;
pub mod operation;
pub mod parser;
pub mod scanner;
pub mod song;

pub use breakpoint::{breakpoints, find_breakpoint, Breakpoint};
pub use operation::{Interval, Operation};
pub use parser::try_get_song_from_text;
pub use scanner::{scan_lyrics, scan_step, ScanState};
pub use song::{Song, SongView, StructuralParseFailure};
