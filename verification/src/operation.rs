//! The operations of a lyric timeline.

use vstd::prelude::*;

verus! {

/// A length of time, held exactly: `60 * length / (signature * bpm)`
/// seconds, the time that `length / signature` beats take at `bpm` beats
/// per minute.
#[derive(Clone, Copy, Debug, PartialEq, Eq, Structural)]
pub struct Interval {
    pub length: u32,
    pub signature: u32,
    pub bpm: u32,
}

impl Interval {
    /// Whether the interval denotes a time at all: neither the beat unit
    /// nor the tempo is zero.
    pub open spec fn is_valid(self) -> bool {
        self.signature > 0 && self.bpm > 0
    }

    /// Numerator of the interval in seconds.
    pub open spec fn seconds_numerator(self) -> int {
        60 * self.length
    }

    /// Denominator of the interval in seconds.
    pub open spec fn seconds_denominator(self) -> int {
        self.signature * self.bpm
    }

    /// The interval in whole nanoseconds, rounded down.
    pub open spec fn nanos(self) -> int
        recommends
            self.is_valid(),
    {
        (self.seconds_numerator() * 1_000_000_000) / self.seconds_denominator()
    }

    /// The interval in whole nanoseconds, rounded down, or `None` for an
    /// interval that denotes no time.
    pub fn as_nanos(&self) -> (nanos: Option<u128>)
        ensures
            self.is_valid() ==> nanos == Some(self.nanos() as u128),
            self.is_valid() ==> 0 <= self.nanos() <= 60 * 1_000_000_000 * u32::MAX,
            !self.is_valid() ==> nanos is None,
    {
        if self.signature == 0 || self.bpm == 0 {
            return None;
        }
        let numerator: u128 = 60 * (self.length as u128) * 1_000_000_000;
        assert(1 <= self.signature * self.bpm <= 0xffff_ffff * 0xffff_ffff) by (nonlinear_arith)
            requires
                1 <= self.signature <= 0xffff_ffff,
                1 <= self.bpm <= 0xffff_ffff,
        ;
        let denominator: u128 = (self.signature as u128) * (self.bpm as u128);
        assert(0 <= numerator / denominator <= numerator) by (nonlinear_arith)
            requires
                denominator >= 1,
                numerator >= 0,
        ;
        Some(numerator / denominator)
    }
}

/// One unit of the timeline: show a character, or wait.
#[derive(Clone, Copy, Debug, PartialEq, Eq, Structural)]
pub enum Operation {
    Print(char),
    Pause(Interval),
}

} // verus!
