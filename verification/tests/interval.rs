use song_timeline::Interval;

#[test]
fn quarter_of_a_beat_at_120() {
    let interval = Interval { length: 1, signature: 4, bpm: 120 };
    assert_eq!(interval.as_nanos(), Some(125_000_000));
}

#[test]
fn four_beats_at_60() {
    let interval = Interval { length: 16, signature: 4, bpm: 60 };
    assert_eq!(interval.as_nanos(), Some(4_000_000_000));
}

#[test]
fn nanoseconds_are_rounded_down() {
    let interval = Interval { length: 1, signature: 4, bpm: 7 };
    assert_eq!(interval.as_nanos(), Some(2_142_857_142));
    let interval = Interval { length: 2, signature: 3, bpm: 1 };
    assert_eq!(interval.as_nanos(), Some(40_000_000_000));
    let interval = Interval { length: 1, signature: 4, bpm: u32::MAX };
    assert_eq!(interval.as_nanos(), Some(3));
}

#[test]
fn zero_length_is_no_time() {
    let interval = Interval { length: 0, signature: 4, bpm: 120 };
    assert_eq!(interval.as_nanos(), Some(0));
}

#[test]
fn longest_interval_fits() {
    let interval = Interval { length: u32::MAX, signature: 1, bpm: 1 };
    assert_eq!(interval.as_nanos(), Some(257_698_037_700_000_000_000));
}

#[test]
fn interval_without_tempo_or_beat_unit_has_no_length() {
    assert_eq!(Interval { length: 1, signature: 4, bpm: 0 }.as_nanos(), None);
    assert_eq!(Interval { length: 1, signature: 0, bpm: 120 }.as_nanos(), None);
    assert_eq!(Interval { length: 0, signature: 0, bpm: 0 }.as_nanos(), None);
}
