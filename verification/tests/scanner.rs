use song_timeline::{scan_lyrics, scan_step, Interval, Operation, ScanState};

fn scan(lyrics: &str, bpm: u32) -> Vec<Operation> {
    let mut state = ScanState::default();
    scan_lyrics(lyrics, bpm, &mut state)
}

fn print(text: &str) -> Vec<Operation> {
    text.chars().map(Operation::Print).collect()
}

fn pause(length: u32, bpm: u32) -> Operation {
    Operation::Pause(Interval { length, signature: 4, bpm })
}

#[test]
fn scan_state_starts_clear() {
    assert_eq!(ScanState::default(), ScanState { ignore_spaces: false, escaped: false });
}

#[test]
fn escaped_breakpoint_is_printed() {
    assert_eq!(
        scan("a\\#b", 120),
        vec![Operation::Print('a'), Operation::Print('#'), Operation::Print('b')]
    );
}

#[test]
fn breakpoint_becomes_a_pause() {
    let operations = scan("a#b", 120);
    assert_eq!(operations, vec![Operation::Print('a'), pause(1, 120), Operation::Print('b')]);
    match operations[1] {
        Operation::Pause(interval) => {
            assert_eq!(interval.as_nanos(), Some(125_000_000));
            let seconds = 60.0 * interval.length as f64 / interval.signature as f64
                / interval.bpm as f64;
            assert_eq!(seconds, 0.125);
        }
        Operation::Print(_) => panic!("a pause was expected"),
    }
}

#[test]
fn space_after_a_breakpoint_is_dropped() {
    assert_eq!(scan("# b", 100), vec![pause(1, 100), Operation::Print('b')]);
}

#[test]
fn spaces_after_a_breakpoint_are_dropped() {
    assert_eq!(scan("#  b", 100), vec![pause(1, 100), Operation::Print('b')]);
    assert_eq!(scan("#      b", 100), vec![pause(1, 100), Operation::Print('b')]);
}

#[test]
fn tab_after_a_breakpoint_is_printed() {
    assert_eq!(
        scan("#\tb", 100),
        vec![pause(1, 100), Operation::Print('\t'), Operation::Print('b')]
    );
}

#[test]
fn newline_after_a_breakpoint_is_printed() {
    assert_eq!(
        scan("#\n b", 100),
        vec![pause(1, 100), Operation::Print('\n'), Operation::Print(' '), Operation::Print('b')]
    );
}

#[test]
fn spaces_are_printed_once_a_character_came() {
    assert_eq!(
        scan("# a b", 100),
        vec![pause(1, 100), Operation::Print('a'), Operation::Print(' '), Operation::Print('b')]
    );
    assert_eq!(scan(" a b ", 100), print(" a b "));
}

#[test]
fn each_breakpoint_has_its_length() {
    assert_eq!(
        scan("#$%&?", 60),
        vec![pause(1, 60), pause(2, 60), pause(4, 60), pause(8, 60), pause(16, 60)]
    );
}

#[test]
fn breakpoints_in_a_row_keep_dropping_spaces() {
    assert_eq!(scan("# $  % x", 60), vec![pause(1, 60), pause(2, 60), pause(4, 60), Operation::Print('x')]);
}

#[test]
fn escape_makes_any_character_literal() {
    assert_eq!(scan("\\\\", 60), print("\\"));
    assert_eq!(scan("a\\\\#", 60), vec![Operation::Print('a'), Operation::Print('\\'), pause(1, 60)]);
    assert_eq!(scan("\\a\\ \\\n", 60), print("a \n"));
    assert_eq!(scan("\\$\\%\\&\\?", 60), print("$%&?"));
}

#[test]
fn escaped_space_after_a_breakpoint_is_printed() {
    assert_eq!(
        scan("# \\ b", 60),
        vec![pause(1, 60), Operation::Print(' '), Operation::Print('b')]
    );
    assert_eq!(
        scan("#\\  b", 60),
        vec![pause(1, 60), Operation::Print(' '), Operation::Print('b')]
    );
}

#[test]
fn trailing_escape_emits_nothing_and_stays_set() {
    let mut state = ScanState::default();
    assert_eq!(scan_lyrics("ab\\", 60, &mut state), print("ab"));
    assert_eq!(state, ScanState { ignore_spaces: false, escaped: true });
}

#[test]
fn trailing_breakpoint_leaves_spaces_ignored() {
    let mut state = ScanState::default();
    assert_eq!(scan_lyrics("ab# ", 60, &mut state), vec![
        Operation::Print('a'),
        Operation::Print('b'),
        pause(1, 60)
    ]);
    assert_eq!(state, ScanState { ignore_spaces: true, escaped: false });
}

#[test]
fn scan_begins_in_the_state_given() {
    let mut state = ScanState { ignore_spaces: true, escaped: false };
    assert_eq!(scan_lyrics("  a b", 60, &mut state), print("a b"));
    assert_eq!(state, ScanState::default());

    let mut state = ScanState { ignore_spaces: false, escaped: true };
    assert_eq!(scan_lyrics("#a", 60, &mut state), print("#a"));
    assert_eq!(state, ScanState::default());

    let mut state = ScanState { ignore_spaces: true, escaped: true };
    assert_eq!(scan_lyrics("  a", 60, &mut state), print(" a"));
    assert_eq!(state, ScanState::default());
}

#[test]
fn empty_lyrics_have_an_empty_timeline() {
    let mut state = ScanState { ignore_spaces: true, escaped: true };
    assert_eq!(scan_lyrics("", 60, &mut state), vec![]);
    assert_eq!(state, ScanState { ignore_spaces: true, escaped: true });
}

#[test]
fn characters_beyond_ascii_are_printed() {
    assert_eq!(
        scan("ré#mi \u{1F3B5}", 90),
        vec![
            Operation::Print('r'),
            Operation::Print('é'),
            pause(1, 90),
            Operation::Print('m'),
            Operation::Print('i'),
            Operation::Print(' '),
            Operation::Print('\u{1F3B5}'),
        ]
    );
}

#[test]
fn timeline_is_never_longer_than_the_lyrics() {
    for lyrics in ["", "abc", "a#b", "\\\\\\", "#   $   ", "\\#\\ \\", "# \\  a ? b"] {
        assert!(scan(lyrics, 33).len() <= lyrics.chars().count());
    }
    assert_eq!(scan("#   $   ", 33).len(), 2);
    assert_eq!(scan("\\\\\\", 33).len(), 1);
}

#[test]
fn pauses_carry_the_tempo() {
    assert_eq!(scan("?", 1), vec![Operation::Pause(Interval { length: 16, signature: 4, bpm: 1 })]);
    assert_eq!(
        scan("&", u32::MAX),
        vec![Operation::Pause(Interval { length: 8, signature: 4, bpm: u32::MAX })]
    );
}

#[test]
fn step_prints_an_ordinary_character() {
    let mut state = ScanState::default();
    assert_eq!(scan_step(&mut state, 'x', 60), Some(Operation::Print('x')));
    assert_eq!(state, ScanState::default());
    assert_eq!(scan_step(&mut state, ' ', 60), Some(Operation::Print(' ')));
    assert_eq!(state, ScanState::default());
}

#[test]
fn step_on_escape_sets_the_flag() {
    let mut state = ScanState { ignore_spaces: true, escaped: false };
    assert_eq!(scan_step(&mut state, '\\', 60), None);
    assert_eq!(state, ScanState { ignore_spaces: true, escaped: true });
    assert_eq!(scan_step(&mut state, '\\', 60), Some(Operation::Print('\\')));
    assert_eq!(state, ScanState { ignore_spaces: true, escaped: false });
}

#[test]
fn step_on_breakpoint_pauses_and_ignores_spaces() {
    let mut state = ScanState::default();
    assert_eq!(scan_step(&mut state, '%', 80), Some(pause(4, 80)));
    assert_eq!(state, ScanState { ignore_spaces: true, escaped: false });
    assert_eq!(scan_step(&mut state, ' ', 80), None);
    assert_eq!(state, ScanState { ignore_spaces: true, escaped: false });
    assert_eq!(scan_step(&mut state, '\t', 80), Some(Operation::Print('\t')));
    assert_eq!(state, ScanState::default());
}
