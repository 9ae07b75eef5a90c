use music_theory::chord::{KnownChord, NoteChord, PitchChord};
use music_theory::{AccidentalSign, Letter, Note, Pitch};

fn note(text: &str) -> Note {
    let mut chars = text.chars();
    let letter = match chars.next().expect("letter") {
        'C' => Letter::C,
        'D' => Letter::D,
        'E' => Letter::E,
        'F' => Letter::F,
        'G' => Letter::G,
        'A' => Letter::A,
        'B' => Letter::B,
        other => panic!("bad letter {other}"),
    };
    let rest: String = chars.collect();
    let mut offset: i16 = 0;
    let mut digits = String::new();
    for c in rest.chars() {
        match c {
            'b' => offset -= 1,
            '#' => offset += 1,
            d => digits.push(d),
        }
    }
    let octave: i16 = digits.parse().expect("octave");
    Note { pitch: Pitch { letter, accidental: AccidentalSign { offset } }, octave }
}

fn parse_chord(chord: &str) -> NoteChord {
    let notes: Vec<Note> = chord.split(' ').map(note).collect();
    NoteChord::new(&notes).expect("valid chord")
}

fn test_by(cases: &[(&str, &str)], test: impl Fn(NoteChord) -> Vec<Note>) {
    for (input_str, closed_str) in cases {
        let input = parse_chord(input_str);
        let exp = parse_chord(closed_str);
        assert_eq!(
            test(input).as_slice(), exp.notes(),
            "failed for input {input_str}, expected: {closed_str}",
        );
    }
}

#[test]
fn closed_position_separate_steps() {
    let cases = [
        ("C4 E4 G4", "C4 E4 G4"),
        ("C3 G4 E6", "C3 E3 G3"),
        ("C4 E4 G4 C5", "C4 E4 G4"),
        ("C4 D4 E4 G4 Bb4", "C4 E4 G4 Bb4 D5"),
        ("E3 G3 C4", "E3 G3 C4"),
        ("C4 E5 G5 Bb5 D6", "C4 E4 G4 Bb4 D5"),
        ("E2 Bb3 D4 G4 C5", "E2 G2 Bb2 C3 D3"),
        ("G4 C5 E6 Bb6 D7", "G4 Bb4 C5 D5 E5"),
        ("Bb4 C6 E6 D7 G7", "Bb4 C5 D5 E5 G5"),
        ("D4 E5 Bb5 G6 C7", "D4 E4 G4 Bb4 C5"),
        ("C4 E4 G4 Bb4 Eb5", "C4 E4 G4 Bb4 Eb5"),
        ("C4 Eb4 G4 E5", "C4 Eb4 G4 E5"),
        ("G3 C4 Eb4 E4 Bb4", "G3 Bb3 C4 Eb4 E5"),
    ];

    test_by(&cases, |nc| nc.closed_position(true).notes().to_vec());
}

#[test]
fn closed_position_no_separate_steps() {
    let cases = [
        ("C4 E4 G4 Bb4 Eb5", "C4 Eb4 E4 G4 Bb4"),
    ];

    test_by(&cases, |nc| nc.closed_position(false).notes().to_vec());
}

#[test]
fn new_sorts_and_dedups() {
    let notes = vec![note("G4"), note("C4"), note("E4"), note("C4")];
    let chord = NoteChord::new(&notes).expect("not empty");
    assert_eq!(chord.notes(), &[note("C4"), note("E4"), note("G4")]);
    assert_eq!(chord.len(), 3);
    assert!(!chord.is_empty());
    assert_eq!(chord.root(), Pitch::C());
    assert_eq!(chord.bass(), note("C4"));
    assert!(chord.contains_pitch(Pitch::E()));
    assert!(!chord.contains_pitch(Pitch::D()));
    assert!(chord.contains_note(note("G4")));
    assert!(!chord.contains_note(note("G5")));
    assert_eq!(chord.inversion(), 0);
}

#[test]
fn new_of_nothing_is_none() {
    assert!(NoteChord::new(&[]).is_none());
}

#[test]
fn with_root_needs_the_root_among_the_notes() {
    let notes = vec![note("E4"), note("G4"), note("C5")];
    assert!(NoteChord::with_root(&notes, Pitch::D()).is_none());
    let chord = NoteChord::with_root(&notes, Pitch::E()).expect("E is a note");
    assert_eq!(chord.root(), Pitch::E());
    assert_eq!(chord.bass(), note("E4"));
}

#[test]
fn first_inversion_reports_its_bass() {
    let chord = parse_chord("E3 G3 C4");
    assert_eq!(chord.root(), Pitch::C());
    assert_eq!(chord.as_pitch_chord().bass(), Pitch::E());
    assert_eq!(chord.inversion(), 1);
    let shape = chord.as_pitch_chord().shape().intervals().to_vec();
    assert_eq!(shape.len(), 3);
}

#[test]
fn dedup_by_pitch_keeps_first_notes() {
    let chord = parse_chord("C4 E4 G4 C5 E5");
    let deduped = chord.dedup_by_pitch();
    assert_eq!(deduped.notes(), &[note("C4"), note("E4"), note("G4")]);
    assert_eq!(deduped.root(), Pitch::C());
}

#[test]
fn pitch_class_set_of_notes() {
    let chord = parse_chord("C4 E4 G4 C5");
    let set = chord.pitch_class_set();
    assert!(set.is_set(music_theory::PitchClass::C));
    assert!(set.is_set(music_theory::PitchClass::E));
    assert!(set.is_set(music_theory::PitchClass::G));
    assert!(!set.is_set(music_theory::PitchClass::D));
    assert_eq!(set.len(), 3);
}

#[test]
fn compact_position_without_separating() {
    let chord = parse_chord("E3 G3 C4");
    assert_eq!(chord.compact_position(false).notes(), &[note("E3"), note("G3"), note("C4")]);
    let chord = parse_chord("C4 E5 G5 Bb5 D6");
    assert_eq!(
        chord.compact_position(false).notes(),
        &[note("C4"), note("D4"), note("E4"), note("G4"), note("Bb4")]
    );
    let chord = parse_chord("C4 E4 Eb5 G5");
    assert_eq!(chord.compact_position(false).notes(), &[note("C4"), note("Eb4"), note("E4"), note("G4")]);
}

#[test]
fn compact_position_separating_steps() {
    let chord = parse_chord("C4 E4 Eb5 G5");
    let compact = chord.compact_position(true);
    assert_eq!(compact.notes(), &[note("C4"), note("E4"), note("G4"), note("Eb5")]);
    assert_eq!(compact.root(), Pitch::C());
}

#[test]
fn transpose_moves_notes_and_root() {
    let chord = parse_chord("C4 E4 G4");
    let moved = chord.transpose(music_theory::Interval::MAJOR_SECOND());
    assert_eq!(moved.notes(), &[note("D4"), note("F#4"), note("A4")]);
    assert_eq!(moved.root(), Pitch::D());
    assert_eq!(moved.as_pitch_chord().bass(), Pitch::D());
}

#[test]
fn from_pitch_chord_voices_from_the_bass() {
    let pc = PitchChord::new(Pitch::C(), KnownChord::MajorTriad.shape());
    let chord = NoteChord::from_pitch_chord(&pc, 4);
    assert_eq!(chord.notes(), &[note("C4"), note("E4"), note("G4")]);
    assert_eq!(chord.root(), Pitch::C());
}

#[test]
fn closed_position_inversion_without_separating() {
    let chord = parse_chord("E3 G4 C6");
    let closed = chord.closed_position(false);
    assert_eq!(closed.notes(), &[note("E3"), note("G3"), note("C4")]);
    assert_eq!(closed.root(), Pitch::C());
    assert_eq!(closed.as_pitch_chord().bass(), Pitch::E());
    assert_eq!(closed.bass(), chord.bass());
}

#[test]
fn closed_position_keeps_shape_of_closed_voicing() {
    let chord = parse_chord("C3 G4 E6");
    let closed = chord.closed_position(true);
    let shape = closed.as_pitch_chord().shape().intervals().to_vec();
    assert_eq!(
        shape,
        vec![
            music_theory::Interval::PERFECT_UNISON(),
            music_theory::Interval::MAJOR_THIRD(),
            music_theory::Interval::PERFECT_FIFTH(),
        ]
    );
}

#[test]
fn clone_is_equal() {
    let chord = parse_chord("E3 G3 C4");
    let copy = chord.clone();
    assert_eq!(copy, chord);
    assert_eq!(copy.notes(), chord.notes());
}
