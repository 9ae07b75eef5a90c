use music_theory::chord::{
    closed_root_position_inner, dedup_by_pitch, find_root, separate_same_letter_by_octave,
};
use music_theory::{Note, Pitch};

fn n(pitch: Pitch, octave: i16) -> Note {
    Note::new(pitch, octave)
}

fn root_of(notes: &[Note]) -> Pitch {
    let pitches: Vec<Pitch> = notes.iter().map(|x| x.pitch).collect();
    find_root(&pitches).expect("not empty")
}

fn closed_separated(notes: &[Note]) -> Vec<Note> {
    let mut sorted = notes.to_vec();
    sorted.sort();
    sorted.dedup();
    let mut closed = closed_root_position_inner(root_of(&sorted), &sorted);
    separate_same_letter_by_octave(&mut closed);
    closed
}

#[test]
fn closed_root_position() {
    let input = vec![n(Pitch::E(), 3), n(Pitch::G(), 3), n(Pitch::C(), 4)];
    let mut closed = closed_root_position_inner(root_of(&input), &input);
    closed.sort();
    assert_eq!(closed, vec![n(Pitch::C(), 4), n(Pitch::E(), 4), n(Pitch::G(), 4)]);
}

#[test]
fn closed_root_position_keeps_root_order() {
    let input = vec![n(Pitch::E(), 3), n(Pitch::G(), 3), n(Pitch::C(), 4)];
    let closed = closed_root_position_inner(Pitch::C(), &input);
    assert_eq!(closed, vec![n(Pitch::C(), 4), n(Pitch::E(), 4), n(Pitch::G(), 4)]);
}

#[test]
fn closed_root_position_stacks_thirds_over_octaves() {
    let input = vec![n(Pitch::G(), 4), n(Pitch::C(), 5), n(Pitch::E(), 6), n(Pitch::B_FLAT(), 6), n(Pitch::D(), 7)];
    let closed = closed_root_position_inner(Pitch::C(), &input);
    assert_eq!(
        closed,
        vec![n(Pitch::C(), 5), n(Pitch::E(), 5), n(Pitch::G(), 5), n(Pitch::B_FLAT(), 5), n(Pitch::D(), 6)]
    );
}

#[test]
fn closed_root_position_places_leftovers_above_root() {
    // E and Eb share a letter: only the first stands in the stack of thirds.
    let input = vec![n(Pitch::C(), 4), n(Pitch::E(), 4), n(Pitch::G(), 4), n(Pitch::B_FLAT(), 4), n(Pitch::E_FLAT(), 5)];
    let closed = closed_root_position_inner(Pitch::C(), &input);
    assert_eq!(
        closed,
        vec![n(Pitch::C(), 4), n(Pitch::E(), 4), n(Pitch::E_FLAT(), 4), n(Pitch::G(), 4), n(Pitch::B_FLAT(), 4)]
    );
}

#[test]
fn closed_position_with_root_in_bass() {
    let cases: Vec<(Vec<Note>, Vec<Note>)> = vec![
        (
            vec![n(Pitch::C(), 4), n(Pitch::E(), 4), n(Pitch::G(), 4)],
            vec![n(Pitch::C(), 4), n(Pitch::E(), 4), n(Pitch::G(), 4)],
        ),
        (
            vec![n(Pitch::C(), 3), n(Pitch::G(), 4), n(Pitch::E(), 6)],
            vec![n(Pitch::C(), 3), n(Pitch::E(), 3), n(Pitch::G(), 3)],
        ),
        (
            vec![n(Pitch::C(), 4), n(Pitch::E(), 4), n(Pitch::G(), 4), n(Pitch::C(), 5)],
            vec![n(Pitch::C(), 4), n(Pitch::E(), 4), n(Pitch::G(), 4)],
        ),
        (
            vec![n(Pitch::C(), 4), n(Pitch::D(), 4), n(Pitch::E(), 4), n(Pitch::G(), 4), n(Pitch::B_FLAT(), 4)],
            vec![n(Pitch::C(), 4), n(Pitch::E(), 4), n(Pitch::G(), 4), n(Pitch::B_FLAT(), 4), n(Pitch::D(), 5)],
        ),
        (
            vec![n(Pitch::C(), 4), n(Pitch::E(), 5), n(Pitch::G(), 5), n(Pitch::B_FLAT(), 5), n(Pitch::D(), 6)],
            vec![n(Pitch::C(), 4), n(Pitch::E(), 4), n(Pitch::G(), 4), n(Pitch::B_FLAT(), 4), n(Pitch::D(), 5)],
        ),
        (
            vec![n(Pitch::C(), 4), n(Pitch::E(), 4), n(Pitch::G(), 4), n(Pitch::B_FLAT(), 4), n(Pitch::E_FLAT(), 5)],
            vec![n(Pitch::C(), 4), n(Pitch::E(), 4), n(Pitch::G(), 4), n(Pitch::B_FLAT(), 4), n(Pitch::E_FLAT(), 5)],
        ),
        (
            vec![n(Pitch::C(), 4), n(Pitch::E_FLAT(), 4), n(Pitch::G(), 4), n(Pitch::E(), 5)],
            vec![n(Pitch::C(), 4), n(Pitch::E_FLAT(), 4), n(Pitch::G(), 4), n(Pitch::E(), 5)],
        ),
    ];
    for (input, expected) in cases {
        assert_eq!(closed_separated(&input), expected, "input {:?}", input);
    }
}

#[test]
fn separate_moves_later_notes_of_a_letter_up() {
    let mut notes = vec![n(Pitch::E(), 4), n(Pitch::C(), 4), n(Pitch::E_FLAT(), 4), n(Pitch::E_SHARP(), 2)];
    separate_same_letter_by_octave(&mut notes);
    assert_eq!(
        notes,
        vec![n(Pitch::C(), 4), n(Pitch::E(), 4), n(Pitch::E_FLAT(), 5), n(Pitch::E_SHARP(), 6)]
    );
}

#[test]
fn separate_empty() {
    let mut notes: Vec<Note> = vec![];
    separate_same_letter_by_octave(&mut notes);
    assert!(notes.is_empty());
}

#[test]
fn dedup_keeps_first_of_each_pitch() {
    let notes = vec![n(Pitch::C(), 4), n(Pitch::E(), 4), n(Pitch::C(), 5), n(Pitch::G(), 3), n(Pitch::E(), 2)];
    assert_eq!(
        dedup_by_pitch(&notes),
        vec![n(Pitch::C(), 4), n(Pitch::E(), 4), n(Pitch::G(), 3)]
    );
    assert!(dedup_by_pitch(&[]).is_empty());
}

#[test]
fn closed_root_position_sorted_without_separating() {
    let input = vec![n(Pitch::C(), 4), n(Pitch::E(), 4), n(Pitch::G(), 4), n(Pitch::B_FLAT(), 4), n(Pitch::E_FLAT(), 5)];
    let mut closed = closed_root_position_inner(root_of(&input), &input);
    closed.sort();
    assert_eq!(
        closed,
        vec![n(Pitch::C(), 4), n(Pitch::E_FLAT(), 4), n(Pitch::E(), 4), n(Pitch::G(), 4), n(Pitch::B_FLAT(), 4)]
    );
}
