use music_theory::generator::NoteGenerator;
use music_theory::note::Note;
use music_theory::octave_letter::OctaveLetter;
use music_theory::pitch::{Letter, Pitch};

#[test]
fn test_offset() {
    let c4 = OctaveLetter::new(Letter::C, 4);

    assert_eq!(c4.offset_to(OctaveLetter::new(Letter::F, 5)), 10);
    assert_eq!(OctaveLetter::new(Letter::B, 3).offset_to(c4), 1);
}

#[test]
fn nth() {
    let note_gen = NoteGenerator::new(Note::MIDDLE_C());

    assert_eq!(
        note_gen.clone().next(),
        note_gen.clone().nth(0),
    )
}

#[test]
fn octave_letter_with_offset() {
    let c4 = OctaveLetter::C4();
    assert_eq!(c4.with_offset(10), OctaveLetter::new(Letter::F, 5));
    assert_eq!(c4.with_offset(-1), OctaveLetter::new(Letter::B, 3));
    assert_eq!(Note::from(OctaveLetter::new(Letter::E, 2)), Note::new(Pitch::E(), 2));
}

#[test]
fn generator_steps_by_semitone() {
    let mut g = NoteGenerator::new(Note::MIDDLE_C());
    assert_eq!(g.peek(), Note::MIDDLE_C());
    assert_eq!(g.next(), Some(Note::MIDDLE_C()));
    assert_eq!(g.next(), Some(Note::new(Pitch::C_SHARP(), 4)));
    assert_eq!(g.nth(1), Some(Note::new(Pitch::D_SHARP(), 4)));
    let mut r = NoteGenerator::reversed(Note::MIDDLE_C());
    assert_eq!(r.next(), Some(Note::MIDDLE_C()));
    assert_eq!(r.next(), Some(Note::new(Pitch::B(), 3)));
}

#[test]
fn generator_ranges() {
    let v = NoteGenerator::range(Note::MIDDLE_C(), Note::new(Pitch::E(), 4)).to_vec();
    assert_eq!(v, vec![Note::MIDDLE_C(), Note::new(Pitch::C_SHARP(), 4), Note::new(Pitch::D(), 4), Note::new(Pitch::D_SHARP(), 4)]);
    let w = NoteGenerator::range_inclusive(Note::MIDDLE_C(), Note::new(Pitch::D(), 4));
    assert_eq!(w.len(), 3);
    let down = NoteGenerator::range(Note::new(Pitch::D(), 4), Note::MIDDLE_C()).to_vec();
    assert_eq!(down, vec![Note::new(Pitch::D(), 4), Note::new(Pitch::C_SHARP(), 4)]);
}
