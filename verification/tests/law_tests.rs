use music_theory::generator::NoteGenerator;
use music_theory::interval::{Interval, Quality};
use music_theory::matrix::{TwelveToneMatrix as Matrix, TwelveToneRowForm as Form, TwelveToneRowLabel as Label};
use music_theory::pcset::PitchClassSet;
use music_theory::pitch::PitchClass as PC;
use music_theory::{Note, Pitch, Semitones};

#[test]
fn complements_of_repeated_hexachord_are_empty() {
    let m = Matrix::from_chromas([0, 1, 2, 3, 4, 5, 6, 7, 8, 9, 10, 11]).expect("valid row");
    assert!(m.find_hexachord_complements([PC::C, PC::C, PC::D, PC::Ds, PC::E, PC::F]).is_empty());
    let found = m.find_hexachord_complements([PC::C, PC::Cs, PC::D, PC::Ds, PC::E, PC::F]);
    assert_eq!(found[0], (Label::new(Form::Prime, 0).expect("valid number"), 1));
    for w in found.windows(2) {
        assert_ne!(w[0], w[1]);
    }
}

#[test]
fn preferred_interval_shapes() {
    assert_eq!(Interval::from_semitones_preferred(Semitones(0)), Interval::PERFECT_UNISON());
    let down = Interval::from_semitones_preferred(Semitones(-7));
    assert!(!down.is_ascending());
    assert_eq!(down.quality(), Quality::Perfect);
    let tritone = Interval::from_semitones_preferred(Semitones(18));
    assert_eq!(tritone.quality(), Quality::Diminished(1));
    assert_eq!(tritone.number().get(), 12);
}

#[test]
fn pitch_classes_ascend_once_each() {
    let s = PitchClassSet::from_pitch_classes(&[PC::G, PC::C, PC::E, PC::C]);
    assert_eq!(s.pitch_classes(), vec![PC::C, PC::E, PC::G]);
    assert_eq!(s.len(), 3);
}

#[test]
fn subset_by_members() {
    let a = PitchClassSet::from_pitch_classes(&[PC::C, PC::E]);
    let b = PitchClassSet::from_pitch_classes(&[PC::C, PC::E, PC::G]);
    assert!(a.is_subset_of(b));
    assert!(!b.is_subset_of(a));
}

#[test]
fn range_walks_a_semitone_at_a_time() {
    let notes = NoteGenerator::range(Note::new(Pitch::C(), 4), Note::new(Pitch::E(), 4)).to_vec();
    assert_eq!(notes, vec![Note::new(Pitch::C(), 4), Note::new(Pitch::C_SHARP(), 4), Note::new(Pitch::D(), 4), Note::new(Pitch::D_SHARP(), 4)]);
    let down = NoteGenerator::range(Note::new(Pitch::D(), 4), Note::new(Pitch::B(), 3)).to_vec();
    assert_eq!(down, vec![Note::new(Pitch::D(), 4), Note::new(Pitch::C_SHARP(), 4), Note::new(Pitch::C(), 4)]);
}
