use music_theory::chord::{ChordShape, KnownChord, PitchChord};
use music_theory::enharmonic::EnharmonicEq;
use music_theory::interval::{Interval as I, Number};
use music_theory::note::Note;
use music_theory::pcset::PitchClassSet;
use music_theory::pitch::{Pitch, PitchClass, Spelling};

fn major_triad() -> ChordShape {
    KnownChord::MajorTriad.shape()
}

#[test]
fn shape_of_known_chords() {
    let s = major_triad();
    assert_eq!(s.intervals(), &[I::PERFECT_UNISON(), I::MAJOR_THIRD(), I::PERFECT_FIFTH()]);
    assert_eq!(s.len(), 3);
    assert!(s.is_triad());
    assert!(s.is_major());
    assert!(!s.is_minor());
    assert!(s.contains_triad());
    assert!(s.is_consonant());
    assert!(!s.is_seventh());
    assert_eq!(s.known(), Some(KnownChord::MajorTriad));
    assert!(KnownChord::DominantSeventh.shape().is_dominant_seventh());
    assert!(KnownChord::DominantSeventh.shape().is_dominant());
    assert!(!KnownChord::DominantSeventh.shape().is_consonant());
    assert!(KnownChord::HalfDiminishedSeventh.shape().is_half_diminished());
    assert!(KnownChord::DiminishedSeventh.shape().is_diminished_seventh());
    assert!(KnownChord::DiminishedTriad.shape().is_diminished());
    assert!(KnownChord::AugmentedTriad.shape().is_augmented());
    assert!(KnownChord::SuspendedFourth.shape().is_suspended());
    assert!(KnownChord::SuspendedSecond.shape().is_suspended());
    assert!(!major_triad().is_suspended());
    assert!(KnownChord::DominantNinth.shape().is_extended());
    assert!(!KnownChord::MajorSeventh.shape().is_extended());
}

#[test]
fn shape_degrees() {
    let s = KnownChord::MajorSeventh.shape();
    assert_eq!(s.interval_of(Number::THIRD()), Some(I::MAJOR_THIRD()));
    assert_eq!(s.interval_of(Number::SEVENTH()), Some(I::MAJOR_SEVENTH()));
    assert_eq!(s.interval_of(Number::NINTH()), None);
    assert_eq!(s.interval_of(Number::new(-3).expect("nonzero")), None);
    assert!(s.has_interval(I::MAJOR_SEVENTH()));
    assert!(!s.has_interval(I::MINOR_SEVENTH()));
    assert!(!s.has_repeated_chord_step(Number::THIRD()));
    assert!(!s.has_any_repeated_diatonic_note());

    let no_fifth = s.without_degree(Number::FIFTH()).expect("has a fifth");
    assert_eq!(no_fifth.intervals(), &[I::PERFECT_UNISON(), I::MAJOR_THIRD(), I::MAJOR_SEVENTH()]);
    assert_eq!(no_fifth.known(), Some(KnownChord::MajorSeventhNoFifth));
    assert!(s.without_degree(Number::UNISON()).is_none());
    assert!(s.without_degree(Number::NINTH()).is_none());
}

#[test]
fn shape_enharmonic_equality() {
    assert!(major_triad().eq_enharmonic(&KnownChord::MajorTriad.shape()));
    assert!(!major_triad().eq_enharmonic(&KnownChord::MinorTriad.shape()));
    assert!(!major_triad().eq_enharmonic(&KnownChord::MajorSeventh.shape()));
}

#[test]
fn pitch_chord_voicing() {
    let root = PitchChord::new(Pitch::C(), major_triad());
    assert_eq!(root.pitches(), vec![Pitch::C(), Pitch::E(), Pitch::G()]);
    assert_eq!(root.inversion(), 0);
    assert!(!root.in_inversion());
    assert!(!root.is_slash());
    assert_eq!(root.len(), 3);
    assert_eq!(root.notes(4), vec![Note::new(Pitch::C(), 4), Note::new(Pitch::E(), 4), Note::new(Pitch::G(), 4)]);

    let first = PitchChord::with_inversion(Pitch::C(), major_triad(), 1).expect("has a third");
    assert_eq!(first.bass(), Pitch::E());
    assert_eq!(first.pitches(), vec![Pitch::E(), Pitch::G(), Pitch::C()]);
    assert_eq!(first.inversion(), 1);
    assert!(first.in_inversion());
    assert_eq!(first.notes(3), vec![Note::new(Pitch::E(), 3), Note::new(Pitch::G(), 3), Note::new(Pitch::C(), 4)]);
    assert!(PitchChord::with_inversion(Pitch::C(), major_triad(), 3).is_none());

    let slash = PitchChord::with_bass(Pitch::C(), major_triad(), Pitch::F_SHARP());
    assert_eq!(slash.pitches(), vec![Pitch::F_SHARP(), Pitch::C(), Pitch::E(), Pitch::G()]);
    assert!(slash.is_slash());
    assert_eq!(slash.len(), 4);
    assert_eq!(slash.inversion(), 0);
    assert!(slash.contains(Pitch::F_SHARP()));
    assert!(slash.contains(Pitch::E()));
    assert!(!slash.contains(Pitch::D()));
}

#[test]
fn pitch_chord_degrees_and_sets() {
    let c7 = PitchChord::new(Pitch::C(), KnownChord::DominantSeventh.shape());
    assert_eq!(c7.third(), Some(Pitch::E()));
    assert_eq!(c7.fifth(), Some(Pitch::G()));
    assert_eq!(c7.seventh(), Some(Pitch::B_FLAT()));
    assert_eq!(c7.ninth(), None);
    assert_eq!(c7.eleventh(), None);
    assert_eq!(c7.thirteenth(), None);
    assert!(c7.is_seventh());
    assert!(c7.is_dominant_seventh());
    assert_eq!(c7.known(), Some(KnownChord::DominantSeventh));
    assert_eq!(
        c7.pitch_class_set(),
        PitchClassSet::from_pitch_classes(&[PitchClass::C, PitchClass::E, PitchClass::G, PitchClass::As]),
    );
}

#[test]
fn pitch_chord_transposition_and_respelling() {
    let first = PitchChord::with_inversion(Pitch::C(), major_triad(), 1).expect("has a third");
    let d = first.transpose(I::MAJOR_SECOND());
    assert_eq!(d.root(), Pitch::D());
    assert_eq!(d.bass(), Pitch::F_SHARP());
    assert_eq!(d.pitches(), vec![Pitch::F_SHARP(), Pitch::A(), Pitch::D()]);

    let c_sharp = PitchChord::new(Pitch::C_SHARP(), major_triad());
    let d_flat = c_sharp.respell_with(Spelling::Flats);
    assert_eq!(d_flat.root(), Pitch::D_FLAT());
    assert_eq!(d_flat.pitches(), vec![Pitch::D_FLAT(), Pitch::F(), Pitch::A_FLAT()]);
    assert!(d_flat.eq_enharmonic(&c_sharp));
    assert!(!d_flat.eq_enharmonic(&PitchChord::new(Pitch::D(), major_triad())));
}
