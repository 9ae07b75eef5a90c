use music_theory::harmony::Key;
use music_theory::interval::Interval;
use music_theory::note::Note;
use music_theory::pitch::{Pitch, Spelling};
use std::cmp::Ordering;

#[test]
fn midi() {
    for n in 0..=255u8 {
        assert_eq!(Some(n), Note::from_midi(n).as_midi())
    }
}

#[test]
fn test_respell_with() {
    let cases = [
        (Note::new(Pitch::A_SHARP(), 4), Spelling::Flats, Note::new(Pitch::B_FLAT(), 4)),
        (Note::new(Pitch::E_FLAT(), 4), Spelling::Sharps, Note::new(Pitch::D_SHARP(), 4)),

        (Note::new(Pitch::C_SHARP(), 4), Spelling::Sharps, Note::new(Pitch::C_SHARP(), 4)),
        (Note::new(Pitch::D_FLAT(), 4), Spelling::Flats, Note::new(Pitch::D_FLAT(), 4)),

        (Note::new(Pitch::C_FLAT(), 4), Spelling::Sharps, Note::new(Pitch::B(), 3)),
        (Note::new(Pitch::B_SHARP(), 3), Spelling::Flats, Note::new(Pitch::C(), 4)),
        (Note::new(Pitch::C_FLAT(), 5), Spelling::Sharps, Note::new(Pitch::B(), 4)),
        (Note::new(Pitch::B_SHARP(), 5), Spelling::Flats, Note::new(Pitch::C(), 6)),

        (Note::new(Pitch::C(), 4), Spelling::Sharps, Note::new(Pitch::C(), 4)),
        (Note::new(Pitch::G(), 5), Spelling::Flats, Note::new(Pitch::G(), 5)),
    ];

    for (input, spelling, expected) in cases {
        assert_eq!(
            input.respell_with(spelling),
            expected,
            "{input:?} respelled with {spelling:?} should be {expected:?}"
        );
    }
}

#[test]
fn test_simplified() {
    let cases = [
        (Note::new(Pitch::C_SHARP(), 4), Note::new(Pitch::C_SHARP(), 4)),
        (Note::new(Pitch::D_FLAT(), 5), Note::new(Pitch::D_FLAT(), 5)),

        (Note::new(Pitch::C_DOUBLE_SHARP(), 4), Note::new(Pitch::D(), 4)),
        (Note::new(Pitch::D_DOUBLE_FLAT(), 4), Note::new(Pitch::C(), 4)),

        (Note::new(Pitch::C_FLAT(), 4), Note::new(Pitch::B(), 3)),
        (Note::new(Pitch::B_SHARP(), 3), Note::new(Pitch::C(), 4)),
        (Note::new(Pitch::F_FLAT(), 6), Note::new(Pitch::E(), 6)),
        (Note::new(Pitch::E_SHARP(), 2), Note::new(Pitch::F(), 2)),

        (Note::new(Pitch::C(), 4), Note::new(Pitch::C(), 4)),
        (Note::new(Pitch::G(), 5), Note::new(Pitch::G(), 5)),
    ];

    for (input, expected) in cases {
        assert_eq!(
            input.simplified(),
            expected,
            "{input:?} simplified should be {expected:?}"
        );
    }
}

#[test]
fn test_enharmonic() {
    let cases = [
        (Note::new(Pitch::C_SHARP(), 4), Note::new(Pitch::D_FLAT(), 4)),
        (Note::new(Pitch::D_FLAT(), 4), Note::new(Pitch::C_SHARP(), 4)),
        (Note::new(Pitch::F_SHARP(), 5), Note::new(Pitch::G_FLAT(), 5)),

        (Note::new(Pitch::A_DOUBLE_FLAT(), 4), Note::new(Pitch::G(), 4)),
        (Note::new(Pitch::B_DOUBLE_SHARP(), 5), Note::new(Pitch::D_FLAT(), 6)),

        (Note::new(Pitch::C_FLAT(), 4), Note::new(Pitch::B(), 3)),
        (Note::new(Pitch::B_SHARP(), 3), Note::new(Pitch::C(), 4)),

        (Note::new(Pitch::C(), 4), Note::new(Pitch::C(), 4)),
        (Note::new(Pitch::G(), 5), Note::new(Pitch::G(), 5)),
    ];

    for (input, expected) in cases {
        assert_eq!(
            input.enharmonic(),
            expected,
            "{input:?} enharmonic should be {expected:?}"
        );
    }
}

#[test]
fn test_respell_in_key() {
    let cases = [
        (Note::new(Pitch::C(), 4), Key::major(Pitch::C_SHARP()), Note::new(Pitch::B_SHARP(), 3)),
        (Note::new(Pitch::F(), 4), Key::major(Pitch::C_SHARP()), Note::new(Pitch::E_SHARP(), 4)),

        (Note::new(Pitch::E(), 4), Key::major(Pitch::C_FLAT()), Note::new(Pitch::F_FLAT(), 4)),
        (Note::new(Pitch::B(), 3), Key::major(Pitch::C_FLAT()), Note::new(Pitch::C_FLAT(), 4)),

        (Note::new(Pitch::A_SHARP(), 4), Key::major(Pitch::F()), Note::new(Pitch::B_FLAT(), 4)),

        (Note::new(Pitch::C_SHARP(), 4), Key::major(Pitch::F()), Note::new(Pitch::C_SHARP(), 4)),
        (Note::new(Pitch::E_FLAT(), 5), Key::major(Pitch::D()), Note::new(Pitch::E_FLAT(), 5)),

        (Note::new(Pitch::C_SHARP(), 4), Key::major(Pitch::C_SHARP()), Note::new(Pitch::C_SHARP(), 4)),
        (Note::new(Pitch::D(), 4), Key::major(Pitch::C()), Note::new(Pitch::D(), 4)),
    ];

    for (input, key, expected) in cases {
        assert_eq!(
            input.respell_in_key(key),
            expected,
            "{input:?} respelled in {key:?} should be {expected:?}"
        );
    }
}

#[test]
fn note_transpose_examples() {
    let c4 = Note::new(Pitch::C(), 4);
    assert_eq!(c4 + Interval::PERFECT_FIFTH(), Note::new(Pitch::G(), 4));
    assert_eq!(c4 - Interval::MINOR_SECOND(), Note::new(Pitch::B(), 3));
    assert_eq!(Note::new(Pitch::B(), 3).transpose(Interval::AUGMENTED_UNISON()), Note::new(Pitch::B_SHARP(), 3));
    assert_eq!(c4.transpose_fifths(2), Note::new(Pitch::D(), 5));
    assert_eq!(c4.transpose_fifths(-1), Note::new(Pitch::F(), 3));
}

#[test]
fn note_semitones_and_midi() {
    assert_eq!(Note::MIDDLE_C().semitones_to(Note::A4()).0, 9);
    assert_eq!(Note::A4().semitones_to(Note::MIDDLE_C()).0, -9);
    assert_eq!(Note::MIDDLE_C().as_midi(), Some(60));
    assert_eq!(Note::new(Pitch::C(), -2).as_midi(), None);
    assert_eq!(Note::new(Pitch::G(), 9).as_midi_strict(), Some(127));
    assert_eq!(Note::new(Pitch::G_SHARP(), 9).as_midi_strict(), None);
    assert_eq!(Note::new(Pitch::G_SHARP(), 9).as_midi(), Some(128));
    assert_eq!(Note::from_midi(61), Note::new(Pitch::C_SHARP(), 4));
}

#[test]
fn note_enharmonic_comparisons() {
    let b_sharp_3 = Note::new(Pitch::B_SHARP(), 3);
    let c4 = Note::new(Pitch::C(), 4);
    assert!(b_sharp_3.eq_enharmonic(&c4));
    assert_eq!(b_sharp_3.cmp_enharmonic(&c4), Ordering::Equal);
    assert_eq!(Note::new(Pitch::C_FLAT(), 4).cmp_enharmonic(&c4), Ordering::Less);
    assert_eq!(Note::new(Pitch::D_DOUBLE_FLAT(), 4).cmp_enharmonic(&Note::new(Pitch::B_SHARP(), 3)), Ordering::Equal);
    assert!(b_sharp_3 < c4);
    assert_eq!(Pitch::from(c4), Pitch::C());
}
