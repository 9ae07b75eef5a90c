use music_theory::notation::{GetStemDirectionParams as P, PitchClef as Clef, StaffPosition, StemDirection};
use music_theory::notation::StaffPosition as Pos;
use music_theory::octave_letter::OctaveLetter;
use music_theory::pitch::Letter;

fn all_consts() -> [Clef; 14] {
    [
        Clef::TREBLE(),
        Clef::TREBLE_8VA(),
        Clef::TREBLE_8VB(),
        Clef::FRENCH_VIOLIN(),
        Clef::BASS(),
        Clef::BASS_8VA(),
        Clef::BASS_8VB(),
        Clef::SUB_BASS(),
        Clef::F_BARITONE(),
        Clef::SOPRANO(),
        Clef::MEZZO_SOPRANO(),
        Clef::ALTO(),
        Clef::TENOR(),
        Clef::C_BARITONE(),
    ]
}

#[test]
fn clef_top_line() {
    assert_eq!(Clef::TREBLE().get_note(Pos::BOTTOM_LINE()), OctaveLetter::new(Letter::E, 4));
    assert_eq!(Clef::TREBLE_8VA().get_note(Pos::BOTTOM_LINE()), OctaveLetter::new(Letter::E, 5));
    assert_eq!(Clef::TREBLE_8VB().get_note(Pos::BOTTOM_LINE()), OctaveLetter::new(Letter::E, 3));
    assert_eq!(Clef::FRENCH_VIOLIN().get_note(Pos::BOTTOM_LINE()), OctaveLetter::new(Letter::G, 4));
    assert_eq!(Clef::BASS().get_note(Pos::BOTTOM_LINE()), OctaveLetter::new(Letter::G, 2));
    assert_eq!(Clef::BASS_8VA().get_note(Pos::BOTTOM_LINE()), OctaveLetter::new(Letter::G, 3));
    assert_eq!(Clef::BASS_8VB().get_note(Pos::BOTTOM_LINE()), OctaveLetter::new(Letter::G, 1));
    assert_eq!(Clef::SUB_BASS().get_note(Pos::BOTTOM_LINE()), OctaveLetter::new(Letter::E, 2));
    assert_eq!(Clef::F_BARITONE().get_note(Pos::BOTTOM_LINE()), OctaveLetter::new(Letter::B, 2));
    assert_eq!(Clef::SOPRANO().get_note(Pos::BOTTOM_LINE()), OctaveLetter::new(Letter::C, 4));
    assert_eq!(Clef::MEZZO_SOPRANO().get_note(Pos::BOTTOM_LINE()), OctaveLetter::new(Letter::A, 3));
    assert_eq!(Clef::ALTO().get_note(Pos::BOTTOM_LINE()), OctaveLetter::new(Letter::F, 3));
    assert_eq!(Clef::TENOR().get_note(Pos::BOTTOM_LINE()), OctaveLetter::new(Letter::D, 3));
    assert_eq!(Clef::C_BARITONE().get_note(Pos::BOTTOM_LINE()), OctaveLetter::new(Letter::B, 2));
}

#[test]
fn clef_bottom_line() {
    assert_eq!(Clef::TREBLE().get_note(Pos::TOP_LINE()), OctaveLetter::new(Letter::F, 5));
    assert_eq!(Clef::TREBLE_8VA().get_note(Pos::TOP_LINE()), OctaveLetter::new(Letter::F, 6));
    assert_eq!(Clef::TREBLE_8VB().get_note(Pos::TOP_LINE()), OctaveLetter::new(Letter::F, 4));
    assert_eq!(Clef::FRENCH_VIOLIN().get_note(Pos::TOP_LINE()), OctaveLetter::new(Letter::A, 5));
    assert_eq!(Clef::BASS().get_note(Pos::TOP_LINE()), OctaveLetter::new(Letter::A, 3));
    assert_eq!(Clef::BASS_8VA().get_note(Pos::TOP_LINE()), OctaveLetter::new(Letter::A, 4));
    assert_eq!(Clef::BASS_8VB().get_note(Pos::TOP_LINE()), OctaveLetter::new(Letter::A, 2));
    assert_eq!(Clef::SUB_BASS().get_note(Pos::TOP_LINE()), OctaveLetter::new(Letter::F, 3));
    assert_eq!(Clef::F_BARITONE().get_note(Pos::TOP_LINE()), OctaveLetter::new(Letter::C, 4));
    assert_eq!(Clef::SOPRANO().get_note(Pos::TOP_LINE()), OctaveLetter::new(Letter::D, 5));
    assert_eq!(Clef::MEZZO_SOPRANO().get_note(Pos::TOP_LINE()), OctaveLetter::new(Letter::B, 4));
    assert_eq!(Clef::ALTO().get_note(Pos::TOP_LINE()), OctaveLetter::new(Letter::G, 4));
    assert_eq!(Clef::TENOR().get_note(Pos::TOP_LINE()), OctaveLetter::new(Letter::E, 4));
    assert_eq!(Clef::C_BARITONE().get_note(Pos::TOP_LINE()), OctaveLetter::new(Letter::C, 4));
}

#[test]
fn test_get_position() {
    for clef in all_consts() {
        for v in -8..=8 {
            let line = StaffPosition::Line(v);

            assert_eq!(line, clef.get_position(clef.get_note(line)));

            let space = StaffPosition::Space(v);

            assert_eq!(space, clef.get_position(clef.get_note(space)));
        }
    }
}

#[test]
fn test_stem_direction() {
            
    let c3 = OctaveLetter::new(Letter::C, 3);
    let b3 = OctaveLetter::new(Letter::B, 3);
    
    assert_eq!(P::default(), P::EndsOnly);
    
    assert_eq!(Clef::BASS().stem_direction(&[], P::default()), None);
    
    assert_eq!(
        Clef::BASS().stem_direction(&[c3], P::default()),
        Some(StemDirection::Up),
    );

    assert_eq!(
        Clef::BASS().stem_direction(&[c3, b3], P::default()),
        Some(StemDirection::Down),
    );

    assert_eq!(
        Clef::BASS().stem_direction(&[c3, b3, c3], P::default()),
        Some(StemDirection::Up),
    );

    assert_eq!(
        Clef::BASS().stem_direction(&[c3, b3, c3], P::AllNotes),
        Some(StemDirection::Down),
    );

    assert_eq!(
        Clef::BASS().stem_direction(&[c3, b3, c3], P::ExtremesOnly),
        Some(StemDirection::Down),
    );

    let c2 = OctaveLetter::new(Letter::C, 2);
    
    assert_eq!(
        Clef::BASS().stem_direction(&[c3, b3, c3, c2], P::ExtremesOnly),
        Some(StemDirection::Up),
    );
}


#[test]
fn clef_new_validates() {
    assert_eq!(Clef::new(OctaveLetter::new(Letter::G, 4), 2), Some(Clef::TREBLE()));
    assert_eq!(Clef::new(OctaveLetter::new(Letter::D, 4), 2), None);
    assert_eq!(Clef::new(OctaveLetter::new(Letter::G, 4), 0), None);
    assert_eq!(Clef::new(OctaveLetter::new(Letter::G, 4), 6), None);
    assert_eq!(Clef::TREBLE().anchor(), OctaveLetter::new(Letter::G, 4));
}

#[test]
fn clef_range_and_contains() {
    let (lo, hi) = Clef::TREBLE().range();
    assert_eq!(lo, OctaveLetter::new(Letter::E, 4));
    assert_eq!(hi, OctaveLetter::new(Letter::F, 5));
    assert!(Clef::TREBLE().contains(OctaveLetter::new(Letter::B, 4)));
    assert!(!Clef::TREBLE().contains(OctaveLetter::new(Letter::G, 5)));
    assert_eq!(Clef::TREBLE().get_position(OctaveLetter::new(Letter::B, 4)), StaffPosition::Line(3));
    assert_eq!(Clef::TREBLE().get_position(OctaveLetter::new(Letter::C, 5)), StaffPosition::Space(3));
    assert_eq!(Clef::TREBLE().get_position(OctaveLetter::new(Letter::C, 4)), StaffPosition::Line(0));
}

#[test]
fn top_line() {
    assert_eq!(Clef::TREBLE().get_note(Pos::BOTTOM_LINE()), OctaveLetter::new(Letter::E, 4));
    assert_eq!(Clef::TREBLE_8VA().get_note(Pos::BOTTOM_LINE()), OctaveLetter::new(Letter::E, 5));
    assert_eq!(Clef::TREBLE_8VB().get_note(Pos::BOTTOM_LINE()), OctaveLetter::new(Letter::E, 3));
    assert_eq!(Clef::FRENCH_VIOLIN().get_note(Pos::BOTTOM_LINE()), OctaveLetter::new(Letter::G, 4));
    assert_eq!(Clef::BASS().get_note(Pos::BOTTOM_LINE()), OctaveLetter::new(Letter::G, 2));
    assert_eq!(Clef::BASS_8VA().get_note(Pos::BOTTOM_LINE()), OctaveLetter::new(Letter::G, 3));
    assert_eq!(Clef::BASS_8VB().get_note(Pos::BOTTOM_LINE()), OctaveLetter::new(Letter::G, 1));
    assert_eq!(Clef::SUB_BASS().get_note(Pos::BOTTOM_LINE()), OctaveLetter::new(Letter::E, 2));
    assert_eq!(Clef::F_BARITONE().get_note(Pos::BOTTOM_LINE()), OctaveLetter::new(Letter::B, 2));
    assert_eq!(Clef::SOPRANO().get_note(Pos::BOTTOM_LINE()), OctaveLetter::new(Letter::C, 4));
    assert_eq!(Clef::MEZZO_SOPRANO().get_note(Pos::BOTTOM_LINE()), OctaveLetter::new(Letter::A, 3));
    assert_eq!(Clef::ALTO().get_note(Pos::BOTTOM_LINE()), OctaveLetter::new(Letter::F, 3));
    assert_eq!(Clef::TENOR().get_note(Pos::BOTTOM_LINE()), OctaveLetter::new(Letter::D, 3));
    assert_eq!(Clef::C_BARITONE().get_note(Pos::BOTTOM_LINE()), OctaveLetter::new(Letter::B, 2));
}

#[test]
fn bottom_line() {
    assert_eq!(Clef::TREBLE().get_note(Pos::TOP_LINE()), OctaveLetter::new(Letter::F, 5));
    assert_eq!(Clef::TREBLE_8VA().get_note(Pos::TOP_LINE()), OctaveLetter::new(Letter::F, 6));
    assert_eq!(Clef::TREBLE_8VB().get_note(Pos::TOP_LINE()), OctaveLetter::new(Letter::F, 4));
    assert_eq!(Clef::FRENCH_VIOLIN().get_note(Pos::TOP_LINE()), OctaveLetter::new(Letter::A, 5));
    assert_eq!(Clef::BASS().get_note(Pos::TOP_LINE()), OctaveLetter::new(Letter::A, 3));
    assert_eq!(Clef::BASS_8VA().get_note(Pos::TOP_LINE()), OctaveLetter::new(Letter::A, 4));
    assert_eq!(Clef::BASS_8VB().get_note(Pos::TOP_LINE()), OctaveLetter::new(Letter::A, 2));
    assert_eq!(Clef::SUB_BASS().get_note(Pos::TOP_LINE()), OctaveLetter::new(Letter::F, 3));
    assert_eq!(Clef::F_BARITONE().get_note(Pos::TOP_LINE()), OctaveLetter::new(Letter::C, 4));
    assert_eq!(Clef::SOPRANO().get_note(Pos::TOP_LINE()), OctaveLetter::new(Letter::D, 5));
    assert_eq!(Clef::MEZZO_SOPRANO().get_note(Pos::TOP_LINE()), OctaveLetter::new(Letter::B, 4));
    assert_eq!(Clef::ALTO().get_note(Pos::TOP_LINE()), OctaveLetter::new(Letter::G, 4));
    assert_eq!(Clef::TENOR().get_note(Pos::TOP_LINE()), OctaveLetter::new(Letter::E, 4));
    assert_eq!(Clef::C_BARITONE().get_note(Pos::TOP_LINE()), OctaveLetter::new(Letter::C, 4));
}
