use music_theory::chord::{ChordShape, ChordShapeFromIntervalsError as E, KnownChord, PitchChord};
use music_theory::interval::Interval as I;
use music_theory::Pitch;

fn major_triad_root() -> PitchChord {
    PitchChord::new(Pitch::C(), KnownChord::MajorTriad.shape())
}

fn major_triad_first_inv() -> PitchChord {
    PitchChord::with_inversion(Pitch::C(), KnownChord::MajorTriad.shape(), 1).unwrap()
}

fn major_triad_second_inv() -> PitchChord {
    PitchChord::with_inversion(Pitch::C(), KnownChord::MajorTriad.shape(), 2).unwrap()
}

fn major_seventh_first_inv() -> PitchChord {
    PitchChord::with_inversion(Pitch::C(), KnownChord::MajorSeventh.shape(), 1).unwrap()
}

fn slash_chord() -> PitchChord {
    // Cmaj / F#: F# is not a chord tone
    PitchChord::with_bass(Pitch::C(), KnownChord::MajorTriad.shape(), Pitch::F_SHARP())
}

#[test]
fn root_position_unchanged() {
    assert_eq!(
        major_triad_root().intervals_from_root(),
        vec![I::PERFECT_UNISON(), I::MAJOR_THIRD(), I::PERFECT_FIFTH()],
    );
}

#[test]
fn first_inversion_bass_negative() {
    assert_eq!(
        major_triad_first_inv().intervals_from_root(),
        vec![-I::MINOR_SIXTH(), -I::PERFECT_FOURTH(), I::PERFECT_UNISON()],
    );
}

#[test]
fn second_inversion_bass_negative() {
    assert_eq!(
        major_triad_second_inv().intervals_from_root(),
        vec![-I::PERFECT_FOURTH(), I::PERFECT_UNISON(), I::MAJOR_THIRD()],
    );
}

#[test]
fn seventh_first_inversion() {
    assert_eq!(
        major_seventh_first_inv().intervals_from_root(),
        vec![-I::MINOR_SIXTH(), -I::PERFECT_FOURTH(), -I::MINOR_SECOND(), I::PERFECT_UNISON()],
    );
}

#[test]
fn seventh_second_inversion() {
    let chord = PitchChord::with_inversion(Pitch::C(), KnownChord::MajorSeventh.shape(), 2).unwrap();
    assert_eq!(
        chord.intervals_from_root(),
        vec![-I::PERFECT_FOURTH(), -I::MINOR_SECOND(), I::PERFECT_UNISON(), I::MAJOR_THIRD()],
    );
}

#[test]
fn intervals_from_root_consistent_with_pitches() {
    let cases = [
        major_triad_root(),
        major_triad_first_inv(),
        major_triad_second_inv(),
        major_seventh_first_inv(),
        slash_chord(),
    ];

    for chord in &cases {
        let pitches: std::collections::HashSet<Pitch> = chord.pitches().into_iter().collect();
        for ivl in chord.intervals_from_root() {
            let computed = chord.root().transpose(ivl);
            assert!(
                pitches.contains(&computed),
                "{chord:?}: root + {ivl:?} = {computed:?}, not in pitches {pitches:?}",
            );
        }
    }
}

#[test]
fn slash_chord_bass_not_chord_tone() {
    assert_eq!(
        slash_chord().intervals_from_root(),
        vec![-I::DIMINISHED_FIFTH(), I::PERFECT_UNISON(), I::MAJOR_THIRD(), I::PERFECT_FIFTH()],
    );
}

#[test]
fn shape_from_intervals_checks_in_turn() {
    assert_eq!(ChordShape::from_intervals(&[]).err(), Some(E::Empty));
    assert_eq!(ChordShape::from_intervals(&[I::MAJOR_THIRD()]).err(), Some(E::NoInitialP1));
    assert_eq!(
        ChordShape::from_intervals(&[I::PERFECT_UNISON(), I::PERFECT_FIFTH(), I::MAJOR_THIRD()]).err(),
        Some(E::NotSorted)
    );
    assert_eq!(
        ChordShape::from_intervals(&[I::PERFECT_UNISON(), I::MAJOR_THIRD(), I::MAJOR_THIRD()]).err(),
        Some(E::ContainsDuplicates)
    );
    let shape = ChordShape::from_intervals(&[I::PERFECT_UNISON(), I::MAJOR_THIRD(), I::PERFECT_FIFTH()]).expect("valid");
    assert!(shape.is_major());
}

#[test]
fn shape_with_interval_inserts_in_order() {
    let triad = KnownChord::MajorTriad.shape();
    let seventh = triad.with_interval(I::MINOR_SEVENTH()).expect("new interval");
    assert_eq!(seventh.intervals(), &[I::PERFECT_UNISON(), I::MAJOR_THIRD(), I::PERFECT_FIFTH(), I::MINOR_SEVENTH()]);
    let add2 = triad.with_interval(I::MAJOR_SECOND()).expect("new interval");
    assert_eq!(add2.intervals(), &[I::PERFECT_UNISON(), I::MAJOR_SECOND(), I::MAJOR_THIRD(), I::PERFECT_FIFTH()]);
    assert!(triad.with_interval(I::MAJOR_THIRD()).is_none());
    assert!(triad.with_interval(-I::MAJOR_THIRD()).is_none());
}
