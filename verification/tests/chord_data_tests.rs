use music_theory::chord::{find_known, ChordType, KnownChord};
use music_theory::interval::Interval as I;

#[test]
fn chord_type_intervals() {
    assert_eq!(ChordType::MajorTriad.intervals(), vec![I::PERFECT_UNISON(), I::MAJOR_THIRD(), I::PERFECT_FIFTH()]);
    assert_eq!(ChordType::AddSixth.intervals(), ChordType::MajorSixth.intervals());
    assert_eq!(ChordType::SeventhAugmentedFifth.intervals(), ChordType::AugmentedSeventh.intervals());
    assert_eq!(
        ChordType::DominantThirteenth.intervals(),
        vec![I::PERFECT_UNISON(), I::MAJOR_THIRD(), I::PERFECT_FIFTH(), I::MINOR_SEVENTH(), I::MAJOR_NINTH(), I::PERFECT_ELEVENTH(), I::MAJOR_THIRTEENTH()],
    );
    assert_eq!(ChordType::MixedThird.intervals(), vec![I::PERFECT_UNISON(), I::MINOR_THIRD(), I::MAJOR_THIRD(), I::PERFECT_FIFTH()]);
    assert_eq!(ChordType::Fifth.intervals(), vec![I::PERFECT_UNISON(), I::PERFECT_FIFTH()]);
}

#[test]
fn known_chord_names_and_intervals() {
    assert_eq!(KnownChord::MajorTriad.name(), "major triad");
    assert_eq!(KnownChord::MinorMajorSeventh.to_string(), "minor-major seventh");
    assert_eq!(KnownChord::DominantThirteenthFlatNinthSharpEleventh.name(), "dominant thirteenth flat ninth sharp eleventh");
    assert_eq!(KnownChord::HalfDiminishedSeventh.intervals(), vec![I::PERFECT_UNISON(), I::MINOR_THIRD(), I::DIMINISHED_FIFTH(), I::MINOR_SEVENTH()]);
}

#[test]
fn find_known_chords() {
    for k in [
        KnownChord::MajorTriad,
        KnownChord::SuspendedFourth,
        KnownChord::DiminishedSeventh,
        KnownChord::SixNine,
        KnownChord::MinorEleventh,
        KnownChord::ThirteenthSuspendedFourth,
        KnownChord::MajorNinthNoFifth,
        KnownChord::DominantThirteenthFlatNinthSharpEleventh,
    ] {
        assert_eq!(find_known(&k.intervals()), Some(k));
    }
    assert_eq!(find_known(&[I::PERFECT_UNISON(), I::MAJOR_THIRD(), I::PERFECT_FIFTH()]), Some(KnownChord::MajorTriad));
    assert_eq!(find_known(&[]), None);
    assert_eq!(find_known(&[I::PERFECT_UNISON(), I::MINOR_SECOND()]), None);
    // order matters
    assert_eq!(find_known(&[I::PERFECT_UNISON(), I::PERFECT_FIFTH(), I::MAJOR_THIRD()]), None);
}
