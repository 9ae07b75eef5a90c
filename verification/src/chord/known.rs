//! Chords known by name, such as the major triad or the dominant ninth, with the
//! intervals above their roots.

use vstd::prelude::*;
use crate::interval::{Interval, Quality};

verus! {

/// A chord known by name.
#[derive(Copy, Clone, Eq, PartialEq, Debug, Hash, Structural)]
#[non_exhaustive]
pub enum KnownChord {
    MajorTriad,
    MinorTriad,
    AugmentedTriad,
    DiminishedTriad,
    SuspendedSecond,
    SuspendedFourth,
    MajorSeventh,
    DominantSeventh,
    MinorSeventh,
    MinorMajorSeventh,
    HalfDiminishedSeventh,
    DiminishedSeventh,
    AugmentedSeventh,
    AugmentedMajorSeventh,
    DominantSeventhSuspendedFourth,
    MajorSixth,
    MinorSixth,
    AddedNinth,
    SixNine,
    MajorNinth,
    DominantNinth,
    MinorNinth,
    MinorMajorNinth,
    DominantFlatNinth,
    DominantSharpNinth,
    MajorEleventh,
    DominantEleventh,
    MinorEleventh,
    DominantSharpEleventh,
    MajorSharpEleventh,
    MajorThirteenth,
    DominantThirteenth,
    MinorThirteenth,
    SuspendedSecondFourth,
    MajorSeventhSuspendedFourth,
    NinthSuspendedFourth,
    ThirteenthSuspendedFourth,
    MinorAddedNinth,
    MinorAddedFourth,
    DominantSeventhNoFifth,
    MajorSeventhNoFifth,
    DominantNinthNoFifth,
    MajorNinthNoFifth,
    DominantFlatNinthSharpEleventh,
    DominantSharpNinthSharpEleventh,
    DominantFlatNinthFlatThirteenth,
    DominantSharpNinthFlatThirteenth,
    DominantThirteenthFlatNinth,
    DominantThirteenthSharpEleventh,
    DominantThirteenthFlatNinthSharpEleventh,
}

/// How many chords are known by name.
pub open spec fn known_count() -> int {
    50
}

/// The known chord at position `i` in the list of known chords.
pub open spec fn known_at(i: int) -> KnownChord {
    if i == 0 {
        KnownChord::MajorTriad
    } else if i == 1 {
        KnownChord::MinorTriad
    } else if i == 2 {
        KnownChord::AugmentedTriad
    } else if i == 3 {
        KnownChord::DiminishedTriad
    } else if i == 4 {
        KnownChord::SuspendedSecond
    } else if i == 5 {
        KnownChord::SuspendedFourth
    } else if i == 6 {
        KnownChord::MajorSeventh
    } else if i == 7 {
        KnownChord::DominantSeventh
    } else if i == 8 {
        KnownChord::MinorSeventh
    } else if i == 9 {
        KnownChord::MinorMajorSeventh
    } else if i == 10 {
        KnownChord::HalfDiminishedSeventh
    } else if i == 11 {
        KnownChord::DiminishedSeventh
    } else if i == 12 {
        KnownChord::AugmentedSeventh
    } else if i == 13 {
        KnownChord::AugmentedMajorSeventh
    } else if i == 14 {
        KnownChord::DominantSeventhSuspendedFourth
    } else if i == 15 {
        KnownChord::MajorSixth
    } else if i == 16 {
        KnownChord::MinorSixth
    } else if i == 17 {
        KnownChord::AddedNinth
    } else if i == 18 {
        KnownChord::SixNine
    } else if i == 19 {
        KnownChord::MajorNinth
    } else if i == 20 {
        KnownChord::DominantNinth
    } else if i == 21 {
        KnownChord::MinorNinth
    } else if i == 22 {
        KnownChord::MinorMajorNinth
    } else if i == 23 {
        KnownChord::DominantFlatNinth
    } else if i == 24 {
        KnownChord::DominantSharpNinth
    } else if i == 25 {
        KnownChord::MajorEleventh
    } else if i == 26 {
        KnownChord::DominantEleventh
    } else if i == 27 {
        KnownChord::MinorEleventh
    } else if i == 28 {
        KnownChord::DominantSharpEleventh
    } else if i == 29 {
        KnownChord::MajorSharpEleventh
    } else if i == 30 {
        KnownChord::MajorThirteenth
    } else if i == 31 {
        KnownChord::DominantThirteenth
    } else if i == 32 {
        KnownChord::MinorThirteenth
    } else if i == 33 {
        KnownChord::SuspendedSecondFourth
    } else if i == 34 {
        KnownChord::MajorSeventhSuspendedFourth
    } else if i == 35 {
        KnownChord::NinthSuspendedFourth
    } else if i == 36 {
        KnownChord::ThirteenthSuspendedFourth
    } else if i == 37 {
        KnownChord::MinorAddedNinth
    } else if i == 38 {
        KnownChord::MinorAddedFourth
    } else if i == 39 {
        KnownChord::DominantSeventhNoFifth
    } else if i == 40 {
        KnownChord::MajorSeventhNoFifth
    } else if i == 41 {
        KnownChord::DominantNinthNoFifth
    } else if i == 42 {
        KnownChord::MajorNinthNoFifth
    } else if i == 43 {
        KnownChord::DominantFlatNinthSharpEleventh
    } else if i == 44 {
        KnownChord::DominantSharpNinthSharpEleventh
    } else if i == 45 {
        KnownChord::DominantFlatNinthFlatThirteenth
    } else if i == 46 {
        KnownChord::DominantSharpNinthFlatThirteenth
    } else if i == 47 {
        KnownChord::DominantThirteenthFlatNinth
    } else if i == 48 {
        KnownChord::DominantThirteenthSharpEleventh
    } else {
        KnownChord::DominantThirteenthFlatNinthSharpEleventh
    }
}

/// The intervals above the root of the known chord `k`, from the unison up.
pub open spec fn known_intervals(k: KnownChord) -> Seq<Interval> {
    match k {
        KnownChord::MajorTriad => seq![Interval::mk(Quality::Perfect, 1), Interval::mk(Quality::Major, 3), Interval::mk(Quality::Perfect, 5)],
        KnownChord::MinorTriad => seq![Interval::mk(Quality::Perfect, 1), Interval::mk(Quality::Minor, 3), Interval::mk(Quality::Perfect, 5)],
        KnownChord::AugmentedTriad => seq![Interval::mk(Quality::Perfect, 1), Interval::mk(Quality::Major, 3), Interval::mk(Quality::Augmented(1), 5)],
        KnownChord::DiminishedTriad => seq![Interval::mk(Quality::Perfect, 1), Interval::mk(Quality::Minor, 3), Interval::mk(Quality::Diminished(1), 5)],
        KnownChord::SuspendedSecond => seq![Interval::mk(Quality::Perfect, 1), Interval::mk(Quality::Major, 2), Interval::mk(Quality::Perfect, 5)],
        KnownChord::SuspendedFourth => seq![Interval::mk(Quality::Perfect, 1), Interval::mk(Quality::Perfect, 4), Interval::mk(Quality::Perfect, 5)],
        KnownChord::MajorSeventh => seq![Interval::mk(Quality::Perfect, 1), Interval::mk(Quality::Major, 3), Interval::mk(Quality::Perfect, 5), Interval::mk(Quality::Major, 7)],
        KnownChord::DominantSeventh => seq![Interval::mk(Quality::Perfect, 1), Interval::mk(Quality::Major, 3), Interval::mk(Quality::Perfect, 5), Interval::mk(Quality::Minor, 7)],
        KnownChord::MinorSeventh => seq![Interval::mk(Quality::Perfect, 1), Interval::mk(Quality::Minor, 3), Interval::mk(Quality::Perfect, 5), Interval::mk(Quality::Minor, 7)],
        KnownChord::MinorMajorSeventh => seq![Interval::mk(Quality::Perfect, 1), Interval::mk(Quality::Minor, 3), Interval::mk(Quality::Perfect, 5), Interval::mk(Quality::Major, 7)],
        KnownChord::HalfDiminishedSeventh => seq![Interval::mk(Quality::Perfect, 1), Interval::mk(Quality::Minor, 3), Interval::mk(Quality::Diminished(1), 5), Interval::mk(Quality::Minor, 7)],
        KnownChord::DiminishedSeventh => seq![Interval::mk(Quality::Perfect, 1), Interval::mk(Quality::Minor, 3), Interval::mk(Quality::Diminished(1), 5), Interval::mk(Quality::Diminished(1), 7)],
        KnownChord::AugmentedSeventh => seq![Interval::mk(Quality::Perfect, 1), Interval::mk(Quality::Major, 3), Interval::mk(Quality::Augmented(1), 5), Interval::mk(Quality::Minor, 7)],
        KnownChord::AugmentedMajorSeventh => seq![Interval::mk(Quality::Perfect, 1), Interval::mk(Quality::Major, 3), Interval::mk(Quality::Augmented(1), 5), Interval::mk(Quality::Major, 7)],
        KnownChord::DominantSeventhSuspendedFourth => seq![Interval::mk(Quality::Perfect, 1), Interval::mk(Quality::Perfect, 4), Interval::mk(Quality::Perfect, 5), Interval::mk(Quality::Minor, 7)],
        KnownChord::MajorSixth => seq![Interval::mk(Quality::Perfect, 1), Interval::mk(Quality::Major, 3), Interval::mk(Quality::Perfect, 5), Interval::mk(Quality::Major, 6)],
        KnownChord::MinorSixth => seq![Interval::mk(Quality::Perfect, 1), Interval::mk(Quality::Minor, 3), Interval::mk(Quality::Perfect, 5), Interval::mk(Quality::Major, 6)],
        KnownChord::AddedNinth => seq![Interval::mk(Quality::Perfect, 1), Interval::mk(Quality::Major, 3), Interval::mk(Quality::Perfect, 5), Interval::mk(Quality::Major, 9)],
        KnownChord::SixNine => seq![Interval::mk(Quality::Perfect, 1), Interval::mk(Quality::Major, 3), Interval::mk(Quality::Perfect, 5), Interval::mk(Quality::Major, 6), Interval::mk(Quality::Major, 9)],
        KnownChord::MajorNinth => seq![Interval::mk(Quality::Perfect, 1), Interval::mk(Quality::Major, 3), Interval::mk(Quality::Perfect, 5), Interval::mk(Quality::Major, 7), Interval::mk(Quality::Major, 9)],
        KnownChord::DominantNinth => seq![Interval::mk(Quality::Perfect, 1), Interval::mk(Quality::Major, 3), Interval::mk(Quality::Perfect, 5), Interval::mk(Quality::Minor, 7), Interval::mk(Quality::Major, 9)],
        KnownChord::MinorNinth => seq![Interval::mk(Quality::Perfect, 1), Interval::mk(Quality::Minor, 3), Interval::mk(Quality::Perfect, 5), Interval::mk(Quality::Minor, 7), Interval::mk(Quality::Major, 9)],
        KnownChord::MinorMajorNinth => seq![Interval::mk(Quality::Perfect, 1), Interval::mk(Quality::Minor, 3), Interval::mk(Quality::Perfect, 5), Interval::mk(Quality::Major, 7), Interval::mk(Quality::Major, 9)],
        KnownChord::DominantFlatNinth => seq![Interval::mk(Quality::Perfect, 1), Interval::mk(Quality::Major, 3), Interval::mk(Quality::Perfect, 5), Interval::mk(Quality::Minor, 7), Interval::mk(Quality::Minor, 9)],
        KnownChord::DominantSharpNinth => seq![Interval::mk(Quality::Perfect, 1), Interval::mk(Quality::Major, 3), Interval::mk(Quality::Perfect, 5), Interval::mk(Quality::Minor, 7), Interval::mk(Quality::Augmented(1), 9)],
        KnownChord::MajorEleventh => seq![Interval::mk(Quality::Perfect, 1), Interval::mk(Quality::Major, 3), Interval::mk(Quality::Perfect, 5), Interval::mk(Quality::Major, 7), Interval::mk(Quality::Major, 9), Interval::mk(Quality::Perfect, 11)],
        KnownChord::DominantEleventh => seq![Interval::mk(Quality::Perfect, 1), Interval::mk(Quality::Major, 3), Interval::mk(Quality::Perfect, 5), Interval::mk(Quality::Minor, 7), Interval::mk(Quality::Major, 9), Interval::mk(Quality::Perfect, 11)],
        KnownChord::MinorEleventh => seq![Interval::mk(Quality::Perfect, 1), Interval::mk(Quality::Minor, 3), Interval::mk(Quality::Perfect, 5), Interval::mk(Quality::Minor, 7), Interval::mk(Quality::Major, 9), Interval::mk(Quality::Perfect, 11)],
        KnownChord::DominantSharpEleventh => seq![Interval::mk(Quality::Perfect, 1), Interval::mk(Quality::Major, 3), Interval::mk(Quality::Perfect, 5), Interval::mk(Quality::Minor, 7), Interval::mk(Quality::Major, 9), Interval::mk(Quality::Augmented(1), 11)],
        KnownChord::MajorSharpEleventh => seq![Interval::mk(Quality::Perfect, 1), Interval::mk(Quality::Major, 3), Interval::mk(Quality::Perfect, 5), Interval::mk(Quality::Major, 7), Interval::mk(Quality::Major, 9), Interval::mk(Quality::Augmented(1), 11)],
        KnownChord::MajorThirteenth => seq![Interval::mk(Quality::Perfect, 1), Interval::mk(Quality::Major, 3), Interval::mk(Quality::Perfect, 5), Interval::mk(Quality::Major, 7), Interval::mk(Quality::Major, 9), Interval::mk(Quality::Perfect, 11), Interval::mk(Quality::Major, 13)],
        KnownChord::DominantThirteenth => seq![Interval::mk(Quality::Perfect, 1), Interval::mk(Quality::Major, 3), Interval::mk(Quality::Perfect, 5), Interval::mk(Quality::Minor, 7), Interval::mk(Quality::Major, 9), Interval::mk(Quality::Perfect, 11), Interval::mk(Quality::Major, 13)],
        KnownChord::MinorThirteenth => seq![Interval::mk(Quality::Perfect, 1), Interval::mk(Quality::Minor, 3), Interval::mk(Quality::Perfect, 5), Interval::mk(Quality::Minor, 7), Interval::mk(Quality::Major, 9), Interval::mk(Quality::Perfect, 11), Interval::mk(Quality::Major, 13)],
        KnownChord::SuspendedSecondFourth => seq![Interval::mk(Quality::Perfect, 1), Interval::mk(Quality::Major, 2), Interval::mk(Quality::Perfect, 4), Interval::mk(Quality::Perfect, 5)],
        KnownChord::MajorSeventhSuspendedFourth => seq![Interval::mk(Quality::Perfect, 1), Interval::mk(Quality::Perfect, 4), Interval::mk(Quality::Perfect, 5), Interval::mk(Quality::Major, 7)],
        KnownChord::NinthSuspendedFourth => seq![Interval::mk(Quality::Perfect, 1), Interval::mk(Quality::Perfect, 4), Interval::mk(Quality::Perfect, 5), Interval::mk(Quality::Minor, 7), Interval::mk(Quality::Major, 9)],
        KnownChord::ThirteenthSuspendedFourth => seq![Interval::mk(Quality::Perfect, 1), Interval::mk(Quality::Perfect, 4), Interval::mk(Quality::Perfect, 5), Interval::mk(Quality::Minor, 7), Interval::mk(Quality::Major, 9), Interval::mk(Quality::Major, 13)],
        KnownChord::MinorAddedNinth => seq![Interval::mk(Quality::Perfect, 1), Interval::mk(Quality::Minor, 3), Interval::mk(Quality::Perfect, 5), Interval::mk(Quality::Major, 9)],
        KnownChord::MinorAddedFourth => seq![Interval::mk(Quality::Perfect, 1), Interval::mk(Quality::Minor, 3), Interval::mk(Quality::Perfect, 4), Interval::mk(Quality::Perfect, 5)],
        KnownChord::DominantSeventhNoFifth => seq![Interval::mk(Quality::Perfect, 1), Interval::mk(Quality::Major, 3), Interval::mk(Quality::Minor, 7)],
        KnownChord::MajorSeventhNoFifth => seq![Interval::mk(Quality::Perfect, 1), Interval::mk(Quality::Major, 3), Interval::mk(Quality::Major, 7)],
        KnownChord::DominantNinthNoFifth => seq![Interval::mk(Quality::Perfect, 1), Interval::mk(Quality::Major, 3), Interval::mk(Quality::Minor, 7), Interval::mk(Quality::Major, 9)],
        KnownChord::MajorNinthNoFifth => seq![Interval::mk(Quality::Perfect, 1), Interval::mk(Quality::Major, 3), Interval::mk(Quality::Major, 7), Interval::mk(Quality::Major, 9)],
        KnownChord::DominantFlatNinthSharpEleventh => seq![Interval::mk(Quality::Perfect, 1), Interval::mk(Quality::Major, 3), Interval::mk(Quality::Perfect, 5), Interval::mk(Quality::Minor, 7), Interval::mk(Quality::Minor, 9), Interval::mk(Quality::Augmented(1), 11)],
        KnownChord::DominantSharpNinthSharpEleventh => seq![Interval::mk(Quality::Perfect, 1), Interval::mk(Quality::Major, 3), Interval::mk(Quality::Perfect, 5), Interval::mk(Quality::Minor, 7), Interval::mk(Quality::Augmented(1), 9), Interval::mk(Quality::Augmented(1), 11)],
        KnownChord::DominantFlatNinthFlatThirteenth => seq![Interval::mk(Quality::Perfect, 1), Interval::mk(Quality::Major, 3), Interval::mk(Quality::Perfect, 5), Interval::mk(Quality::Minor, 7), Interval::mk(Quality::Minor, 9), Interval::mk(Quality::Minor, 13)],
        KnownChord::DominantSharpNinthFlatThirteenth => seq![Interval::mk(Quality::Perfect, 1), Interval::mk(Quality::Major, 3), Interval::mk(Quality::Perfect, 5), Interval::mk(Quality::Minor, 7), Interval::mk(Quality::Augmented(1), 9), Interval::mk(Quality::Minor, 13)],
        KnownChord::DominantThirteenthFlatNinth => seq![Interval::mk(Quality::Perfect, 1), Interval::mk(Quality::Major, 3), Interval::mk(Quality::Perfect, 5), Interval::mk(Quality::Minor, 7), Interval::mk(Quality::Minor, 9), Interval::mk(Quality::Major, 13)],
        KnownChord::DominantThirteenthSharpEleventh => seq![Interval::mk(Quality::Perfect, 1), Interval::mk(Quality::Major, 3), Interval::mk(Quality::Perfect, 5), Interval::mk(Quality::Minor, 7), Interval::mk(Quality::Major, 9), Interval::mk(Quality::Augmented(1), 11), Interval::mk(Quality::Major, 13)],
        KnownChord::DominantThirteenthFlatNinthSharpEleventh => seq![Interval::mk(Quality::Perfect, 1), Interval::mk(Quality::Major, 3), Interval::mk(Quality::Perfect, 5), Interval::mk(Quality::Minor, 7), Interval::mk(Quality::Minor, 9), Interval::mk(Quality::Augmented(1), 11), Interval::mk(Quality::Major, 13)],
    }
}

/// How a chord chart spells the known chord `k`: for each tone from the root up,
/// its number counted in letters and its height in semitones above the root (a
/// minor seventh chord is 1, b3, 5, b7: semitones 0, 3, 7, 10).
pub open spec fn known_spelling(k: KnownChord) -> Seq<(int, int)> {
    match k {
        KnownChord::MajorTriad => seq![(1, 0), (3, 4), (5, 7)],
        KnownChord::MinorTriad => seq![(1, 0), (3, 3), (5, 7)],
        KnownChord::AugmentedTriad => seq![(1, 0), (3, 4), (5, 8)],
        KnownChord::DiminishedTriad => seq![(1, 0), (3, 3), (5, 6)],
        KnownChord::SuspendedSecond => seq![(1, 0), (2, 2), (5, 7)],
        KnownChord::SuspendedFourth => seq![(1, 0), (4, 5), (5, 7)],
        KnownChord::MajorSeventh => seq![(1, 0), (3, 4), (5, 7), (7, 11)],
        KnownChord::DominantSeventh => seq![(1, 0), (3, 4), (5, 7), (7, 10)],
        KnownChord::MinorSeventh => seq![(1, 0), (3, 3), (5, 7), (7, 10)],
        KnownChord::MinorMajorSeventh => seq![(1, 0), (3, 3), (5, 7), (7, 11)],
        KnownChord::HalfDiminishedSeventh => seq![(1, 0), (3, 3), (5, 6), (7, 10)],
        KnownChord::DiminishedSeventh => seq![(1, 0), (3, 3), (5, 6), (7, 9)],
        KnownChord::AugmentedSeventh => seq![(1, 0), (3, 4), (5, 8), (7, 10)],
        KnownChord::AugmentedMajorSeventh => seq![(1, 0), (3, 4), (5, 8), (7, 11)],
        KnownChord::DominantSeventhSuspendedFourth => seq![(1, 0), (4, 5), (5, 7), (7, 10)],
        KnownChord::MajorSixth => seq![(1, 0), (3, 4), (5, 7), (6, 9)],
        KnownChord::MinorSixth => seq![(1, 0), (3, 3), (5, 7), (6, 9)],
        KnownChord::AddedNinth => seq![(1, 0), (3, 4), (5, 7), (9, 14)],
        KnownChord::SixNine => seq![(1, 0), (3, 4), (5, 7), (6, 9), (9, 14)],
        KnownChord::MajorNinth => seq![(1, 0), (3, 4), (5, 7), (7, 11), (9, 14)],
        KnownChord::DominantNinth => seq![(1, 0), (3, 4), (5, 7), (7, 10), (9, 14)],
        KnownChord::MinorNinth => seq![(1, 0), (3, 3), (5, 7), (7, 10), (9, 14)],
        KnownChord::MinorMajorNinth => seq![(1, 0), (3, 3), (5, 7), (7, 11), (9, 14)],
        KnownChord::DominantFlatNinth => seq![(1, 0), (3, 4), (5, 7), (7, 10), (9, 13)],
        KnownChord::DominantSharpNinth => seq![(1, 0), (3, 4), (5, 7), (7, 10), (9, 15)],
        KnownChord::MajorEleventh => seq![(1, 0), (3, 4), (5, 7), (7, 11), (9, 14), (11, 17)],
        KnownChord::DominantEleventh => seq![(1, 0), (3, 4), (5, 7), (7, 10), (9, 14), (11, 17)],
        KnownChord::MinorEleventh => seq![(1, 0), (3, 3), (5, 7), (7, 10), (9, 14), (11, 17)],
        KnownChord::DominantSharpEleventh => seq![(1, 0), (3, 4), (5, 7), (7, 10), (9, 14), (11, 18)],
        KnownChord::MajorSharpEleventh => seq![(1, 0), (3, 4), (5, 7), (7, 11), (9, 14), (11, 18)],
        KnownChord::MajorThirteenth => seq![(1, 0), (3, 4), (5, 7), (7, 11), (9, 14), (11, 17), (13, 21)],
        KnownChord::DominantThirteenth => seq![(1, 0), (3, 4), (5, 7), (7, 10), (9, 14), (11, 17), (13, 21)],
        KnownChord::MinorThirteenth => seq![(1, 0), (3, 3), (5, 7), (7, 10), (9, 14), (11, 17), (13, 21)],
        KnownChord::SuspendedSecondFourth => seq![(1, 0), (2, 2), (4, 5), (5, 7)],
        KnownChord::MajorSeventhSuspendedFourth => seq![(1, 0), (4, 5), (5, 7), (7, 11)],
        KnownChord::NinthSuspendedFourth => seq![(1, 0), (4, 5), (5, 7), (7, 10), (9, 14)],
        KnownChord::ThirteenthSuspendedFourth => seq![(1, 0), (4, 5), (5, 7), (7, 10), (9, 14), (13, 21)],
        KnownChord::MinorAddedNinth => seq![(1, 0), (3, 3), (5, 7), (9, 14)],
        KnownChord::MinorAddedFourth => seq![(1, 0), (3, 3), (4, 5), (5, 7)],
        KnownChord::DominantSeventhNoFifth => seq![(1, 0), (3, 4), (7, 10)],
        KnownChord::MajorSeventhNoFifth => seq![(1, 0), (3, 4), (7, 11)],
        KnownChord::DominantNinthNoFifth => seq![(1, 0), (3, 4), (7, 10), (9, 14)],
        KnownChord::MajorNinthNoFifth => seq![(1, 0), (3, 4), (7, 11), (9, 14)],
        KnownChord::DominantFlatNinthSharpEleventh => seq![(1, 0), (3, 4), (5, 7), (7, 10), (9, 13), (11, 18)],
        KnownChord::DominantSharpNinthSharpEleventh => seq![(1, 0), (3, 4), (5, 7), (7, 10), (9, 15), (11, 18)],
        KnownChord::DominantFlatNinthFlatThirteenth => seq![(1, 0), (3, 4), (5, 7), (7, 10), (9, 13), (13, 20)],
        KnownChord::DominantSharpNinthFlatThirteenth => seq![(1, 0), (3, 4), (5, 7), (7, 10), (9, 15), (13, 20)],
        KnownChord::DominantThirteenthFlatNinth => seq![(1, 0), (3, 4), (5, 7), (7, 10), (9, 13), (13, 21)],
        KnownChord::DominantThirteenthSharpEleventh => seq![(1, 0), (3, 4), (5, 7), (7, 10), (9, 14), (11, 18), (13, 21)],
        KnownChord::DominantThirteenthFlatNinthSharpEleventh => seq![(1, 0), (3, 4), (5, 7), (7, 10), (9, 13), (11, 18), (13, 21)],
    }
}

/// Whether the intervals `s` have, one by one, the numbers and semitone heights of `t`.
pub open spec fn spelled_as(s: Seq<Interval>, t: Seq<(int, int)>) -> bool {
    &&& s.len() == t.len()
    &&& forall|i: int| 0 <= i < s.len() ==> (#[trigger] s[i]).num() == t[i].0 && s[i].semis() == t[i].1
}

/// The intervals of each known chord are those of its chord-chart spelling: the
/// same numbers, the same heights in semitones, in the same order.
pub proof fn law_known_spelling(k: KnownChord)
    ensures
        spelled_as(known_intervals(k), known_spelling(k)),
{
    assert forall|q: Quality, n: int| 1 <= n <= 13 implies
        (#[trigger] Interval::mk(q, n)).qual() == q && Interval::mk(q, n).num() == n by {
        crate::interval::lemma_mk(q, n);
    }
}

/// The position of the known chord `k` in the list of known chords.
pub open spec fn known_index(k: KnownChord) -> int {
    match k {
        KnownChord::MajorTriad => 0,
        KnownChord::MinorTriad => 1,
        KnownChord::AugmentedTriad => 2,
        KnownChord::DiminishedTriad => 3,
        KnownChord::SuspendedSecond => 4,
        KnownChord::SuspendedFourth => 5,
        KnownChord::MajorSeventh => 6,
        KnownChord::DominantSeventh => 7,
        KnownChord::MinorSeventh => 8,
        KnownChord::MinorMajorSeventh => 9,
        KnownChord::HalfDiminishedSeventh => 10,
        KnownChord::DiminishedSeventh => 11,
        KnownChord::AugmentedSeventh => 12,
        KnownChord::AugmentedMajorSeventh => 13,
        KnownChord::DominantSeventhSuspendedFourth => 14,
        KnownChord::MajorSixth => 15,
        KnownChord::MinorSixth => 16,
        KnownChord::AddedNinth => 17,
        KnownChord::SixNine => 18,
        KnownChord::MajorNinth => 19,
        KnownChord::DominantNinth => 20,
        KnownChord::MinorNinth => 21,
        KnownChord::MinorMajorNinth => 22,
        KnownChord::DominantFlatNinth => 23,
        KnownChord::DominantSharpNinth => 24,
        KnownChord::MajorEleventh => 25,
        KnownChord::DominantEleventh => 26,
        KnownChord::MinorEleventh => 27,
        KnownChord::DominantSharpEleventh => 28,
        KnownChord::MajorSharpEleventh => 29,
        KnownChord::MajorThirteenth => 30,
        KnownChord::DominantThirteenth => 31,
        KnownChord::MinorThirteenth => 32,
        KnownChord::SuspendedSecondFourth => 33,
        KnownChord::MajorSeventhSuspendedFourth => 34,
        KnownChord::NinthSuspendedFourth => 35,
        KnownChord::ThirteenthSuspendedFourth => 36,
        KnownChord::MinorAddedNinth => 37,
        KnownChord::MinorAddedFourth => 38,
        KnownChord::DominantSeventhNoFifth => 39,
        KnownChord::MajorSeventhNoFifth => 40,
        KnownChord::DominantNinthNoFifth => 41,
        KnownChord::MajorNinthNoFifth => 42,
        KnownChord::DominantFlatNinthSharpEleventh => 43,
        KnownChord::DominantSharpNinthSharpEleventh => 44,
        KnownChord::DominantFlatNinthFlatThirteenth => 45,
        KnownChord::DominantSharpNinthFlatThirteenth => 46,
        KnownChord::DominantThirteenthFlatNinth => 47,
        KnownChord::DominantThirteenthSharpEleventh => 48,
        KnownChord::DominantThirteenthFlatNinthSharpEleventh => 49,
    }
}

/// The semitone heights of the spelling `t`, read as the digits of a number in base
/// 32 (each height is below 32), up to its `n`-th tone.
pub open spec fn heights_code_upto(t: Seq<(int, int)>, n: int) -> int
    decreases n,
{
    if n <= 0 {
        0
    } else {
        heights_code_upto(t, n - 1) * 32 + t[n - 1].1
    }
}

/// The semitone heights of the known chord `k`, read as the digits of a number in
/// base 32.
spec fn known_code(k: KnownChord) -> int {
    match k {
        KnownChord::MajorTriad => 135,
        KnownChord::MinorTriad => 103,
        KnownChord::AugmentedTriad => 136,
        KnownChord::DiminishedTriad => 102,
        KnownChord::SuspendedSecond => 71,
        KnownChord::SuspendedFourth => 167,
        KnownChord::MajorSeventh => 4331,
        KnownChord::DominantSeventh => 4330,
        KnownChord::MinorSeventh => 3306,
        KnownChord::MinorMajorSeventh => 3307,
        KnownChord::HalfDiminishedSeventh => 3274,
        KnownChord::DiminishedSeventh => 3273,
        KnownChord::AugmentedSeventh => 4362,
        KnownChord::AugmentedMajorSeventh => 4363,
        KnownChord::DominantSeventhSuspendedFourth => 5354,
        KnownChord::MajorSixth => 4329,
        KnownChord::MinorSixth => 3305,
        KnownChord::AddedNinth => 4334,
        KnownChord::SixNine => 138542,
        KnownChord::MajorNinth => 138606,
        KnownChord::DominantNinth => 138574,
        KnownChord::MinorNinth => 105806,
        KnownChord::MinorMajorNinth => 105838,
        KnownChord::DominantFlatNinth => 138573,
        KnownChord::DominantSharpNinth => 138575,
        KnownChord::MajorEleventh => 4435409,
        KnownChord::DominantEleventh => 4434385,
        KnownChord::MinorEleventh => 3385809,
        KnownChord::DominantSharpEleventh => 4434386,
        KnownChord::MajorSharpEleventh => 4435410,
        KnownChord::MajorThirteenth => 141933109,
        KnownChord::DominantThirteenth => 141900341,
        KnownChord::MinorThirteenth => 108345909,
        KnownChord::SuspendedSecondFourth => 2215,
        KnownChord::MajorSeventhSuspendedFourth => 5355,
        KnownChord::NinthSuspendedFourth => 171342,
        KnownChord::ThirteenthSuspendedFourth => 5482965,
        KnownChord::MinorAddedNinth => 3310,
        KnownChord::MinorAddedFourth => 3239,
        KnownChord::DominantSeventhNoFifth => 138,
        KnownChord::MajorSeventhNoFifth => 139,
        KnownChord::DominantNinthNoFifth => 4430,
        KnownChord::MajorNinthNoFifth => 4462,
        KnownChord::DominantFlatNinthSharpEleventh => 4434354,
        KnownChord::DominantSharpNinthSharpEleventh => 4434418,
        KnownChord::DominantFlatNinthFlatThirteenth => 4434356,
        KnownChord::DominantSharpNinthFlatThirteenth => 4434420,
        KnownChord::DominantThirteenthFlatNinth => 4434357,
        KnownChord::DominantThirteenthSharpEleventh => 141900373,
        KnownChord::DominantThirteenthFlatNinthSharpEleventh => 141899349,
    }
}

/// The known chord whose semitone heights read as `c`, if any.
spec fn chord_of_code(c: int) -> Option<KnownChord> {
    if c == 135 {
        Some(KnownChord::MajorTriad)
    } else if c == 103 {
        Some(KnownChord::MinorTriad)
    } else if c == 136 {
        Some(KnownChord::AugmentedTriad)
    } else if c == 102 {
        Some(KnownChord::DiminishedTriad)
    } else if c == 71 {
        Some(KnownChord::SuspendedSecond)
    } else if c == 167 {
        Some(KnownChord::SuspendedFourth)
    } else if c == 4331 {
        Some(KnownChord::MajorSeventh)
    } else if c == 4330 {
        Some(KnownChord::DominantSeventh)
    } else if c == 3306 {
        Some(KnownChord::MinorSeventh)
    } else if c == 3307 {
        Some(KnownChord::MinorMajorSeventh)
    } else if c == 3274 {
        Some(KnownChord::HalfDiminishedSeventh)
    } else if c == 3273 {
        Some(KnownChord::DiminishedSeventh)
    } else if c == 4362 {
        Some(KnownChord::AugmentedSeventh)
    } else if c == 4363 {
        Some(KnownChord::AugmentedMajorSeventh)
    } else if c == 5354 {
        Some(KnownChord::DominantSeventhSuspendedFourth)
    } else if c == 4329 {
        Some(KnownChord::MajorSixth)
    } else if c == 3305 {
        Some(KnownChord::MinorSixth)
    } else if c == 4334 {
        Some(KnownChord::AddedNinth)
    } else if c == 138542 {
        Some(KnownChord::SixNine)
    } else if c == 138606 {
        Some(KnownChord::MajorNinth)
    } else if c == 138574 {
        Some(KnownChord::DominantNinth)
    } else if c == 105806 {
        Some(KnownChord::MinorNinth)
    } else if c == 105838 {
        Some(KnownChord::MinorMajorNinth)
    } else if c == 138573 {
        Some(KnownChord::DominantFlatNinth)
    } else if c == 138575 {
        Some(KnownChord::DominantSharpNinth)
    } else if c == 4435409 {
        Some(KnownChord::MajorEleventh)
    } else if c == 4434385 {
        Some(KnownChord::DominantEleventh)
    } else if c == 3385809 {
        Some(KnownChord::MinorEleventh)
    } else if c == 4434386 {
        Some(KnownChord::DominantSharpEleventh)
    } else if c == 4435410 {
        Some(KnownChord::MajorSharpEleventh)
    } else if c == 141933109 {
        Some(KnownChord::MajorThirteenth)
    } else if c == 141900341 {
        Some(KnownChord::DominantThirteenth)
    } else if c == 108345909 {
        Some(KnownChord::MinorThirteenth)
    } else if c == 2215 {
        Some(KnownChord::SuspendedSecondFourth)
    } else if c == 5355 {
        Some(KnownChord::MajorSeventhSuspendedFourth)
    } else if c == 171342 {
        Some(KnownChord::NinthSuspendedFourth)
    } else if c == 5482965 {
        Some(KnownChord::ThirteenthSuspendedFourth)
    } else if c == 3310 {
        Some(KnownChord::MinorAddedNinth)
    } else if c == 3239 {
        Some(KnownChord::MinorAddedFourth)
    } else if c == 138 {
        Some(KnownChord::DominantSeventhNoFifth)
    } else if c == 139 {
        Some(KnownChord::MajorSeventhNoFifth)
    } else if c == 4430 {
        Some(KnownChord::DominantNinthNoFifth)
    } else if c == 4462 {
        Some(KnownChord::MajorNinthNoFifth)
    } else if c == 4434354 {
        Some(KnownChord::DominantFlatNinthSharpEleventh)
    } else if c == 4434418 {
        Some(KnownChord::DominantSharpNinthSharpEleventh)
    } else if c == 4434356 {
        Some(KnownChord::DominantFlatNinthFlatThirteenth)
    } else if c == 4434420 {
        Some(KnownChord::DominantSharpNinthFlatThirteenth)
    } else if c == 4434357 {
        Some(KnownChord::DominantThirteenthFlatNinth)
    } else if c == 141900373 {
        Some(KnownChord::DominantThirteenthSharpEleventh)
    } else if c == 141899349 {
        Some(KnownChord::DominantThirteenthFlatNinthSharpEleventh)
    } else {
        None
    }
}

/// Each known chord sits in the list at its position, and its semitone heights read
/// as its code.
proof fn lemma_known_index_code(k: KnownChord)
    ensures
        0 <= known_index(k) < known_count(),
        known_at(known_index(k)) == k,
        heights_code_upto(known_spelling(k), known_spelling(k).len() as int) == known_code(k),
        chord_of_code(known_code(k)) == Some(k),
{
    reveal_with_fuel(heights_code_upto, 8);
}

/// A list of intervals has one spelling.
proof fn lemma_spelled_unique(s: Seq<Interval>, t1: Seq<(int, int)>, t2: Seq<(int, int)>)
    requires
        spelled_as(s, t1),
        spelled_as(s, t2),
    ensures
        t1 == t2,
{
    assert forall|i: int| 0 <= i < t1.len() implies t1[i] == t2[i] by {
        assert(s[i].num() == t1[i].0 && s[i].semis() == t1[i].1);
    }
    assert(t1 =~= t2);
}

/// No two known chords have the same intervals.
pub proof fn law_known_distinct(a: KnownChord, b: KnownChord)
    ensures
        known_intervals(a) == known_intervals(b) ==> a == b,
{
    if known_intervals(a) == known_intervals(b) {
        law_known_spelling(a);
        law_known_spelling(b);
        lemma_spelled_unique(known_intervals(a), known_spelling(a), known_spelling(b));
        lemma_known_index_code(a);
        lemma_known_index_code(b);
    }
}

/// The search from position `i` finds the chord at `t` when no chord between them
/// has the intervals `s`.
proof fn lemma_first_known_at(s: Seq<Interval>, i: int, t: int)
    requires
        0 <= i <= t < known_count(),
        known_intervals(known_at(t)) == s,
        forall|j: int| i <= j < t ==> known_intervals(#[trigger] known_at(j)) != s,
    ensures
        first_known(s, i) == Some(known_at(t)),
    decreases t - i,
{
    if i < t {
        lemma_first_known_at(s, i + 1, t);
    }
}

/// Naming the intervals of a known chord gives that chord back.
pub proof fn law_find_known_roundtrip(k: KnownChord)
    ensures
        first_known(known_intervals(k), 0) == Some(k),
{
    lemma_known_index_code(k);
    let t = known_index(k);
    assert forall|j: int| 0 <= j < t implies known_intervals(#[trigger] known_at(j)) != known_intervals(k) by {
        lemma_known_index_code(known_at(j));
        law_known_distinct(known_at(j), k);
        if known_at(j) == k {
            assert(known_index(known_at(j)) == j) by { lemma_known_at_index(j); }
        }
    }
    lemma_first_known_at(known_intervals(k), 0, t);
}

/// The chord at position `j` of the list has position `j`.
proof fn lemma_known_at_index(j: int)
    requires
        0 <= j < known_count(),
    ensures
        known_index(known_at(j)) == j,
{
}

/// A chord found for the intervals `s` has exactly those intervals.
pub proof fn law_find_known_sound(s: Seq<Interval>, i: int)
    ensures
        first_known(s, i) matches Some(k) ==> known_intervals(k) == s,
    decreases known_count() - i,
{
    if 0 <= i < known_count() && known_intervals(known_at(i)) != s {
        law_find_known_sound(s, i + 1);
    }
}

/// The name of the known chord `k`, such as `major triad`.
pub open spec fn known_name(k: KnownChord) -> Seq<char> {
    match k {
        KnownChord::MajorTriad => "major triad"@,
        KnownChord::MinorTriad => "minor triad"@,
        KnownChord::AugmentedTriad => "augmented triad"@,
        KnownChord::DiminishedTriad => "diminished triad"@,
        KnownChord::SuspendedSecond => "suspended 2nd"@,
        KnownChord::SuspendedFourth => "suspended 4th"@,
        KnownChord::MajorSeventh => "major seventh"@,
        KnownChord::DominantSeventh => "dominant seventh"@,
        KnownChord::MinorSeventh => "minor seventh"@,
        KnownChord::MinorMajorSeventh => "minor-major seventh"@,
        KnownChord::HalfDiminishedSeventh => "half-diminished seventh"@,
        KnownChord::DiminishedSeventh => "diminished seventh"@,
        KnownChord::AugmentedSeventh => "augmented seventh"@,
        KnownChord::AugmentedMajorSeventh => "augmented major seventh"@,
        KnownChord::DominantSeventhSuspendedFourth => "dominant seventh suspended 4th"@,
        KnownChord::MajorSixth => "major sixth"@,
        KnownChord::MinorSixth => "minor sixth"@,
        KnownChord::AddedNinth => "added ninth"@,
        KnownChord::SixNine => "six-nine"@,
        KnownChord::MajorNinth => "major ninth"@,
        KnownChord::DominantNinth => "dominant ninth"@,
        KnownChord::MinorNinth => "minor ninth"@,
        KnownChord::MinorMajorNinth => "minor-major ninth"@,
        KnownChord::DominantFlatNinth => "dominant flat ninth"@,
        KnownChord::DominantSharpNinth => "dominant sharp ninth"@,
        KnownChord::MajorEleventh => "major eleventh"@,
        KnownChord::DominantEleventh => "dominant eleventh"@,
        KnownChord::MinorEleventh => "minor eleventh"@,
        KnownChord::DominantSharpEleventh => "dominant sharp eleventh"@,
        KnownChord::MajorSharpEleventh => "major sharp eleventh"@,
        KnownChord::MajorThirteenth => "major thirteenth"@,
        KnownChord::DominantThirteenth => "dominant thirteenth"@,
        KnownChord::MinorThirteenth => "minor thirteenth"@,
        KnownChord::SuspendedSecondFourth => "suspended 2nd 4th"@,
        KnownChord::MajorSeventhSuspendedFourth => "major seventh suspended 4th"@,
        KnownChord::NinthSuspendedFourth => "ninth suspended 4th"@,
        KnownChord::ThirteenthSuspendedFourth => "thirteenth suspended 4th"@,
        KnownChord::MinorAddedNinth => "minor added ninth"@,
        KnownChord::MinorAddedFourth => "minor added fourth"@,
        KnownChord::DominantSeventhNoFifth => "dominant seventh no fifth"@,
        KnownChord::MajorSeventhNoFifth => "major seventh no fifth"@,
        KnownChord::DominantNinthNoFifth => "dominant ninth no fifth"@,
        KnownChord::MajorNinthNoFifth => "major ninth no fifth"@,
        KnownChord::DominantFlatNinthSharpEleventh => "dominant flat ninth sharp eleventh"@,
        KnownChord::DominantSharpNinthSharpEleventh => "dominant sharp ninth sharp eleventh"@,
        KnownChord::DominantFlatNinthFlatThirteenth => "dominant flat ninth flat thirteenth"@,
        KnownChord::DominantSharpNinthFlatThirteenth => "dominant sharp ninth flat thirteenth"@,
        KnownChord::DominantThirteenthFlatNinth => "dominant thirteenth flat ninth"@,
        KnownChord::DominantThirteenthSharpEleventh => "dominant thirteenth sharp eleventh"@,
        KnownChord::DominantThirteenthFlatNinthSharpEleventh => "dominant thirteenth flat ninth sharp eleventh"@,
    }
}

/// The first known chord, from position `i` on in the list, whose intervals are `s`.
pub open spec fn first_known(s: Seq<Interval>, i: int) -> Option<KnownChord>
    decreases known_count() - i,
{
    if i < 0 || i >= known_count() {
        None
    } else if known_intervals(known_at(i)) == s {
        Some(known_at(i))
    } else {
        first_known(s, i + 1)
    }
}

/// The known chord at position `i` in the list of known chords.
fn known_chord_at(i: usize) -> (r: KnownChord)
    requires
        i < 50,
    ensures
        r == known_at(i as int),
{
    match i {
        0 => KnownChord::MajorTriad,
        1 => KnownChord::MinorTriad,
        2 => KnownChord::AugmentedTriad,
        3 => KnownChord::DiminishedTriad,
        4 => KnownChord::SuspendedSecond,
        5 => KnownChord::SuspendedFourth,
        6 => KnownChord::MajorSeventh,
        7 => KnownChord::DominantSeventh,
        8 => KnownChord::MinorSeventh,
        9 => KnownChord::MinorMajorSeventh,
        10 => KnownChord::HalfDiminishedSeventh,
        11 => KnownChord::DiminishedSeventh,
        12 => KnownChord::AugmentedSeventh,
        13 => KnownChord::AugmentedMajorSeventh,
        14 => KnownChord::DominantSeventhSuspendedFourth,
        15 => KnownChord::MajorSixth,
        16 => KnownChord::MinorSixth,
        17 => KnownChord::AddedNinth,
        18 => KnownChord::SixNine,
        19 => KnownChord::MajorNinth,
        20 => KnownChord::DominantNinth,
        21 => KnownChord::MinorNinth,
        22 => KnownChord::MinorMajorNinth,
        23 => KnownChord::DominantFlatNinth,
        24 => KnownChord::DominantSharpNinth,
        25 => KnownChord::MajorEleventh,
        26 => KnownChord::DominantEleventh,
        27 => KnownChord::MinorEleventh,
        28 => KnownChord::DominantSharpEleventh,
        29 => KnownChord::MajorSharpEleventh,
        30 => KnownChord::MajorThirteenth,
        31 => KnownChord::DominantThirteenth,
        32 => KnownChord::MinorThirteenth,
        33 => KnownChord::SuspendedSecondFourth,
        34 => KnownChord::MajorSeventhSuspendedFourth,
        35 => KnownChord::NinthSuspendedFourth,
        36 => KnownChord::ThirteenthSuspendedFourth,
        37 => KnownChord::MinorAddedNinth,
        38 => KnownChord::MinorAddedFourth,
        39 => KnownChord::DominantSeventhNoFifth,
        40 => KnownChord::MajorSeventhNoFifth,
        41 => KnownChord::DominantNinthNoFifth,
        42 => KnownChord::MajorNinthNoFifth,
        43 => KnownChord::DominantFlatNinthSharpEleventh,
        44 => KnownChord::DominantSharpNinthSharpEleventh,
        45 => KnownChord::DominantFlatNinthFlatThirteenth,
        46 => KnownChord::DominantSharpNinthFlatThirteenth,
        47 => KnownChord::DominantThirteenthFlatNinth,
        48 => KnownChord::DominantThirteenthSharpEleventh,
        _ => KnownChord::DominantThirteenthFlatNinthSharpEleventh,
    }
}

/// The known chord whose intervals above the root are `intervals`, the first in the
/// list when several are, or `None`.
pub fn find_known(intervals: &[Interval]) -> (r: Option<KnownChord>)
    ensures
        r == first_known(intervals@, 0),
{
    let mut i: usize = 0;
    while i < 50
        invariant
            i <= 50,
            first_known(intervals@, 0) == first_known(intervals@, i as int),
        decreases 50 - i,
    {
        let k = known_chord_at(i);
        let data = k.intervals();
        let mut same = data.len() == intervals.len();
        let mut j: usize = 0;
        while same && j < data.len()
            invariant
                j <= data@.len(),
                data@ == known_intervals(k),
                same ==> data@.len() == intervals@.len(),
                same ==> forall|m: int| 0 <= m < j ==> data@[m] == intervals@[m],
                !same ==> data@ != intervals@,
            decreases data@.len() - j,
        {
            if data[j] != intervals[j] {
                same = false;
            }
            j = j + 1;
        }
        if same {
            proof { assert(data@ =~= intervals@); }
            return Some(k);
        }
        i = i + 1;
    }
    None
}

impl KnownChord {
    /// The name of the chord, such as `major triad`.
    pub fn name(self) -> (r: &'static str)
        ensures
            r@ == known_name(self),
    {
        match self {
            KnownChord::MajorTriad => "major triad",
            KnownChord::MinorTriad => "minor triad",
            KnownChord::AugmentedTriad => "augmented triad",
            KnownChord::DiminishedTriad => "diminished triad",
            KnownChord::SuspendedSecond => "suspended 2nd",
            KnownChord::SuspendedFourth => "suspended 4th",
            KnownChord::MajorSeventh => "major seventh",
            KnownChord::DominantSeventh => "dominant seventh",
            KnownChord::MinorSeventh => "minor seventh",
            KnownChord::MinorMajorSeventh => "minor-major seventh",
            KnownChord::HalfDiminishedSeventh => "half-diminished seventh",
            KnownChord::DiminishedSeventh => "diminished seventh",
            KnownChord::AugmentedSeventh => "augmented seventh",
            KnownChord::AugmentedMajorSeventh => "augmented major seventh",
            KnownChord::DominantSeventhSuspendedFourth => "dominant seventh suspended 4th",
            KnownChord::MajorSixth => "major sixth",
            KnownChord::MinorSixth => "minor sixth",
            KnownChord::AddedNinth => "added ninth",
            KnownChord::SixNine => "six-nine",
            KnownChord::MajorNinth => "major ninth",
            KnownChord::DominantNinth => "dominant ninth",
            KnownChord::MinorNinth => "minor ninth",
            KnownChord::MinorMajorNinth => "minor-major ninth",
            KnownChord::DominantFlatNinth => "dominant flat ninth",
            KnownChord::DominantSharpNinth => "dominant sharp ninth",
            KnownChord::MajorEleventh => "major eleventh",
            KnownChord::DominantEleventh => "dominant eleventh",
            KnownChord::MinorEleventh => "minor eleventh",
            KnownChord::DominantSharpEleventh => "dominant sharp eleventh",
            KnownChord::MajorSharpEleventh => "major sharp eleventh",
            KnownChord::MajorThirteenth => "major thirteenth",
            KnownChord::DominantThirteenth => "dominant thirteenth",
            KnownChord::MinorThirteenth => "minor thirteenth",
            KnownChord::SuspendedSecondFourth => "suspended 2nd 4th",
            KnownChord::MajorSeventhSuspendedFourth => "major seventh suspended 4th",
            KnownChord::NinthSuspendedFourth => "ninth suspended 4th",
            KnownChord::ThirteenthSuspendedFourth => "thirteenth suspended 4th",
            KnownChord::MinorAddedNinth => "minor added ninth",
            KnownChord::MinorAddedFourth => "minor added fourth",
            KnownChord::DominantSeventhNoFifth => "dominant seventh no fifth",
            KnownChord::MajorSeventhNoFifth => "major seventh no fifth",
            KnownChord::DominantNinthNoFifth => "dominant ninth no fifth",
            KnownChord::MajorNinthNoFifth => "major ninth no fifth",
            KnownChord::DominantFlatNinthSharpEleventh => "dominant flat ninth sharp eleventh",
            KnownChord::DominantSharpNinthSharpEleventh => "dominant sharp ninth sharp eleventh",
            KnownChord::DominantFlatNinthFlatThirteenth => "dominant flat ninth flat thirteenth",
            KnownChord::DominantSharpNinthFlatThirteenth => "dominant sharp ninth flat thirteenth",
            KnownChord::DominantThirteenthFlatNinth => "dominant thirteenth flat ninth",
            KnownChord::DominantThirteenthSharpEleventh => "dominant thirteenth sharp eleventh",
            KnownChord::DominantThirteenthFlatNinthSharpEleventh => "dominant thirteenth flat ninth sharp eleventh",
        }
    }

    /// The name of the chord, as text.
    pub fn to_string(self) -> (r: String)
        ensures
            r@ == known_name(self),
    {
        String::from_str(self.name())
    }

    /// The intervals above the root of the chord, from the unison up.
    pub fn intervals(self) -> (r: Vec<Interval>)
        ensures
            r@ == known_intervals(self),
    {
        let mut v: Vec<Interval> = Vec::new();
        match self {
            KnownChord::MajorTriad => {
                v.push(Interval::PERFECT_UNISON());
                v.push(Interval::MAJOR_THIRD());
                v.push(Interval::PERFECT_FIFTH());
            },
            KnownChord::MinorTriad => {
                v.push(Interval::PERFECT_UNISON());
                v.push(Interval::MINOR_THIRD());
                v.push(Interval::PERFECT_FIFTH());
            },
            KnownChord::AugmentedTriad => {
                v.push(Interval::PERFECT_UNISON());
                v.push(Interval::MAJOR_THIRD());
                v.push(Interval::AUGMENTED_FIFTH());
            },
            KnownChord::DiminishedTriad => {
                v.push(Interval::PERFECT_UNISON());
                v.push(Interval::MINOR_THIRD());
                v.push(Interval::DIMINISHED_FIFTH());
            },
            KnownChord::SuspendedSecond => {
                v.push(Interval::PERFECT_UNISON());
                v.push(Interval::MAJOR_SECOND());
                v.push(Interval::PERFECT_FIFTH());
            },
            KnownChord::SuspendedFourth => {
                v.push(Interval::PERFECT_UNISON());
                v.push(Interval::PERFECT_FOURTH());
                v.push(Interval::PERFECT_FIFTH());
            },
            KnownChord::MajorSeventh => {
                v.push(Interval::PERFECT_UNISON());
                v.push(Interval::MAJOR_THIRD());
                v.push(Interval::PERFECT_FIFTH());
                v.push(Interval::MAJOR_SEVENTH());
            },
            KnownChord::DominantSeventh => {
                v.push(Interval::PERFECT_UNISON());
                v.push(Interval::MAJOR_THIRD());
                v.push(Interval::PERFECT_FIFTH());
                v.push(Interval::MINOR_SEVENTH());
            },
            KnownChord::MinorSeventh => {
                v.push(Interval::PERFECT_UNISON());
                v.push(Interval::MINOR_THIRD());
                v.push(Interval::PERFECT_FIFTH());
                v.push(Interval::MINOR_SEVENTH());
            },
            KnownChord::MinorMajorSeventh => {
                v.push(Interval::PERFECT_UNISON());
                v.push(Interval::MINOR_THIRD());
                v.push(Interval::PERFECT_FIFTH());
                v.push(Interval::MAJOR_SEVENTH());
            },
            KnownChord::HalfDiminishedSeventh => {
                v.push(Interval::PERFECT_UNISON());
                v.push(Interval::MINOR_THIRD());
                v.push(Interval::DIMINISHED_FIFTH());
                v.push(Interval::MINOR_SEVENTH());
            },
            KnownChord::DiminishedSeventh => {
                v.push(Interval::PERFECT_UNISON());
                v.push(Interval::MINOR_THIRD());
                v.push(Interval::DIMINISHED_FIFTH());
                v.push(Interval::DIMINISHED_SEVENTH());
            },
            KnownChord::AugmentedSeventh => {
                v.push(Interval::PERFECT_UNISON());
                v.push(Interval::MAJOR_THIRD());
                v.push(Interval::AUGMENTED_FIFTH());
                v.push(Interval::MINOR_SEVENTH());
            },
            KnownChord::AugmentedMajorSeventh => {
                v.push(Interval::PERFECT_UNISON());
                v.push(Interval::MAJOR_THIRD());
                v.push(Interval::AUGMENTED_FIFTH());
                v.push(Interval::MAJOR_SEVENTH());
            },
            KnownChord::DominantSeventhSuspendedFourth => {
                v.push(Interval::PERFECT_UNISON());
                v.push(Interval::PERFECT_FOURTH());
                v.push(Interval::PERFECT_FIFTH());
                v.push(Interval::MINOR_SEVENTH());
            },
            KnownChord::MajorSixth => {
                v.push(Interval::PERFECT_UNISON());
                v.push(Interval::MAJOR_THIRD());
                v.push(Interval::PERFECT_FIFTH());
                v.push(Interval::MAJOR_SIXTH());
            },
            KnownChord::MinorSixth => {
                v.push(Interval::PERFECT_UNISON());
                v.push(Interval::MINOR_THIRD());
                v.push(Interval::PERFECT_FIFTH());
                v.push(Interval::MAJOR_SIXTH());
            },
            KnownChord::AddedNinth => {
                v.push(Interval::PERFECT_UNISON());
                v.push(Interval::MAJOR_THIRD());
                v.push(Interval::PERFECT_FIFTH());
                v.push(Interval::MAJOR_NINTH());
            },
            KnownChord::SixNine => {
                v.push(Interval::PERFECT_UNISON());
                v.push(Interval::MAJOR_THIRD());
                v.push(Interval::PERFECT_FIFTH());
                v.push(Interval::MAJOR_SIXTH());
                v.push(Interval::MAJOR_NINTH());
            },
            KnownChord::MajorNinth => {
                v.push(Interval::PERFECT_UNISON());
                v.push(Interval::MAJOR_THIRD());
                v.push(Interval::PERFECT_FIFTH());
                v.push(Interval::MAJOR_SEVENTH());
                v.push(Interval::MAJOR_NINTH());
            },
            KnownChord::DominantNinth => {
                v.push(Interval::PERFECT_UNISON());
                v.push(Interval::MAJOR_THIRD());
                v.push(Interval::PERFECT_FIFTH());
                v.push(Interval::MINOR_SEVENTH());
                v.push(Interval::MAJOR_NINTH());
            },
            KnownChord::MinorNinth => {
                v.push(Interval::PERFECT_UNISON());
                v.push(Interval::MINOR_THIRD());
                v.push(Interval::PERFECT_FIFTH());
                v.push(Interval::MINOR_SEVENTH());
                v.push(Interval::MAJOR_NINTH());
            },
            KnownChord::MinorMajorNinth => {
                v.push(Interval::PERFECT_UNISON());
                v.push(Interval::MINOR_THIRD());
                v.push(Interval::PERFECT_FIFTH());
                v.push(Interval::MAJOR_SEVENTH());
                v.push(Interval::MAJOR_NINTH());
            },
            KnownChord::DominantFlatNinth => {
                v.push(Interval::PERFECT_UNISON());
                v.push(Interval::MAJOR_THIRD());
                v.push(Interval::PERFECT_FIFTH());
                v.push(Interval::MINOR_SEVENTH());
                v.push(Interval::MINOR_NINTH());
            },
            KnownChord::DominantSharpNinth => {
                v.push(Interval::PERFECT_UNISON());
                v.push(Interval::MAJOR_THIRD());
                v.push(Interval::PERFECT_FIFTH());
                v.push(Interval::MINOR_SEVENTH());
                v.push(Interval::AUGMENTED_NINTH());
            },
            KnownChord::MajorEleventh => {
                v.push(Interval::PERFECT_UNISON());
                v.push(Interval::MAJOR_THIRD());
                v.push(Interval::PERFECT_FIFTH());
                v.push(Interval::MAJOR_SEVENTH());
                v.push(Interval::MAJOR_NINTH());
                v.push(Interval::PERFECT_ELEVENTH());
            },
            KnownChord::DominantEleventh => {
                v.push(Interval::PERFECT_UNISON());
                v.push(Interval::MAJOR_THIRD());
                v.push(Interval::PERFECT_FIFTH());
                v.push(Interval::MINOR_SEVENTH());
                v.push(Interval::MAJOR_NINTH());
                v.push(Interval::PERFECT_ELEVENTH());
            },
            KnownChord::MinorEleventh => {
                v.push(Interval::PERFECT_UNISON());
                v.push(Interval::MINOR_THIRD());
                v.push(Interval::PERFECT_FIFTH());
                v.push(Interval::MINOR_SEVENTH());
                v.push(Interval::MAJOR_NINTH());
                v.push(Interval::PERFECT_ELEVENTH());
            },
            KnownChord::DominantSharpEleventh => {
                v.push(Interval::PERFECT_UNISON());
                v.push(Interval::MAJOR_THIRD());
                v.push(Interval::PERFECT_FIFTH());
                v.push(Interval::MINOR_SEVENTH());
                v.push(Interval::MAJOR_NINTH());
                v.push(Interval::AUGMENTED_ELEVENTH());
            },
            KnownChord::MajorSharpEleventh => {
                v.push(Interval::PERFECT_UNISON());
                v.push(Interval::MAJOR_THIRD());
                v.push(Interval::PERFECT_FIFTH());
                v.push(Interval::MAJOR_SEVENTH());
                v.push(Interval::MAJOR_NINTH());
                v.push(Interval::AUGMENTED_ELEVENTH());
            },
            KnownChord::MajorThirteenth => {
                v.push(Interval::PERFECT_UNISON());
                v.push(Interval::MAJOR_THIRD());
                v.push(Interval::PERFECT_FIFTH());
                v.push(Interval::MAJOR_SEVENTH());
                v.push(Interval::MAJOR_NINTH());
                v.push(Interval::PERFECT_ELEVENTH());
                v.push(Interval::MAJOR_THIRTEENTH());
            },
            KnownChord::DominantThirteenth => {
                v.push(Interval::PERFECT_UNISON());
                v.push(Interval::MAJOR_THIRD());
                v.push(Interval::PERFECT_FIFTH());
                v.push(Interval::MINOR_SEVENTH());
                v.push(Interval::MAJOR_NINTH());
                v.push(Interval::PERFECT_ELEVENTH());
                v.push(Interval::MAJOR_THIRTEENTH());
            },
            KnownChord::MinorThirteenth => {
                v.push(Interval::PERFECT_UNISON());
                v.push(Interval::MINOR_THIRD());
                v.push(Interval::PERFECT_FIFTH());
                v.push(Interval::MINOR_SEVENTH());
                v.push(Interval::MAJOR_NINTH());
                v.push(Interval::PERFECT_ELEVENTH());
                v.push(Interval::MAJOR_THIRTEENTH());
            },
            KnownChord::SuspendedSecondFourth => {
                v.push(Interval::PERFECT_UNISON());
                v.push(Interval::MAJOR_SECOND());
                v.push(Interval::PERFECT_FOURTH());
                v.push(Interval::PERFECT_FIFTH());
            },
            KnownChord::MajorSeventhSuspendedFourth => {
                v.push(Interval::PERFECT_UNISON());
                v.push(Interval::PERFECT_FOURTH());
                v.push(Interval::PERFECT_FIFTH());
                v.push(Interval::MAJOR_SEVENTH());
            },
            KnownChord::NinthSuspendedFourth => {
                v.push(Interval::PERFECT_UNISON());
                v.push(Interval::PERFECT_FOURTH());
                v.push(Interval::PERFECT_FIFTH());
                v.push(Interval::MINOR_SEVENTH());
                v.push(Interval::MAJOR_NINTH());
            },
            KnownChord::ThirteenthSuspendedFourth => {
                v.push(Interval::PERFECT_UNISON());
                v.push(Interval::PERFECT_FOURTH());
                v.push(Interval::PERFECT_FIFTH());
                v.push(Interval::MINOR_SEVENTH());
                v.push(Interval::MAJOR_NINTH());
                v.push(Interval::MAJOR_THIRTEENTH());
            },
            KnownChord::MinorAddedNinth => {
                v.push(Interval::PERFECT_UNISON());
                v.push(Interval::MINOR_THIRD());
                v.push(Interval::PERFECT_FIFTH());
                v.push(Interval::MAJOR_NINTH());
            },
            KnownChord::MinorAddedFourth => {
                v.push(Interval::PERFECT_UNISON());
                v.push(Interval::MINOR_THIRD());
                v.push(Interval::PERFECT_FOURTH());
                v.push(Interval::PERFECT_FIFTH());
            },
            KnownChord::DominantSeventhNoFifth => {
                v.push(Interval::PERFECT_UNISON());
                v.push(Interval::MAJOR_THIRD());
                v.push(Interval::MINOR_SEVENTH());
            },
            KnownChord::MajorSeventhNoFifth => {
                v.push(Interval::PERFECT_UNISON());
                v.push(Interval::MAJOR_THIRD());
                v.push(Interval::MAJOR_SEVENTH());
            },
            KnownChord::DominantNinthNoFifth => {
                v.push(Interval::PERFECT_UNISON());
                v.push(Interval::MAJOR_THIRD());
                v.push(Interval::MINOR_SEVENTH());
                v.push(Interval::MAJOR_NINTH());
            },
            KnownChord::MajorNinthNoFifth => {
                v.push(Interval::PERFECT_UNISON());
                v.push(Interval::MAJOR_THIRD());
                v.push(Interval::MAJOR_SEVENTH());
                v.push(Interval::MAJOR_NINTH());
            },
            KnownChord::DominantFlatNinthSharpEleventh => {
                v.push(Interval::PERFECT_UNISON());
                v.push(Interval::MAJOR_THIRD());
                v.push(Interval::PERFECT_FIFTH());
                v.push(Interval::MINOR_SEVENTH());
                v.push(Interval::MINOR_NINTH());
                v.push(Interval::AUGMENTED_ELEVENTH());
            },
            KnownChord::DominantSharpNinthSharpEleventh => {
                v.push(Interval::PERFECT_UNISON());
                v.push(Interval::MAJOR_THIRD());
                v.push(Interval::PERFECT_FIFTH());
                v.push(Interval::MINOR_SEVENTH());
                v.push(Interval::AUGMENTED_NINTH());
                v.push(Interval::AUGMENTED_ELEVENTH());
            },
            KnownChord::DominantFlatNinthFlatThirteenth => {
                v.push(Interval::PERFECT_UNISON());
                v.push(Interval::MAJOR_THIRD());
                v.push(Interval::PERFECT_FIFTH());
                v.push(Interval::MINOR_SEVENTH());
                v.push(Interval::MINOR_NINTH());
                v.push(Interval::MINOR_THIRTEENTH());
            },
            KnownChord::DominantSharpNinthFlatThirteenth => {
                v.push(Interval::PERFECT_UNISON());
                v.push(Interval::MAJOR_THIRD());
                v.push(Interval::PERFECT_FIFTH());
                v.push(Interval::MINOR_SEVENTH());
                v.push(Interval::AUGMENTED_NINTH());
                v.push(Interval::MINOR_THIRTEENTH());
            },
            KnownChord::DominantThirteenthFlatNinth => {
                v.push(Interval::PERFECT_UNISON());
                v.push(Interval::MAJOR_THIRD());
                v.push(Interval::PERFECT_FIFTH());
                v.push(Interval::MINOR_SEVENTH());
                v.push(Interval::MINOR_NINTH());
                v.push(Interval::MAJOR_THIRTEENTH());
            },
            KnownChord::DominantThirteenthSharpEleventh => {
                v.push(Interval::PERFECT_UNISON());
                v.push(Interval::MAJOR_THIRD());
                v.push(Interval::PERFECT_FIFTH());
                v.push(Interval::MINOR_SEVENTH());
                v.push(Interval::MAJOR_NINTH());
                v.push(Interval::AUGMENTED_ELEVENTH());
                v.push(Interval::MAJOR_THIRTEENTH());
            },
            KnownChord::DominantThirteenthFlatNinthSharpEleventh => {
                v.push(Interval::PERFECT_UNISON());
                v.push(Interval::MAJOR_THIRD());
                v.push(Interval::PERFECT_FIFTH());
                v.push(Interval::MINOR_SEVENTH());
                v.push(Interval::MINOR_NINTH());
                v.push(Interval::AUGMENTED_ELEVENTH());
                v.push(Interval::MAJOR_THIRTEENTH());
            },
        }
        v
    }
}

} // verus!
