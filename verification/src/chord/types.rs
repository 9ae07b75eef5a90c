//! Chord types by name, each with the intervals above its root.

use vstd::prelude::*;
use crate::interval::{Interval, Quality};

verus! {

/// A type of chord, such as a major triad or a dominant seventh.
#[derive(Copy, Clone, Eq, PartialEq, Debug, Hash, Structural)]
pub enum ChordType {
    MajorTriad,
    MinorTriad,
    AugmentedTriad,
    DiminishedTriad,
    Suspended2Triad,
    Suspended4Triad,
    Fifth,
    MajorSixth,
    MinorSixth,
    MinorFlatSixth,
    DiminishedSeventh,
    HalfDiminishedSeventh,
    MinorSeventh,
    MinorMajorSeventh,
    DominantSeventh,
    MajorSeventh,
    AugmentedSeventh,
    AugmentedMajorSeventh,
    DominantSeventhFlatFive,
    DominantNinth,
    DominantEleventh,
    DominantThirteenth,
    Lydian,
    LydianAugmented,
    SeventhAugmentedFifth,
    SeventhMinorNinth,
    SeventhSharpNinth,
    SeventhAugmentedEleventh,
    SeventhDiminishedThirteenth,
    AddTwo,
    AddFourth,
    AddSixth,
    AddNine,
    SixNine,
    SevenSix,
    MixedThird,
    JazzSus,
}

/// The intervals above the root of a chord of type `t`, from the unison up.
pub open spec fn chord_type_intervals(t: ChordType) -> Seq<Interval> {
    match t {
        ChordType::MajorTriad => seq![Interval::mk(Quality::Perfect, 1), Interval::mk(Quality::Major, 3), Interval::mk(Quality::Perfect, 5)],
        ChordType::MinorTriad => seq![Interval::mk(Quality::Perfect, 1), Interval::mk(Quality::Minor, 3), Interval::mk(Quality::Perfect, 5)],
        ChordType::AugmentedTriad => seq![Interval::mk(Quality::Perfect, 1), Interval::mk(Quality::Major, 3), Interval::mk(Quality::Augmented(1), 5)],
        ChordType::DiminishedTriad => seq![Interval::mk(Quality::Perfect, 1), Interval::mk(Quality::Minor, 3), Interval::mk(Quality::Diminished(1), 5)],
        ChordType::Suspended2Triad => seq![Interval::mk(Quality::Perfect, 1), Interval::mk(Quality::Major, 2), Interval::mk(Quality::Perfect, 5)],
        ChordType::Suspended4Triad => seq![Interval::mk(Quality::Perfect, 1), Interval::mk(Quality::Perfect, 4), Interval::mk(Quality::Perfect, 5)],
        ChordType::Fifth => seq![Interval::mk(Quality::Perfect, 1), Interval::mk(Quality::Perfect, 5)],
        ChordType::MajorSixth => seq![Interval::mk(Quality::Perfect, 1), Interval::mk(Quality::Major, 3), Interval::mk(Quality::Perfect, 5), Interval::mk(Quality::Major, 6)],
        ChordType::MinorSixth => seq![Interval::mk(Quality::Perfect, 1), Interval::mk(Quality::Minor, 3), Interval::mk(Quality::Perfect, 5), Interval::mk(Quality::Major, 6)],
        ChordType::MinorFlatSixth => seq![Interval::mk(Quality::Perfect, 1), Interval::mk(Quality::Minor, 3), Interval::mk(Quality::Perfect, 5), Interval::mk(Quality::Minor, 6)],
        ChordType::DiminishedSeventh => seq![Interval::mk(Quality::Perfect, 1), Interval::mk(Quality::Minor, 3), Interval::mk(Quality::Diminished(1), 5), Interval::mk(Quality::Diminished(1), 7)],
        ChordType::HalfDiminishedSeventh => seq![Interval::mk(Quality::Perfect, 1), Interval::mk(Quality::Minor, 3), Interval::mk(Quality::Diminished(1), 5), Interval::mk(Quality::Minor, 7)],
        ChordType::MinorSeventh => seq![Interval::mk(Quality::Perfect, 1), Interval::mk(Quality::Minor, 3), Interval::mk(Quality::Perfect, 5), Interval::mk(Quality::Minor, 7)],
        ChordType::MinorMajorSeventh => seq![Interval::mk(Quality::Perfect, 1), Interval::mk(Quality::Minor, 3), Interval::mk(Quality::Perfect, 5), Interval::mk(Quality::Major, 7)],
        ChordType::DominantSeventh => seq![Interval::mk(Quality::Perfect, 1), Interval::mk(Quality::Major, 3), Interval::mk(Quality::Perfect, 5), Interval::mk(Quality::Minor, 7)],
        ChordType::MajorSeventh => seq![Interval::mk(Quality::Perfect, 1), Interval::mk(Quality::Major, 3), Interval::mk(Quality::Perfect, 5), Interval::mk(Quality::Major, 7)],
        ChordType::AugmentedSeventh => seq![Interval::mk(Quality::Perfect, 1), Interval::mk(Quality::Major, 3), Interval::mk(Quality::Augmented(1), 5), Interval::mk(Quality::Minor, 7)],
        ChordType::AugmentedMajorSeventh => seq![Interval::mk(Quality::Perfect, 1), Interval::mk(Quality::Major, 3), Interval::mk(Quality::Augmented(1), 5), Interval::mk(Quality::Major, 7)],
        ChordType::DominantSeventhFlatFive => seq![Interval::mk(Quality::Perfect, 1), Interval::mk(Quality::Major, 3), Interval::mk(Quality::Diminished(1), 5), Interval::mk(Quality::Minor, 7)],
        ChordType::DominantNinth => seq![Interval::mk(Quality::Perfect, 1), Interval::mk(Quality::Major, 3), Interval::mk(Quality::Perfect, 5), Interval::mk(Quality::Minor, 7), Interval::mk(Quality::Major, 9)],
        ChordType::DominantEleventh => seq![Interval::mk(Quality::Perfect, 1), Interval::mk(Quality::Major, 3), Interval::mk(Quality::Perfect, 5), Interval::mk(Quality::Minor, 7), Interval::mk(Quality::Major, 9), Interval::mk(Quality::Perfect, 11)],
        ChordType::DominantThirteenth => seq![Interval::mk(Quality::Perfect, 1), Interval::mk(Quality::Major, 3), Interval::mk(Quality::Perfect, 5), Interval::mk(Quality::Minor, 7), Interval::mk(Quality::Major, 9), Interval::mk(Quality::Perfect, 11), Interval::mk(Quality::Major, 13)],
        ChordType::Lydian => seq![Interval::mk(Quality::Perfect, 1), Interval::mk(Quality::Major, 3), Interval::mk(Quality::Perfect, 5), Interval::mk(Quality::Major, 7), Interval::mk(Quality::Augmented(1), 11)],
        ChordType::LydianAugmented => seq![Interval::mk(Quality::Perfect, 1), Interval::mk(Quality::Major, 3), Interval::mk(Quality::Augmented(1), 5), Interval::mk(Quality::Minor, 7), Interval::mk(Quality::Augmented(1), 11)],
        ChordType::SeventhAugmentedFifth => seq![Interval::mk(Quality::Perfect, 1), Interval::mk(Quality::Major, 3), Interval::mk(Quality::Augmented(1), 5), Interval::mk(Quality::Minor, 7)],
        ChordType::SeventhMinorNinth => seq![Interval::mk(Quality::Perfect, 1), Interval::mk(Quality::Major, 3), Interval::mk(Quality::Perfect, 5), Interval::mk(Quality::Minor, 7), Interval::mk(Quality::Minor, 9)],
        ChordType::SeventhSharpNinth => seq![Interval::mk(Quality::Perfect, 1), Interval::mk(Quality::Major, 3), Interval::mk(Quality::Perfect, 5), Interval::mk(Quality::Minor, 7), Interval::mk(Quality::Augmented(1), 9)],
        ChordType::SeventhAugmentedEleventh => seq![Interval::mk(Quality::Perfect, 1), Interval::mk(Quality::Major, 3), Interval::mk(Quality::Perfect, 5), Interval::mk(Quality::Minor, 7), Interval::mk(Quality::Major, 9), Interval::mk(Quality::Augmented(1), 11)],
        ChordType::SeventhDiminishedThirteenth => seq![Interval::mk(Quality::Perfect, 1), Interval::mk(Quality::Major, 3), Interval::mk(Quality::Perfect, 5), Interval::mk(Quality::Minor, 7), Interval::mk(Quality::Major, 9), Interval::mk(Quality::Perfect, 11), Interval::mk(Quality::Minor, 13)],
        ChordType::AddTwo => seq![Interval::mk(Quality::Perfect, 1), Interval::mk(Quality::Major, 2), Interval::mk(Quality::Major, 3), Interval::mk(Quality::Perfect, 5)],
        ChordType::AddFourth => seq![Interval::mk(Quality::Perfect, 1), Interval::mk(Quality::Major, 3), Interval::mk(Quality::Perfect, 4), Interval::mk(Quality::Perfect, 5)],
        ChordType::AddSixth => seq![Interval::mk(Quality::Perfect, 1), Interval::mk(Quality::Major, 3), Interval::mk(Quality::Perfect, 5), Interval::mk(Quality::Major, 6)],
        ChordType::AddNine => seq![Interval::mk(Quality::Perfect, 1), Interval::mk(Quality::Major, 3), Interval::mk(Quality::Perfect, 5), Interval::mk(Quality::Major, 9)],
        ChordType::SixNine => seq![Interval::mk(Quality::Perfect, 1), Interval::mk(Quality::Major, 3), Interval::mk(Quality::Perfect, 5), Interval::mk(Quality::Major, 6), Interval::mk(Quality::Major, 9)],
        ChordType::SevenSix => seq![Interval::mk(Quality::Perfect, 1), Interval::mk(Quality::Major, 3), Interval::mk(Quality::Perfect, 5), Interval::mk(Quality::Major, 6), Interval::mk(Quality::Minor, 7)],
        ChordType::MixedThird => seq![Interval::mk(Quality::Perfect, 1), Interval::mk(Quality::Minor, 3), Interval::mk(Quality::Major, 3), Interval::mk(Quality::Perfect, 5)],
        ChordType::JazzSus => seq![Interval::mk(Quality::Perfect, 1), Interval::mk(Quality::Perfect, 4), Interval::mk(Quality::Perfect, 5), Interval::mk(Quality::Minor, 7), Interval::mk(Quality::Major, 9)],
    }
}

impl ChordType {
    /// The intervals above the root of a chord of this type, from the unison up.
    pub fn intervals(&self) -> (r: Vec<Interval>)
        ensures
            r@ == chord_type_intervals(*self),
    {
        let mut v: Vec<Interval> = Vec::new();
        match self {
            ChordType::MajorTriad => {
                v.push(Interval::PERFECT_UNISON());
                v.push(Interval::MAJOR_THIRD());
                v.push(Interval::PERFECT_FIFTH());
            },
            ChordType::MinorTriad => {
                v.push(Interval::PERFECT_UNISON());
                v.push(Interval::MINOR_THIRD());
                v.push(Interval::PERFECT_FIFTH());
            },
            ChordType::AugmentedTriad => {
                v.push(Interval::PERFECT_UNISON());
                v.push(Interval::MAJOR_THIRD());
                v.push(Interval::AUGMENTED_FIFTH());
            },
            ChordType::DiminishedTriad => {
                v.push(Interval::PERFECT_UNISON());
                v.push(Interval::MINOR_THIRD());
                v.push(Interval::DIMINISHED_FIFTH());
            },
            ChordType::Suspended2Triad => {
                v.push(Interval::PERFECT_UNISON());
                v.push(Interval::MAJOR_SECOND());
                v.push(Interval::PERFECT_FIFTH());
            },
            ChordType::Suspended4Triad => {
                v.push(Interval::PERFECT_UNISON());
                v.push(Interval::PERFECT_FOURTH());
                v.push(Interval::PERFECT_FIFTH());
            },
            ChordType::Fifth => {
                v.push(Interval::PERFECT_UNISON());
                v.push(Interval::PERFECT_FIFTH());
            },
            ChordType::MajorSixth => {
                v.push(Interval::PERFECT_UNISON());
                v.push(Interval::MAJOR_THIRD());
                v.push(Interval::PERFECT_FIFTH());
                v.push(Interval::MAJOR_SIXTH());
            },
            ChordType::MinorSixth => {
                v.push(Interval::PERFECT_UNISON());
                v.push(Interval::MINOR_THIRD());
                v.push(Interval::PERFECT_FIFTH());
                v.push(Interval::MAJOR_SIXTH());
            },
            ChordType::MinorFlatSixth => {
                v.push(Interval::PERFECT_UNISON());
                v.push(Interval::MINOR_THIRD());
                v.push(Interval::PERFECT_FIFTH());
                v.push(Interval::MINOR_SIXTH());
            },
            ChordType::DiminishedSeventh => {
                v.push(Interval::PERFECT_UNISON());
                v.push(Interval::MINOR_THIRD());
                v.push(Interval::DIMINISHED_FIFTH());
                v.push(Interval::DIMINISHED_SEVENTH());
            },
            ChordType::HalfDiminishedSeventh => {
                v.push(Interval::PERFECT_UNISON());
                v.push(Interval::MINOR_THIRD());
                v.push(Interval::DIMINISHED_FIFTH());
                v.push(Interval::MINOR_SEVENTH());
            },
            ChordType::MinorSeventh => {
                v.push(Interval::PERFECT_UNISON());
                v.push(Interval::MINOR_THIRD());
                v.push(Interval::PERFECT_FIFTH());
                v.push(Interval::MINOR_SEVENTH());
            },
            ChordType::MinorMajorSeventh => {
                v.push(Interval::PERFECT_UNISON());
                v.push(Interval::MINOR_THIRD());
                v.push(Interval::PERFECT_FIFTH());
                v.push(Interval::MAJOR_SEVENTH());
            },
            ChordType::DominantSeventh => {
                v.push(Interval::PERFECT_UNISON());
                v.push(Interval::MAJOR_THIRD());
                v.push(Interval::PERFECT_FIFTH());
                v.push(Interval::MINOR_SEVENTH());
            },
            ChordType::MajorSeventh => {
                v.push(Interval::PERFECT_UNISON());
                v.push(Interval::MAJOR_THIRD());
                v.push(Interval::PERFECT_FIFTH());
                v.push(Interval::MAJOR_SEVENTH());
            },
            ChordType::AugmentedSeventh => {
                v.push(Interval::PERFECT_UNISON());
                v.push(Interval::MAJOR_THIRD());
                v.push(Interval::AUGMENTED_FIFTH());
                v.push(Interval::MINOR_SEVENTH());
            },
            ChordType::AugmentedMajorSeventh => {
                v.push(Interval::PERFECT_UNISON());
                v.push(Interval::MAJOR_THIRD());
                v.push(Interval::AUGMENTED_FIFTH());
                v.push(Interval::MAJOR_SEVENTH());
            },
            ChordType::DominantSeventhFlatFive => {
                v.push(Interval::PERFECT_UNISON());
                v.push(Interval::MAJOR_THIRD());
                v.push(Interval::DIMINISHED_FIFTH());
                v.push(Interval::MINOR_SEVENTH());
            },
            ChordType::DominantNinth => {
                v.push(Interval::PERFECT_UNISON());
                v.push(Interval::MAJOR_THIRD());
                v.push(Interval::PERFECT_FIFTH());
                v.push(Interval::MINOR_SEVENTH());
                v.push(Interval::MAJOR_NINTH());
            },
            ChordType::DominantEleventh => {
                v.push(Interval::PERFECT_UNISON());
                v.push(Interval::MAJOR_THIRD());
                v.push(Interval::PERFECT_FIFTH());
                v.push(Interval::MINOR_SEVENTH());
                v.push(Interval::MAJOR_NINTH());
                v.push(Interval::PERFECT_ELEVENTH());
            },
            ChordType::DominantThirteenth => {
                v.push(Interval::PERFECT_UNISON());
                v.push(Interval::MAJOR_THIRD());
                v.push(Interval::PERFECT_FIFTH());
                v.push(Interval::MINOR_SEVENTH());
                v.push(Interval::MAJOR_NINTH());
                v.push(Interval::PERFECT_ELEVENTH());
                v.push(Interval::MAJOR_THIRTEENTH());
            },
            ChordType::Lydian => {
                v.push(Interval::PERFECT_UNISON());
                v.push(Interval::MAJOR_THIRD());
                v.push(Interval::PERFECT_FIFTH());
                v.push(Interval::MAJOR_SEVENTH());
                v.push(Interval::AUGMENTED_ELEVENTH());
            },
            ChordType::LydianAugmented => {
                v.push(Interval::PERFECT_UNISON());
                v.push(Interval::MAJOR_THIRD());
                v.push(Interval::AUGMENTED_FIFTH());
                v.push(Interval::MINOR_SEVENTH());
                v.push(Interval::AUGMENTED_ELEVENTH());
            },
            ChordType::SeventhAugmentedFifth => {
                v.push(Interval::PERFECT_UNISON());
                v.push(Interval::MAJOR_THIRD());
                v.push(Interval::AUGMENTED_FIFTH());
                v.push(Interval::MINOR_SEVENTH());
            },
            ChordType::SeventhMinorNinth => {
                v.push(Interval::PERFECT_UNISON());
                v.push(Interval::MAJOR_THIRD());
                v.push(Interval::PERFECT_FIFTH());
                v.push(Interval::MINOR_SEVENTH());
                v.push(Interval::MINOR_NINTH());
            },
            ChordType::SeventhSharpNinth => {
                v.push(Interval::PERFECT_UNISON());
                v.push(Interval::MAJOR_THIRD());
                v.push(Interval::PERFECT_FIFTH());
                v.push(Interval::MINOR_SEVENTH());
                v.push(Interval::AUGMENTED_NINTH());
            },
            ChordType::SeventhAugmentedEleventh => {
                v.push(Interval::PERFECT_UNISON());
                v.push(Interval::MAJOR_THIRD());
                v.push(Interval::PERFECT_FIFTH());
                v.push(Interval::MINOR_SEVENTH());
                v.push(Interval::MAJOR_NINTH());
                v.push(Interval::AUGMENTED_ELEVENTH());
            },
            ChordType::SeventhDiminishedThirteenth => {
                v.push(Interval::PERFECT_UNISON());
                v.push(Interval::MAJOR_THIRD());
                v.push(Interval::PERFECT_FIFTH());
                v.push(Interval::MINOR_SEVENTH());
                v.push(Interval::MAJOR_NINTH());
                v.push(Interval::PERFECT_ELEVENTH());
                v.push(Interval::MINOR_THIRTEENTH());
            },
            ChordType::AddTwo => {
                v.push(Interval::PERFECT_UNISON());
                v.push(Interval::MAJOR_SECOND());
                v.push(Interval::MAJOR_THIRD());
                v.push(Interval::PERFECT_FIFTH());
            },
            ChordType::AddFourth => {
                v.push(Interval::PERFECT_UNISON());
                v.push(Interval::MAJOR_THIRD());
                v.push(Interval::PERFECT_FOURTH());
                v.push(Interval::PERFECT_FIFTH());
            },
            ChordType::AddSixth => {
                v.push(Interval::PERFECT_UNISON());
                v.push(Interval::MAJOR_THIRD());
                v.push(Interval::PERFECT_FIFTH());
                v.push(Interval::MAJOR_SIXTH());
            },
            ChordType::AddNine => {
                v.push(Interval::PERFECT_UNISON());
                v.push(Interval::MAJOR_THIRD());
                v.push(Interval::PERFECT_FIFTH());
                v.push(Interval::MAJOR_NINTH());
            },
            ChordType::SixNine => {
                v.push(Interval::PERFECT_UNISON());
                v.push(Interval::MAJOR_THIRD());
                v.push(Interval::PERFECT_FIFTH());
                v.push(Interval::MAJOR_SIXTH());
                v.push(Interval::MAJOR_NINTH());
            },
            ChordType::SevenSix => {
                v.push(Interval::PERFECT_UNISON());
                v.push(Interval::MAJOR_THIRD());
                v.push(Interval::PERFECT_FIFTH());
                v.push(Interval::MAJOR_SIXTH());
                v.push(Interval::MINOR_SEVENTH());
            },
            ChordType::MixedThird => {
                v.push(Interval::PERFECT_UNISON());
                v.push(Interval::MINOR_THIRD());
                v.push(Interval::MAJOR_THIRD());
                v.push(Interval::PERFECT_FIFTH());
            },
            ChordType::JazzSus => {
                v.push(Interval::PERFECT_UNISON());
                v.push(Interval::PERFECT_FOURTH());
                v.push(Interval::PERFECT_FIFTH());
                v.push(Interval::MINOR_SEVENTH());
                v.push(Interval::MAJOR_NINTH());
            },
        }
        v
    }
}

} // verus!
