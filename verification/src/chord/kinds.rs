//! Names for kinds of chords.

use vstd::prelude::*;

verus! {

/// The quality of a chord.
#[derive(Copy, Clone, Eq, PartialEq, Debug, Hash, Structural)]
pub enum ChordQuality {
    Major,
    Minor,
    MinorFlat,
    MinorMajor,
    Diminished,
    Augmented,
    AugmentedMajor,
    HalfDiminished,
    Dominant,
    Suspended2,
    Suspended4,
}

/// How far a chord is built up.
#[derive(Copy, Clone, Eq, PartialEq, Debug, Hash, Structural)]
pub enum ChordSize {
    Triad,
    Sixth,
    Seventh,
    SevenSharpEleventh,
}

} // verus!
