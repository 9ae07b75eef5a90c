//! Comparing musical values regardless of spelling: C# and Db are enharmonically
//! equal, and an augmented fourth is as wide as a diminished fifth.

use vstd::prelude::*;
use core::cmp::Ordering;
use crate::interval::Interval;
use crate::note::{octave_fits, Note};
use crate::pitch::{simplified_spec, Pitch, PitchClass};
use crate::semitone::Semitones;

verus! {

/// Values that can be compared for equality regardless of spelling.
pub trait EnharmonicEq {
    /// Whether the two values sound the same.
    spec fn sounds_like(&self, other: &Self) -> bool;

    /// Whether the two values sound the same.
    fn eq_enharmonic(&self, other: &Self) -> (r: bool)
        ensures
            r == self.sounds_like(other),
    ;

    /// Whether the two values sound different.
    fn ne_enharmonic(&self, other: &Self) -> (r: bool)
        ensures
            r == !self.sounds_like(other),
    {
        !self.eq_enharmonic(other)
    }
}

/// Values that can be ordered regardless of spelling, by how high they sound.
pub trait EnharmonicOrd: Sized {
    /// How high the value sounds.
    spec fn height(&self) -> int;

    /// Whether the value can be compared (its comparison does not overflow).
    spec fn comparable(&self) -> bool;

    /// Compares the two values by how high they sound.
    fn cmp_enharmonic(&self, other: &Self) -> (r: Ordering)
        requires
            self.comparable(),
            other.comparable(),
        ensures
            (r == Ordering::Less) == (self.height() < other.height()),
            (r == Ordering::Equal) == (self.height() == other.height()),
            (r == Ordering::Greater) == (self.height() > other.height()),
    ;

    /// Whether `self` sounds lower than `other`.
    fn lt_enharmonic(&self, other: &Self) -> (r: bool)
        requires
            self.comparable(),
            other.comparable(),
        ensures
            r == (self.height() < other.height()),
    {
        match self.cmp_enharmonic(other) {
            Ordering::Less => true,
            _ => false,
        }
    }

    /// Whether `self` sounds lower than or as high as `other`.
    fn le_enharmonic(&self, other: &Self) -> (r: bool)
        requires
            self.comparable(),
            other.comparable(),
        ensures
            r == (self.height() <= other.height()),
    {
        match self.cmp_enharmonic(other) {
            Ordering::Greater => false,
            _ => true,
        }
    }

    /// Whether `self` sounds higher than `other`.
    fn gt_enharmonic(&self, other: &Self) -> (r: bool)
        requires
            self.comparable(),
            other.comparable(),
        ensures
            r == (self.height() > other.height()),
    {
        match self.cmp_enharmonic(other) {
            Ordering::Greater => true,
            _ => false,
        }
    }

    /// Whether `self` sounds higher than or as high as `other`.
    fn ge_enharmonic(&self, other: &Self) -> (r: bool)
        requires
            self.comparable(),
            other.comparable(),
        ensures
            r == (self.height() >= other.height()),
    {
        match self.cmp_enharmonic(other) {
            Ordering::Less => false,
            _ => true,
        }
    }

    /// The higher of the two values; `other` when they sound the same.
    fn max_enharmonic(self, other: Self) -> (r: Self)
        requires
            self.comparable(),
            other.comparable(),
        ensures
            r == (if self.height() > other.height() { self } else { other }),
    {
        match self.cmp_enharmonic(&other) {
            Ordering::Greater => self,
            _ => other,
        }
    }

    /// The lower of the two values; `self` when they sound the same.
    fn min_enharmonic(self, other: Self) -> (r: Self)
        requires
            self.comparable(),
            other.comparable(),
        ensures
            r == (if self.height() > other.height() { other } else { self }),
    {
        match self.cmp_enharmonic(&other) {
            Ordering::Greater => other,
            _ => self,
        }
    }

    /// `min` when `self` sounds lower than it, `max` when `self` sounds higher than
    /// it, and `self` otherwise. `min` may not sound higher than `max`.
    fn clamp_enharmonic(self, min: Self, max: Self) -> (r: Self)
        requires
            self.comparable(),
            min.comparable(),
            max.comparable(),
            min.height() <= max.height(),
        ensures
            r == (if self.height() < min.height() {
                min
            } else if self.height() > max.height() {
                max
            } else {
                self
            }),
    {
        if self.lt_enharmonic(&min) {
            min
        } else if self.gt_enharmonic(&max) {
            max
        } else {
            self
        }
    }
}

/// Values that have a form without spelling, such as the pitch class of a pitch.
pub trait WithoutSpelling {
    /// The form without spelling.
    type Unspelled;

    /// The form of the value without spelling.
    spec fn unspelled(&self) -> Self::Unspelled;

    /// Whether the form without spelling can be represented.
    spec fn has_unspelled(&self) -> bool;

    /// Drops the spelling of the value.
    fn without_spelling(self) -> (r: Self::Unspelled)
        requires
            self.has_unspelled(),
        ensures
            r == self.unspelled(),
    ;
}

/// The higher of the two values; `v2` when they sound the same.
pub fn max<T: EnharmonicOrd>(v1: T, v2: T) -> (r: T)
    requires
        v1.comparable(),
        v2.comparable(),
    ensures
        r == (if v1.height() > v2.height() { v1 } else { v2 }),
{
    v1.max_enharmonic(v2)
}

/// The lower of the two values; `v1` when they sound the same.
pub fn min<T: EnharmonicOrd>(v1: T, v2: T) -> (r: T)
    requires
        v1.comparable(),
        v2.comparable(),
    ensures
        r == (if v1.height() > v2.height() { v2 } else { v1 }),
{
    v1.min_enharmonic(v2)
}

/// The two values, lower first; `(v1, v2)` when they sound the same.
pub fn minmax<T: EnharmonicOrd>(v1: T, v2: T) -> (r: (T, T))
    requires
        v1.comparable(),
        v2.comparable(),
    ensures
        r == (if v2.height() < v1.height() { (v2, v1) } else { (v1, v2) }),
{
    if v2.lt_enharmonic(&v1) {
        (v2, v1)
    } else {
        (v1, v2)
    }
}

/// A wrapper whose `==` compares the wrapped values enharmonically, so that C# and Db
/// are equal.
#[derive(Copy, Clone)]
pub struct CmpEnharmonic<T>(pub T);

impl<T: EnharmonicEq> PartialEq for CmpEnharmonic<T> {
    fn eq(&self, other: &Self) -> (r: bool) {
        self.0.eq_enharmonic(&other.0)
    }
}

impl<T: EnharmonicEq> vstd::std_specs::cmp::PartialEqSpecImpl for CmpEnharmonic<T> {
    open spec fn obeys_eq_spec() -> bool {
        true
    }

    open spec fn eq_spec(&self, other: &Self) -> bool {
        self.0.sounds_like(&other.0)
    }
}

impl<T: EnharmonicEq> Eq for CmpEnharmonic<T> {
}

impl EnharmonicEq for Interval {
    open spec fn sounds_like(&self, other: &Interval) -> bool {
        self.semis() == other.semis()
    }

    fn eq_enharmonic(&self, other: &Interval) -> (r: bool) {
        Interval::eq_enharmonic(self, other)
    }
}

impl EnharmonicOrd for Interval {
    open spec fn height(&self) -> int {
        self.semis()
    }

    open spec fn comparable(&self) -> bool {
        true
    }

    fn cmp_enharmonic(&self, other: &Interval) -> (r: Ordering) {
        Interval::cmp_enharmonic(self, other)
    }
}

impl WithoutSpelling for Interval {
    type Unspelled = Semitones;

    open spec fn unspelled(&self) -> Semitones {
        Semitones(self.semis() as i16)
    }

    open spec fn has_unspelled(&self) -> bool {
        self.semis_fit()
    }

    fn without_spelling(self) -> (r: Semitones) {
        self.semitones()
    }
}

impl EnharmonicEq for Pitch {
    open spec fn sounds_like(&self, other: &Pitch) -> bool {
        self.pc() == other.pc()
    }

    fn eq_enharmonic(&self, other: &Pitch) -> (r: bool) {
        Pitch::eq_enharmonic(self, other)
    }
}

impl EnharmonicOrd for Pitch {
    open spec fn height(&self) -> int {
        self.pc()
    }

    open spec fn comparable(&self) -> bool {
        true
    }

    fn cmp_enharmonic(&self, other: &Pitch) -> (r: Ordering) {
        let a = self.as_pitch_class().chroma();
        let b = other.as_pitch_class().chroma();
        if a < b {
            Ordering::Less
        } else if a > b {
            Ordering::Greater
        } else {
            Ordering::Equal
        }
    }
}

impl WithoutSpelling for Pitch {
    type Unspelled = PitchClass;

    open spec fn unspelled(&self) -> PitchClass {
        PitchClass::from_ch(self.pc())
    }

    open spec fn has_unspelled(&self) -> bool {
        true
    }

    fn without_spelling(self) -> (r: PitchClass) {
        let pc = self.as_pitch_class();
        proof { crate::pitch::lemma_ch_injective(pc, pc); }
        pc
    }
}

impl EnharmonicEq for PitchClass {
    open spec fn sounds_like(&self, other: &PitchClass) -> bool {
        self.ch() == other.ch()
    }

    fn eq_enharmonic(&self, other: &PitchClass) -> (r: bool) {
        proof { crate::pitch::lemma_ch_injective(*self, *other); }
        PitchClass::eq_enharmonic(self, other)
    }
}

impl EnharmonicEq for Note {
    open spec fn sounds_like(&self, other: &Note) -> bool {
        self.abs() == other.abs()
    }

    fn eq_enharmonic(&self, other: &Note) -> (r: bool) {
        Note::eq_enharmonic(self, other)
    }
}

impl EnharmonicOrd for Note {
    open spec fn height(&self) -> int {
        self.abs()
    }

    open spec fn comparable(&self) -> bool {
        octave_fits(simplified_spec(self.pitch), self.abs())
    }

    fn cmp_enharmonic(&self, other: &Note) -> (r: Ordering) {
        Note::cmp_enharmonic(self, other)
    }
}

} // verus!
