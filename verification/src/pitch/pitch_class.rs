//! The twelve pitch classes of equal temperament.

use vstd::prelude::*;
use crate::semitone::Semitones;

verus! {

/// A pitch class: a pitch without spelling or octave, named by its sharp spelling.
#[derive(Copy, Clone, Eq, PartialEq, Debug, Hash, PartialOrd, Ord, Structural)]
pub enum PitchClass {
    C,
    Cs,
    D,
    Ds,
    E,
    F,
    Fs,
    G,
    Gs,
    A,
    As,
    B,
}

/// Error returned when a number is not a chroma in `[0, 11]`.
#[derive(Copy, Clone, Eq, PartialEq, Debug, Structural)]
pub struct InvalidPitch;

impl PitchClass {
    /// Semitones above C, in `[0, 11]`.
    pub open spec fn ch(self) -> int {
        match self {
            PitchClass::C => 0,
            PitchClass::Cs => 1,
            PitchClass::D => 2,
            PitchClass::Ds => 3,
            PitchClass::E => 4,
            PitchClass::F => 5,
            PitchClass::Fs => 6,
            PitchClass::G => 7,
            PitchClass::Gs => 8,
            PitchClass::A => 9,
            PitchClass::As => 10,
            PitchClass::B => 11,
        }
    }

    /// The pitch class `c` semitones above C, for `c` in `[0, 11]`.
    pub open spec fn from_ch(c: int) -> PitchClass {
        if c == 0 {
            PitchClass::C
        } else if c == 1 {
            PitchClass::Cs
        } else if c == 2 {
            PitchClass::D
        } else if c == 3 {
            PitchClass::Ds
        } else if c == 4 {
            PitchClass::E
        } else if c == 5 {
            PitchClass::F
        } else if c == 6 {
            PitchClass::Fs
        } else if c == 7 {
            PitchClass::G
        } else if c == 8 {
            PitchClass::Gs
        } else if c == 9 {
            PitchClass::A
        } else if c == 10 {
            PitchClass::As
        } else {
            PitchClass::B
        }
    }

    /// Semitones above C, in `[0, 11]`.
    pub fn chroma(self) -> (r: u8)
        ensures
            r == self.ch(),
            r < 12,
    {
        match self {
            PitchClass::C => 0,
            PitchClass::Cs => 1,
            PitchClass::D => 2,
            PitchClass::Ds => 3,
            PitchClass::E => 4,
            PitchClass::F => 5,
            PitchClass::Fs => 6,
            PitchClass::G => 7,
            PitchClass::Gs => 8,
            PitchClass::A => 9,
            PitchClass::As => 10,
            PitchClass::B => 11,
        }
    }

    /// The pitch class `chroma` semitones above C, or `None` if `chroma > 11`.
    pub fn from_chroma(chroma: u8) -> (r: Option<PitchClass>)
        ensures
            r is Some <==> chroma < 12,
            r matches Some(pc) ==> pc.ch() == chroma && pc == PitchClass::from_ch(chroma as int),
    {
        match chroma {
            0 => Some(PitchClass::C),
            1 => Some(PitchClass::Cs),
            2 => Some(PitchClass::D),
            3 => Some(PitchClass::Ds),
            4 => Some(PitchClass::E),
            5 => Some(PitchClass::F),
            6 => Some(PitchClass::Fs),
            7 => Some(PitchClass::G),
            8 => Some(PitchClass::Gs),
            9 => Some(PitchClass::A),
            10 => Some(PitchClass::As),
            11 => Some(PitchClass::B),
            _ => None,
        }
    }

    /// Same as [`Self::from_chroma`].
    pub fn from_repr(chroma: u8) -> (r: Option<PitchClass>)
        ensures
            r is Some <==> chroma < 12,
            r matches Some(pc) ==> pc.ch() == chroma && pc == PitchClass::from_ch(chroma as int),
    {
        PitchClass::from_chroma(chroma)
    }

    /// Converts a chroma in `[0, 11]`, failing with [`InvalidPitch`] otherwise.
    pub fn try_from_u8(value: u8) -> (r: Result<PitchClass, InvalidPitch>)
        ensures
            r is Ok <==> value < 12,
            r matches Ok(pc) ==> pc.ch() == value,
    {
        match PitchClass::from_chroma(value) {
            Some(pc) => Ok(pc),
            None => Err(InvalidPitch),
        }
    }

    /// Semitones upwards from `self` to `rhs`, in `[0, 11]`.
    pub fn semitones_to(self, rhs: PitchClass) -> (r: Semitones)
        ensures
            r.0 == (rhs.ch() - self.ch()) % 12,
            0 <= r.0 < 12,
    {
        let d = rhs.chroma() as i16 - self.chroma() as i16;
        if d < 0 {
            Semitones(d + 12)
        } else {
            Semitones(d)
        }
    }

    /// The pitch class `semitones` above `self` (below, when negative).
    pub fn add_semitones(self, semitones: Semitones) -> (r: PitchClass)
        ensures
            r.ch() == (self.ch() + semitones.0) % 12,
    {
        let c = crate::arith::rem_euclid_12(self.chroma() as i64 + semitones.0 as i64);
        match PitchClass::from_chroma(c as u8) {
            Some(pc) => pc,
            None => PitchClass::C,
        }
    }

    /// The pitch class `semitones` below `self` (above, when negative).
    pub fn sub_semitones(self, semitones: Semitones) -> (r: PitchClass)
        ensures
            r.ch() == (self.ch() - semitones.0) % 12,
    {
        let c = crate::arith::rem_euclid_12(self.chroma() as i64 - semitones.0 as i64);
        match PitchClass::from_chroma(c as u8) {
            Some(pc) => pc,
            None => PitchClass::C,
        }
    }

    /// Pitch classes carry no spelling, so enharmonic equality is equality.
    pub fn eq_enharmonic(&self, rhs: &PitchClass) -> (r: bool)
        ensures
            r == (*self == *rhs),
    {
        self.chroma() == rhs.chroma()
    }
}

/// Two pitch classes with the same chroma are the same pitch class.
pub proof fn lemma_ch_injective(a: PitchClass, b: PitchClass)
    ensures
        a.ch() == b.ch() <==> a == b,
        0 <= a.ch() < 12,
        PitchClass::from_ch(a.ch()) == a,
{
}

} // verus!
