//! The seven diatonic modes.

use vstd::prelude::*;
use crate::pitch::Letter;

verus! {

/// The modes of the major scale, numbered 1 (Ionian) to 7 (Locrian).
#[derive(Copy, Clone, Eq, PartialEq, Debug, Hash, PartialOrd, Ord, Structural)]
pub enum DiatonicMode {
    Ionian,
    Dorian,
    Phrygian,
    Lydian,
    Mixolydian,
    Aeolian,
    Locrian,
}

/// The mode whose tonic sits `o` steps along the line of fifths from the tonic of
/// the major key with the same signature, for `o` in `[-1, 5]`.
pub open spec fn mode_of_offset(o: int) -> DiatonicMode {
    if o == 0 {
        DiatonicMode::Ionian
    } else if o == 2 {
        DiatonicMode::Dorian
    } else if o == 4 {
        DiatonicMode::Phrygian
    } else if o == -1 {
        DiatonicMode::Lydian
    } else if o == 1 {
        DiatonicMode::Mixolydian
    } else if o == 3 {
        DiatonicMode::Aeolian
    } else {
        DiatonicMode::Locrian
    }
}

impl DiatonicMode {
    /// The number of the mode, from 1 (Ionian) to 7 (Locrian).
    pub open spec fn num(self) -> int {
        match self {
            DiatonicMode::Ionian => 1,
            DiatonicMode::Dorian => 2,
            DiatonicMode::Phrygian => 3,
            DiatonicMode::Lydian => 4,
            DiatonicMode::Mixolydian => 5,
            DiatonicMode::Aeolian => 6,
            DiatonicMode::Locrian => 7,
        }
    }

    /// The mode with number `n` (taken in `[1, 7]`).
    pub open spec fn from_num_spec(n: int) -> DiatonicMode {
        if n == 1 {
            DiatonicMode::Ionian
        } else if n == 2 {
            DiatonicMode::Dorian
        } else if n == 3 {
            DiatonicMode::Phrygian
        } else if n == 4 {
            DiatonicMode::Lydian
        } else if n == 5 {
            DiatonicMode::Mixolydian
        } else if n == 6 {
            DiatonicMode::Aeolian
        } else {
            DiatonicMode::Locrian
        }
    }

    /// The letter whose white-key scale is this mode (C for Ionian, D for Dorian, ...).
    pub open spec fn white_letter(self) -> Letter {
        Letter::from_idx(self.num() - 1)
    }

    /// Steps along the line of fifths from the tonic of the major key with the same
    /// signature to the tonic of this mode.
    pub open spec fn offset(self) -> int {
        self.white_letter().fifths()
    }

    /// The mode of the major scale.
    #[allow(non_snake_case)]
    pub fn MAJOR() -> (r: DiatonicMode)
        ensures
            r == DiatonicMode::Ionian,
    {
        DiatonicMode::Ionian
    }

    /// The mode of the natural minor scale.
    #[allow(non_snake_case)]
    pub fn NATURAL_MINOR() -> (r: DiatonicMode)
        ensures
            r == DiatonicMode::Aeolian,
    {
        DiatonicMode::Aeolian
    }

    /// The mode with number `n`, or `None` outside `[1, 7]`.
    pub fn from_repr(n: u8) -> (r: Option<DiatonicMode>)
        ensures
            r is Some <==> 1 <= n <= 7,
            r matches Some(m) ==> m.num() == n && m == DiatonicMode::from_num_spec(n as int),
    {
        match n {
            1 => Some(DiatonicMode::Ionian),
            2 => Some(DiatonicMode::Dorian),
            3 => Some(DiatonicMode::Phrygian),
            4 => Some(DiatonicMode::Lydian),
            5 => Some(DiatonicMode::Mixolydian),
            6 => Some(DiatonicMode::Aeolian),
            7 => Some(DiatonicMode::Locrian),
            _ => None,
        }
    }

    /// The number of the mode, from 1 (Ionian) to 7 (Locrian).
    pub(crate) fn number(self) -> (r: u8)
        ensures
            r == self.num(),
    {
        match self {
            DiatonicMode::Ionian => 1,
            DiatonicMode::Dorian => 2,
            DiatonicMode::Phrygian => 3,
            DiatonicMode::Lydian => 4,
            DiatonicMode::Mixolydian => 5,
            DiatonicMode::Aeolian => 6,
            DiatonicMode::Locrian => 7,
        }
    }

    /// Steps along the line of fifths from the major tonic with the same signature.
    pub(crate) fn fifths_offset(self) -> (r: i16)
        ensures
            r == self.offset(),
            -1 <= r <= 5,
            mode_of_offset(r as int) == self,
    {
        match self {
            DiatonicMode::Ionian => 0,
            DiatonicMode::Dorian => 2,
            DiatonicMode::Phrygian => 4,
            DiatonicMode::Lydian => -1,
            DiatonicMode::Mixolydian => 1,
            DiatonicMode::Aeolian => 3,
            DiatonicMode::Locrian => 5,
        }
    }
}

impl Default for DiatonicMode {
    /// Ionian, the major mode.
    fn default() -> (r: DiatonicMode)
        ensures
            r == DiatonicMode::Ionian,
    {
        DiatonicMode::Ionian
    }
}

} // verus!
