//! Letters in a given octave: the positions of a staff.

use vstd::prelude::*;
use crate::note::Note;
use crate::pitch::{Letter, Pitch};

verus! {

/// A letter in an octave, such as C4; what a staff position names, before accidentals.
///
/// Ordered by octave first and by letter second.
#[derive(Copy, Clone, Eq, PartialEq, Debug, Hash, PartialOrd, Ord, Structural)]
pub struct OctaveLetter {
    pub octave: i16,
    pub letter: Letter,
}

/// The letter at position `pos`, counted in letter steps from C in octave 0.
pub open spec fn letter_at(pos: int) -> OctaveLetter {
    OctaveLetter { octave: (pos / 7) as i16, letter: Letter::from_idx(pos % 7) }
}

impl OctaveLetter {
    /// Position counted in letter steps from C in octave 0 (C4 is 28).
    pub open spec fn pos(self) -> int {
        7 * self.octave + self.letter.idx()
    }

    /// C in octave 4.
    #[allow(non_snake_case)]
    pub fn C4() -> (r: OctaveLetter)
        ensures
            r == (OctaveLetter { octave: 4, letter: Letter::C }),
    {
        OctaveLetter { octave: 4, letter: Letter::C }
    }

    /// Creates an octave letter.
    pub fn new(letter: Letter, octave: i16) -> (r: OctaveLetter)
        ensures
            r == (OctaveLetter { octave, letter }),
    {
        OctaveLetter { octave, letter }
    }

    /// Letter steps from `self` up to `rhs` (negative when `rhs` is lower).
    pub fn offset_to(self, rhs: OctaveLetter) -> (r: i16)
        requires
            i16::MIN <= rhs.pos() - self.pos() <= i16::MAX,
        ensures
            r == rhs.pos() - self.pos(),
    {
        (self.pos_i64_diff(rhs)) as i16
    }

    /// Letter steps from `self` up to `rhs`, computed without overflow.
    pub fn pos_i64_diff(self, rhs: OctaveLetter) -> (r: i64)
        ensures
            r == rhs.pos() - self.pos(),
            -500_000 <= r <= 500_000,
    {
        (rhs.octave as i64 - self.octave as i64) * 7 + rhs.letter.step() as i64 - self.letter.step() as i64
    }

    /// The octave letter `offset` letter steps away.
    pub fn with_offset(self, offset: i16) -> (r: OctaveLetter)
        requires
            i16::MIN <= (self.pos() + offset) / 7 <= i16::MAX,
        ensures
            r == letter_at(self.pos() + offset),
            r.pos() == self.pos() + offset,
    {
        let pos = 7 * (self.octave as i64) + self.letter.step() as i64 + offset as i64;
        let octave = crate::arith::div_euclid_7(pos);
        let step = crate::arith::rem_euclid_7(pos);
        let letter = match Letter::from_step(step as u8) {
            Some(l) => l,
            None => Letter::C,
        };
        OctaveLetter { octave: octave as i16, letter }
    }
}

/// The octave letter at a position lies at that position.
pub proof fn lemma_letter_at(pos: int)
    requires
        i16::MIN <= pos / 7 <= i16::MAX,
    ensures
        letter_at(pos).pos() == pos,
{
}

impl From<OctaveLetter> for Note {
    /// The natural note on the octave letter.
    fn from(oct_letter: OctaveLetter) -> (r: Note) {
        Note::new(Pitch::from_letter(oct_letter.letter), oct_letter.octave)
    }
}

impl vstd::std_specs::convert::FromSpecImpl<OctaveLetter> for Note {
    open spec fn obeys_from_spec() -> bool {
        true
    }

    open spec fn from_spec(oct_letter: OctaveLetter) -> Note {
        Note {
            octave: oct_letter.octave,
            pitch: Pitch { letter: oct_letter.letter, accidental: crate::pitch::AccidentalSign { offset: 0i16 } },
        }
    }
}

} // verus!
