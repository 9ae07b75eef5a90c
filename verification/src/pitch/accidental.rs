//! Accidentals: how far a pitch is raised or lowered from its letter's natural.

use vstd::prelude::*;
use crate::semitone::Semitones;

verus! {

/// An accidental, stored as the number of semitones it raises (positive) or
/// lowers (negative) the natural pitch of a letter.
#[derive(Copy, Clone, Eq, PartialEq, Debug, Hash, PartialOrd, Ord, Structural)]
pub struct AccidentalSign {
    pub offset: i16,
}

impl AccidentalSign {
    /// Two semitones down.
    #[allow(non_snake_case)]
    pub fn DOUBLE_FLAT() -> (r: AccidentalSign)
        ensures
            r.offset == -2,
    {
        AccidentalSign { offset: -2 }
    }

    /// One semitone down.
    #[allow(non_snake_case)]
    pub fn FLAT() -> (r: AccidentalSign)
        ensures
            r.offset == -1,
    {
        AccidentalSign { offset: -1 }
    }

    /// No alteration.
    #[allow(non_snake_case)]
    pub fn NATURAL() -> (r: AccidentalSign)
        ensures
            r.offset == 0,
    {
        AccidentalSign { offset: 0 }
    }

    /// One semitone up.
    #[allow(non_snake_case)]
    pub fn SHARP() -> (r: AccidentalSign)
        ensures
            r.offset == 1,
    {
        AccidentalSign { offset: 1 }
    }

    /// Two semitones up.
    #[allow(non_snake_case)]
    pub fn DOUBLE_SHARP() -> (r: AccidentalSign)
        ensures
            r.offset == 2,
    {
        AccidentalSign { offset: 2 }
    }

    /// The alteration in semitones.
    pub fn as_semitone_offset(&self) -> (r: Semitones)
        ensures
            r.0 == self.offset,
    {
        Semitones(self.offset)
    }

    /// The accidental that alters by `offset` semitones.
    pub fn from_semitone_offset(offset: Semitones) -> (r: AccidentalSign)
        ensures
            r.offset == offset.0,
    {
        AccidentalSign { offset: offset.0 }
    }

    /// The alteration in semitones (same as [`Self::as_semitone_offset`]).
    pub fn as_offset(&self) -> (r: Semitones)
        ensures
            r.0 == self.offset,
    {
        Semitones(self.offset)
    }

    /// The accidental for `semitones` when it is between a double flat and a
    /// double sharp, and `None` otherwise.
    pub fn from_offset(semitones: Semitones) -> (r: Option<AccidentalSign>)
        ensures
            r is Some <==> -2 <= semitones.0 <= 2,
            r matches Some(a) ==> a.offset == semitones.0,
    {
        if -2 <= semitones.0 && semitones.0 <= 2 {
            Some(AccidentalSign { offset: semitones.0 })
        } else {
            None
        }
    }

    /// The written symbol of the accidental, such as `\u{266f}` or `\u{1d12b}`.
    pub fn to_string(&self) -> (r: String)
        ensures
            r@ == accidental_text(self.offset as int),
    {
        let offset = self.offset;
        if offset == 0 {
            let s = String::from_str("\u{266e}");
            proof { reveal_strlit("\u{266e}"); }
            return s;
        }
        let a: i32 = if offset < 0 { 0 - (offset as i32) } else { offset as i32 };
        let mut s = String::new();
        proof {
            reveal_strlit("\u{266f}");
            reveal_strlit("\u{266d}");
        }
        if a % 2 == 1 {
            if offset > 0 {
                s.append("\u{266f}");
            } else {
                s.append("\u{266d}");
            }
        }
        let ghost single = s@;
        let ghost double = if offset > 0 { '\u{1d12a}' } else { '\u{1d12b}' };
        let mut k: i32 = 0;
        while k < a / 2
            invariant
                0 <= k <= a / 2,
                a / 2 < 32768,
                double == (if offset > 0 { '\u{1d12a}' } else { '\u{1d12b}' }),
                s@ == single + Seq::new(k as nat, |i: int| double),
            decreases a / 2 - k,
        {
            proof {
                reveal_strlit("\u{1d12a}");
                reveal_strlit("\u{1d12b}");
            }
            if offset > 0 {
                s.append("\u{1d12a}");
            } else {
                s.append("\u{1d12b}");
            }
            k = k + 1;
            assert(s@ =~= single + Seq::new(k as nat, |i: int| double));
        }
        proof {
            assert(s@ =~= accidental_text(offset as int));
        }
        s
    }

    /// The ASCII symbol of an accidental between a double flat and a double sharp:
    /// `b`/`bb` for flats, `#`/`x` for sharps, `n` for a natural.
    pub fn as_char(&self) -> (r: char)
        requires
            -2 <= self.offset <= 2,
        ensures
            r == accidental_char(self.offset as int),
    {
        if self.offset == -2 {
            'B'
        } else if self.offset == -1 {
            'b'
        } else if self.offset == 0 {
            'n'
        } else if self.offset == 1 {
            '#'
        } else {
            'x'
        }
    }
}

/// The written symbol of an accidental that alters by `offset` semitones: a natural
/// sign for no alteration, otherwise a single sharp or flat when the alteration is
/// odd, followed by a double sharp or double flat sign for each two semitones.
pub open spec fn accidental_text(offset: int) -> Seq<char> {
    if offset == 0 {
        seq!['\u{266e}']
    } else {
        let a = if offset < 0 { -offset } else { offset };
        let single = if offset > 0 { '\u{266f}' } else { '\u{266d}' };
        let double = if offset > 0 { '\u{1d12a}' } else { '\u{1d12b}' };
        (if a % 2 == 1 { seq![single] } else { Seq::<char>::empty() }) + Seq::new((a / 2) as nat, |i: int| double)
    }
}

/// Single-character symbol of a small accidental (`B` is used for a double flat).
pub open spec fn accidental_char(offset: int) -> char {
    if offset == -2 {
        'B'
    } else if offset == -1 {
        'b'
    } else if offset == 0 {
        'n'
    } else if offset == 1 {
        '#'
    } else {
        'x'
    }
}

} // verus!
