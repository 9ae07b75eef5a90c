//! The seven note letters.

use vstd::prelude::*;

verus! {

/// One of the seven letters used to name pitches, ordered from C to B.
#[derive(Copy, Clone, Eq, PartialEq, Debug, Hash, PartialOrd, Ord, Structural)]
pub enum Letter {
    C,
    D,
    E,
    F,
    G,
    A,
    B,
}

/// Error returned when a string does not name a letter.
#[derive(Copy, Clone, Eq, PartialEq, Debug, Structural)]
pub struct InvalidLetter;

impl Letter {
    /// Position of the letter in `C D E F G A B`, starting at 0.
    pub open spec fn idx(self) -> int {
        match self {
            Letter::C => 0,
            Letter::D => 1,
            Letter::E => 2,
            Letter::F => 3,
            Letter::G => 4,
            Letter::A => 5,
            Letter::B => 6,
        }
    }

    /// The letter at position `i` (taken modulo 7).
    pub open spec fn from_idx(i: int) -> Letter {
        let r = i % 7;
        if r == 0 {
            Letter::C
        } else if r == 1 {
            Letter::D
        } else if r == 2 {
            Letter::E
        } else if r == 3 {
            Letter::F
        } else if r == 4 {
            Letter::G
        } else if r == 5 {
            Letter::A
        } else {
            Letter::B
        }
    }

    /// Position of the natural pitch of this letter on the line of fifths (C = 0).
    pub open spec fn fifths(self) -> int {
        match self {
            Letter::C => 0,
            Letter::D => 2,
            Letter::E => 4,
            Letter::F => -1,
            Letter::G => 1,
            Letter::A => 3,
            Letter::B => 5,
        }
    }

    /// The letter whose natural sits at `f` on the line of fifths, taken modulo 7
    /// (so `-1` is F and `5` is B).
    pub open spec fn from_fifths(f: int) -> Letter {
        let r = (f + 1) % 7;
        if r == 0 {
            Letter::F
        } else if r == 1 {
            Letter::C
        } else if r == 2 {
            Letter::G
        } else if r == 3 {
            Letter::D
        } else if r == 4 {
            Letter::A
        } else if r == 5 {
            Letter::E
        } else {
            Letter::B
        }
    }

    /// Semitones from C up to the natural pitch of this letter.
    pub open spec fn semis(self) -> int {
        match self {
            Letter::C => 0,
            Letter::D => 2,
            Letter::E => 4,
            Letter::F => 5,
            Letter::G => 7,
            Letter::A => 9,
            Letter::B => 11,
        }
    }

    /// Returns the position of the letter, with C as 0 and B as 6.
    pub fn step(&self) -> (r: u8)
        ensures
            r == self.idx(),
    {
        match self {
            Letter::C => 0,
            Letter::D => 1,
            Letter::E => 2,
            Letter::F => 3,
            Letter::G => 4,
            Letter::A => 5,
            Letter::B => 6,
        }
    }

    /// Returns the letter at `step` (C is 0), or `None` when `step > 6`.
    pub fn from_step(step: u8) -> (r: Option<Letter>)
        ensures
            r is Some <==> step < 7,
            r matches Some(l) ==> l.idx() == step && l == Letter::from_idx(step as int),
    {
        match step {
            0 => Some(Letter::C),
            1 => Some(Letter::D),
            2 => Some(Letter::E),
            3 => Some(Letter::F),
            4 => Some(Letter::G),
            5 => Some(Letter::A),
            6 => Some(Letter::B),
            _ => None,
        }
    }

    /// Number of letter steps upwards from `self` to `rhs`, in `[0, 6]`.
    pub fn offset_between(&self, rhs: Letter) -> (r: u8)
        ensures
            r == (rhs.idx() - self.idx()) % 7,
            r < 7,
    {
        let d = rhs.step() as i16 - self.step() as i16;
        if d < 0 {
            (d + 7) as u8
        } else {
            d as u8
        }
    }

    /// Position of the natural pitch of this letter on the line of fifths.
    pub fn fifths_from_c(self) -> (r: i16)
        ensures
            r == self.fifths(),
    {
        match self {
            Letter::C => 0,
            Letter::D => 2,
            Letter::E => 4,
            Letter::F => -1,
            Letter::G => 1,
            Letter::A => 3,
            Letter::B => 5,
        }
    }

    /// The letter whose natural pitch sits `fifths` fifths above C, counted modulo 7.
    pub fn from_fifths_from_c(fifths: i32) -> (r: Letter)
        ensures
            r == Letter::from_fifths(fifths as int),
            r.fifths() == (fifths + 1) % 7 - 1,
    {
        let r = crate::arith::rem_euclid_7(fifths as i64 + 1);
        if r == 0 {
            Letter::F
        } else if r == 1 {
            Letter::C
        } else if r == 2 {
            Letter::G
        } else if r == 3 {
            Letter::D
        } else if r == 4 {
            Letter::A
        } else if r == 5 {
            Letter::E
        } else {
            Letter::B
        }
    }

    /// Parses a letter name, accepting upper or lower case.
    pub fn parse(s: &str) -> (r: Result<Letter, InvalidLetter>)
        ensures
            r is Ok <==> s@.len() == 1 && letter_of_char(s@[0]) is Some,
            r matches Ok(l) ==> letter_of_char(s@[0]) == Some(l),
    {
        if s.unicode_len() != 1 {
            return Err(InvalidLetter);
        }
        match letter_char(s.get_char(0)) {
            Some(l) => Ok(l),
            None => Err(InvalidLetter),
        }
    }
}

/// The letter a character names, in either case.
pub open spec fn letter_of_char(c: char) -> Option<Letter> {
    if c == 'C' || c == 'c' {
        Some(Letter::C)
    } else if c == 'D' || c == 'd' {
        Some(Letter::D)
    } else if c == 'E' || c == 'e' {
        Some(Letter::E)
    } else if c == 'F' || c == 'f' {
        Some(Letter::F)
    } else if c == 'G' || c == 'g' {
        Some(Letter::G)
    } else if c == 'A' || c == 'a' {
        Some(Letter::A)
    } else if c == 'B' || c == 'b' {
        Some(Letter::B)
    } else {
        None
    }
}

fn letter_char(c: char) -> (r: Option<Letter>)
    ensures
        r == letter_of_char(c),
{
    if c == 'C' || c == 'c' {
        Some(Letter::C)
    } else if c == 'D' || c == 'd' {
        Some(Letter::D)
    } else if c == 'E' || c == 'e' {
        Some(Letter::E)
    } else if c == 'F' || c == 'f' {
        Some(Letter::F)
    } else if c == 'G' || c == 'g' {
        Some(Letter::G)
    } else if c == 'A' || c == 'a' {
        Some(Letter::A)
    } else if c == 'B' || c == 'b' {
        Some(Letter::B)
    } else {
        None
    }
}

impl core::str::FromStr for Letter {
    type Err = InvalidLetter;

    fn from_str(s: &str) -> Result<Letter, InvalidLetter> {
        Letter::parse(s)
    }
}

} // verus!
