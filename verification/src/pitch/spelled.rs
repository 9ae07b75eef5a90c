//! Spelled pitches: a letter together with an accidental.

use vstd::prelude::*;
use crate::pitch::{AccidentalSign, Letter, PitchClass};
use crate::semitone::Semitones;

verus! {

/// Whether black-key pitches are spelled with sharps or with flats.
#[derive(Copy, Clone, Eq, PartialEq, Debug, Hash, Structural)]
pub enum Spelling {
    Sharps,
    Flats,
}

impl Default for Spelling {
    fn default() -> (r: Spelling)
        ensures
            r == Spelling::Sharps,
    {
        Spelling::Sharps
    }
}

/// A spelled pitch without octave, such as `C#` or `Bbb`.
///
/// Pitches are ordered by letter first and accidental second.
#[derive(Copy, Clone, Eq, PartialEq, Debug, Hash, PartialOrd, Ord, Structural)]
pub struct Pitch {
    pub letter: Letter,
    pub accidental: AccidentalSign,
}

/// The pitch spelled with a natural or a sharp for chroma `c` in `[0, 11]`.
pub open spec fn sharp_spelling(c: int) -> Pitch {
    if c == 0 {
        Pitch { letter: Letter::C, accidental: AccidentalSign { offset: 0i16 } }
    } else if c == 1 {
        Pitch { letter: Letter::C, accidental: AccidentalSign { offset: 1i16 } }
    } else if c == 2 {
        Pitch { letter: Letter::D, accidental: AccidentalSign { offset: 0i16 } }
    } else if c == 3 {
        Pitch { letter: Letter::D, accidental: AccidentalSign { offset: 1i16 } }
    } else if c == 4 {
        Pitch { letter: Letter::E, accidental: AccidentalSign { offset: 0i16 } }
    } else if c == 5 {
        Pitch { letter: Letter::F, accidental: AccidentalSign { offset: 0i16 } }
    } else if c == 6 {
        Pitch { letter: Letter::F, accidental: AccidentalSign { offset: 1i16 } }
    } else if c == 7 {
        Pitch { letter: Letter::G, accidental: AccidentalSign { offset: 0i16 } }
    } else if c == 8 {
        Pitch { letter: Letter::G, accidental: AccidentalSign { offset: 1i16 } }
    } else if c == 9 {
        Pitch { letter: Letter::A, accidental: AccidentalSign { offset: 0i16 } }
    } else if c == 10 {
        Pitch { letter: Letter::A, accidental: AccidentalSign { offset: 1i16 } }
    } else {
        Pitch { letter: Letter::B, accidental: AccidentalSign { offset: 0i16 } }
    }
}

/// The pitch spelled with a natural or a flat for chroma `c` in `[0, 11]`.
pub open spec fn flat_spelling(c: int) -> Pitch {
    if c == 0 {
        Pitch { letter: Letter::C, accidental: AccidentalSign { offset: 0i16 } }
    } else if c == 1 {
        Pitch { letter: Letter::D, accidental: AccidentalSign { offset: -1i16 } }
    } else if c == 2 {
        Pitch { letter: Letter::D, accidental: AccidentalSign { offset: 0i16 } }
    } else if c == 3 {
        Pitch { letter: Letter::E, accidental: AccidentalSign { offset: -1i16 } }
    } else if c == 4 {
        Pitch { letter: Letter::E, accidental: AccidentalSign { offset: 0i16 } }
    } else if c == 5 {
        Pitch { letter: Letter::F, accidental: AccidentalSign { offset: 0i16 } }
    } else if c == 6 {
        Pitch { letter: Letter::G, accidental: AccidentalSign { offset: -1i16 } }
    } else if c == 7 {
        Pitch { letter: Letter::G, accidental: AccidentalSign { offset: 0i16 } }
    } else if c == 8 {
        Pitch { letter: Letter::A, accidental: AccidentalSign { offset: -1i16 } }
    } else if c == 9 {
        Pitch { letter: Letter::A, accidental: AccidentalSign { offset: 0i16 } }
    } else if c == 10 {
        Pitch { letter: Letter::B, accidental: AccidentalSign { offset: -1i16 } }
    } else {
        Pitch { letter: Letter::B, accidental: AccidentalSign { offset: 0i16 } }
    }
}

/// Whether chroma `c` is a white key (can be written without an accidental).
pub open spec fn is_white_chroma(c: int) -> bool {
    c == 0 || c == 2 || c == 4 || c == 5 || c == 7 || c == 9 || c == 11
}

/// Every pitch from a double flat to a double sharp, letter by letter.
pub open spec fn all_consts_spec() -> Seq<Pitch> {
    seq![Pitch { letter: Letter::C, accidental: AccidentalSign { offset: -2i16 } }] + seq![Pitch { letter: Letter::C, accidental: AccidentalSign { offset: -1i16 } }] + seq![Pitch { letter: Letter::C, accidental: AccidentalSign { offset: 0i16 } }] + seq![Pitch { letter: Letter::C, accidental: AccidentalSign { offset: 1i16 } }] + seq![Pitch { letter: Letter::C, accidental: AccidentalSign { offset: 2i16 } }] + seq![Pitch { letter: Letter::D, accidental: AccidentalSign { offset: -2i16 } }] + seq![Pitch { letter: Letter::D, accidental: AccidentalSign { offset: -1i16 } }] + seq![Pitch { letter: Letter::D, accidental: AccidentalSign { offset: 0i16 } }] + seq![Pitch { letter: Letter::D, accidental: AccidentalSign { offset: 1i16 } }] + seq![Pitch { letter: Letter::D, accidental: AccidentalSign { offset: 2i16 } }] + seq![Pitch { letter: Letter::E, accidental: AccidentalSign { offset: -2i16 } }] + seq![Pitch { letter: Letter::E, accidental: AccidentalSign { offset: -1i16 } }] + seq![Pitch { letter: Letter::E, accidental: AccidentalSign { offset: 0i16 } }] + seq![Pitch { letter: Letter::E, accidental: AccidentalSign { offset: 1i16 } }] + seq![Pitch { letter: Letter::E, accidental: AccidentalSign { offset: 2i16 } }] + seq![Pitch { letter: Letter::F, accidental: AccidentalSign { offset: -2i16 } }] + seq![Pitch { letter: Letter::F, accidental: AccidentalSign { offset: -1i16 } }] + seq![Pitch { letter: Letter::F, accidental: AccidentalSign { offset: 0i16 } }] + seq![Pitch { letter: Letter::F, accidental: AccidentalSign { offset: 1i16 } }] + seq![Pitch { letter: Letter::F, accidental: AccidentalSign { offset: 2i16 } }] + seq![Pitch { letter: Letter::G, accidental: AccidentalSign { offset: -2i16 } }] + seq![Pitch { letter: Letter::G, accidental: AccidentalSign { offset: -1i16 } }] + seq![Pitch { letter: Letter::G, accidental: AccidentalSign { offset: 0i16 } }] + seq![Pitch { letter: Letter::G, accidental: AccidentalSign { offset: 1i16 } }] + seq![Pitch { letter: Letter::G, accidental: AccidentalSign { offset: 2i16 } }] + seq![Pitch { letter: Letter::A, accidental: AccidentalSign { offset: -2i16 } }] + seq![Pitch { letter: Letter::A, accidental: AccidentalSign { offset: -1i16 } }] + seq![Pitch { letter: Letter::A, accidental: AccidentalSign { offset: 0i16 } }] + seq![Pitch { letter: Letter::A, accidental: AccidentalSign { offset: 1i16 } }] + seq![Pitch { letter: Letter::A, accidental: AccidentalSign { offset: 2i16 } }] + seq![Pitch { letter: Letter::B, accidental: AccidentalSign { offset: -2i16 } }] + seq![Pitch { letter: Letter::B, accidental: AccidentalSign { offset: -1i16 } }] + seq![Pitch { letter: Letter::B, accidental: AccidentalSign { offset: 0i16 } }] + seq![Pitch { letter: Letter::B, accidental: AccidentalSign { offset: 1i16 } }] + seq![Pitch { letter: Letter::B, accidental: AccidentalSign { offset: 2i16 } }]
}

impl Pitch {
    /// Position on the line of fifths, with C at 0, G at 1 and F at -1.
    pub open spec fn fifths(self) -> int {
        self.letter.fifths() + 7 * self.accidental.offset
    }

    /// Semitones from C, not reduced to an octave (C flat is -1, B sharp is 12).
    pub open spec fn semis(self) -> int {
        self.letter.semis() + self.accidental.offset
    }

    /// Chroma of the pitch class, in `[0, 11]`.
    pub open spec fn pc(self) -> int {
        self.semis() % 12
    }

    /// Whether a pitch at `f` on the line of fifths has an accidental that fits an `i16`.
    pub open spec fn fifths_ok(f: int) -> bool {
        i16::MIN <= (f + 1) / 7 <= i16::MAX
    }

    /// The pitch at `f` on the line of fifths.
    pub open spec fn from_fifths(f: int) -> Pitch {
        Pitch { letter: Letter::from_fifths(f), accidental: AccidentalSign { offset: ((f + 1) / 7) as i16 } }
    }

    /// C double flat.
    #[allow(non_snake_case)]
    pub fn C_DOUBLE_FLAT() -> (r: Pitch)
        ensures
            r == (Pitch { letter: Letter::C, accidental: AccidentalSign { offset: -2i16 } }),
    {
        Pitch { letter: Letter::C, accidental: AccidentalSign { offset: -2i16 } }
    }
    /// C flat.
    #[allow(non_snake_case)]
    pub fn C_FLAT() -> (r: Pitch)
        ensures
            r == (Pitch { letter: Letter::C, accidental: AccidentalSign { offset: -1i16 } }),
    {
        Pitch { letter: Letter::C, accidental: AccidentalSign { offset: -1i16 } }
    }
    /// C natural.
    #[allow(non_snake_case)]
    pub fn C() -> (r: Pitch)
        ensures
            r == (Pitch { letter: Letter::C, accidental: AccidentalSign { offset: 0i16 } }),
    {
        Pitch { letter: Letter::C, accidental: AccidentalSign { offset: 0i16 } }
    }
    /// C sharp.
    #[allow(non_snake_case)]
    pub fn C_SHARP() -> (r: Pitch)
        ensures
            r == (Pitch { letter: Letter::C, accidental: AccidentalSign { offset: 1i16 } }),
    {
        Pitch { letter: Letter::C, accidental: AccidentalSign { offset: 1i16 } }
    }
    /// C double sharp.
    #[allow(non_snake_case)]
    pub fn C_DOUBLE_SHARP() -> (r: Pitch)
        ensures
            r == (Pitch { letter: Letter::C, accidental: AccidentalSign { offset: 2i16 } }),
    {
        Pitch { letter: Letter::C, accidental: AccidentalSign { offset: 2i16 } }
    }
    /// D double flat.
    #[allow(non_snake_case)]
    pub fn D_DOUBLE_FLAT() -> (r: Pitch)
        ensures
            r == (Pitch { letter: Letter::D, accidental: AccidentalSign { offset: -2i16 } }),
    {
        Pitch { letter: Letter::D, accidental: AccidentalSign { offset: -2i16 } }
    }
    /// D flat.
    #[allow(non_snake_case)]
    pub fn D_FLAT() -> (r: Pitch)
        ensures
            r == (Pitch { letter: Letter::D, accidental: AccidentalSign { offset: -1i16 } }),
    {
        Pitch { letter: Letter::D, accidental: AccidentalSign { offset: -1i16 } }
    }
    /// D natural.
    #[allow(non_snake_case)]
    pub fn D() -> (r: Pitch)
        ensures
            r == (Pitch { letter: Letter::D, accidental: AccidentalSign { offset: 0i16 } }),
    {
        Pitch { letter: Letter::D, accidental: AccidentalSign { offset: 0i16 } }
    }
    /// D sharp.
    #[allow(non_snake_case)]
    pub fn D_SHARP() -> (r: Pitch)
        ensures
            r == (Pitch { letter: Letter::D, accidental: AccidentalSign { offset: 1i16 } }),
    {
        Pitch { letter: Letter::D, accidental: AccidentalSign { offset: 1i16 } }
    }
    /// D double sharp.
    #[allow(non_snake_case)]
    pub fn D_DOUBLE_SHARP() -> (r: Pitch)
        ensures
            r == (Pitch { letter: Letter::D, accidental: AccidentalSign { offset: 2i16 } }),
    {
        Pitch { letter: Letter::D, accidental: AccidentalSign { offset: 2i16 } }
    }
    /// E double flat.
    #[allow(non_snake_case)]
    pub fn E_DOUBLE_FLAT() -> (r: Pitch)
        ensures
            r == (Pitch { letter: Letter::E, accidental: AccidentalSign { offset: -2i16 } }),
    {
        Pitch { letter: Letter::E, accidental: AccidentalSign { offset: -2i16 } }
    }
    /// E flat.
    #[allow(non_snake_case)]
    pub fn E_FLAT() -> (r: Pitch)
        ensures
            r == (Pitch { letter: Letter::E, accidental: AccidentalSign { offset: -1i16 } }),
    {
        Pitch { letter: Letter::E, accidental: AccidentalSign { offset: -1i16 } }
    }
    /// E natural.
    #[allow(non_snake_case)]
    pub fn E() -> (r: Pitch)
        ensures
            r == (Pitch { letter: Letter::E, accidental: AccidentalSign { offset: 0i16 } }),
    {
        Pitch { letter: Letter::E, accidental: AccidentalSign { offset: 0i16 } }
    }
    /// E sharp.
    #[allow(non_snake_case)]
    pub fn E_SHARP() -> (r: Pitch)
        ensures
            r == (Pitch { letter: Letter::E, accidental: AccidentalSign { offset: 1i16 } }),
    {
        Pitch { letter: Letter::E, accidental: AccidentalSign { offset: 1i16 } }
    }
    /// E double sharp.
    #[allow(non_snake_case)]
    pub fn E_DOUBLE_SHARP() -> (r: Pitch)
        ensures
            r == (Pitch { letter: Letter::E, accidental: AccidentalSign { offset: 2i16 } }),
    {
        Pitch { letter: Letter::E, accidental: AccidentalSign { offset: 2i16 } }
    }
    /// F double flat.
    #[allow(non_snake_case)]
    pub fn F_DOUBLE_FLAT() -> (r: Pitch)
        ensures
            r == (Pitch { letter: Letter::F, accidental: AccidentalSign { offset: -2i16 } }),
    {
        Pitch { letter: Letter::F, accidental: AccidentalSign { offset: -2i16 } }
    }
    /// F flat.
    #[allow(non_snake_case)]
    pub fn F_FLAT() -> (r: Pitch)
        ensures
            r == (Pitch { letter: Letter::F, accidental: AccidentalSign { offset: -1i16 } }),
    {
        Pitch { letter: Letter::F, accidental: AccidentalSign { offset: -1i16 } }
    }
    /// F natural.
    #[allow(non_snake_case)]
    pub fn F() -> (r: Pitch)
        ensures
            r == (Pitch { letter: Letter::F, accidental: AccidentalSign { offset: 0i16 } }),
    {
        Pitch { letter: Letter::F, accidental: AccidentalSign { offset: 0i16 } }
    }
    /// F sharp.
    #[allow(non_snake_case)]
    pub fn F_SHARP() -> (r: Pitch)
        ensures
            r == (Pitch { letter: Letter::F, accidental: AccidentalSign { offset: 1i16 } }),
    {
        Pitch { letter: Letter::F, accidental: AccidentalSign { offset: 1i16 } }
    }
    /// F double sharp.
    #[allow(non_snake_case)]
    pub fn F_DOUBLE_SHARP() -> (r: Pitch)
        ensures
            r == (Pitch { letter: Letter::F, accidental: AccidentalSign { offset: 2i16 } }),
    {
        Pitch { letter: Letter::F, accidental: AccidentalSign { offset: 2i16 } }
    }
    /// G double flat.
    #[allow(non_snake_case)]
    pub fn G_DOUBLE_FLAT() -> (r: Pitch)
        ensures
            r == (Pitch { letter: Letter::G, accidental: AccidentalSign { offset: -2i16 } }),
    {
        Pitch { letter: Letter::G, accidental: AccidentalSign { offset: -2i16 } }
    }
    /// G flat.
    #[allow(non_snake_case)]
    pub fn G_FLAT() -> (r: Pitch)
        ensures
            r == (Pitch { letter: Letter::G, accidental: AccidentalSign { offset: -1i16 } }),
    {
        Pitch { letter: Letter::G, accidental: AccidentalSign { offset: -1i16 } }
    }
    /// G natural.
    #[allow(non_snake_case)]
    pub fn G() -> (r: Pitch)
        ensures
            r == (Pitch { letter: Letter::G, accidental: AccidentalSign { offset: 0i16 } }),
    {
        Pitch { letter: Letter::G, accidental: AccidentalSign { offset: 0i16 } }
    }
    /// G sharp.
    #[allow(non_snake_case)]
    pub fn G_SHARP() -> (r: Pitch)
        ensures
            r == (Pitch { letter: Letter::G, accidental: AccidentalSign { offset: 1i16 } }),
    {
        Pitch { letter: Letter::G, accidental: AccidentalSign { offset: 1i16 } }
    }
    /// G double sharp.
    #[allow(non_snake_case)]
    pub fn G_DOUBLE_SHARP() -> (r: Pitch)
        ensures
            r == (Pitch { letter: Letter::G, accidental: AccidentalSign { offset: 2i16 } }),
    {
        Pitch { letter: Letter::G, accidental: AccidentalSign { offset: 2i16 } }
    }
    /// A double flat.
    #[allow(non_snake_case)]
    pub fn A_DOUBLE_FLAT() -> (r: Pitch)
        ensures
            r == (Pitch { letter: Letter::A, accidental: AccidentalSign { offset: -2i16 } }),
    {
        Pitch { letter: Letter::A, accidental: AccidentalSign { offset: -2i16 } }
    }
    /// A flat.
    #[allow(non_snake_case)]
    pub fn A_FLAT() -> (r: Pitch)
        ensures
            r == (Pitch { letter: Letter::A, accidental: AccidentalSign { offset: -1i16 } }),
    {
        Pitch { letter: Letter::A, accidental: AccidentalSign { offset: -1i16 } }
    }
    /// A natural.
    #[allow(non_snake_case)]
    pub fn A() -> (r: Pitch)
        ensures
            r == (Pitch { letter: Letter::A, accidental: AccidentalSign { offset: 0i16 } }),
    {
        Pitch { letter: Letter::A, accidental: AccidentalSign { offset: 0i16 } }
    }
    /// A sharp.
    #[allow(non_snake_case)]
    pub fn A_SHARP() -> (r: Pitch)
        ensures
            r == (Pitch { letter: Letter::A, accidental: AccidentalSign { offset: 1i16 } }),
    {
        Pitch { letter: Letter::A, accidental: AccidentalSign { offset: 1i16 } }
    }
    /// A double sharp.
    #[allow(non_snake_case)]
    pub fn A_DOUBLE_SHARP() -> (r: Pitch)
        ensures
            r == (Pitch { letter: Letter::A, accidental: AccidentalSign { offset: 2i16 } }),
    {
        Pitch { letter: Letter::A, accidental: AccidentalSign { offset: 2i16 } }
    }
    /// B double flat.
    #[allow(non_snake_case)]
    pub fn B_DOUBLE_FLAT() -> (r: Pitch)
        ensures
            r == (Pitch { letter: Letter::B, accidental: AccidentalSign { offset: -2i16 } }),
    {
        Pitch { letter: Letter::B, accidental: AccidentalSign { offset: -2i16 } }
    }
    /// B flat.
    #[allow(non_snake_case)]
    pub fn B_FLAT() -> (r: Pitch)
        ensures
            r == (Pitch { letter: Letter::B, accidental: AccidentalSign { offset: -1i16 } }),
    {
        Pitch { letter: Letter::B, accidental: AccidentalSign { offset: -1i16 } }
    }
    /// B natural.
    #[allow(non_snake_case)]
    pub fn B() -> (r: Pitch)
        ensures
            r == (Pitch { letter: Letter::B, accidental: AccidentalSign { offset: 0i16 } }),
    {
        Pitch { letter: Letter::B, accidental: AccidentalSign { offset: 0i16 } }
    }
    /// B sharp.
    #[allow(non_snake_case)]
    pub fn B_SHARP() -> (r: Pitch)
        ensures
            r == (Pitch { letter: Letter::B, accidental: AccidentalSign { offset: 1i16 } }),
    {
        Pitch { letter: Letter::B, accidental: AccidentalSign { offset: 1i16 } }
    }
    /// B double sharp.
    #[allow(non_snake_case)]
    pub fn B_DOUBLE_SHARP() -> (r: Pitch)
        ensures
            r == (Pitch { letter: Letter::B, accidental: AccidentalSign { offset: 2i16 } }),
    {
        Pitch { letter: Letter::B, accidental: AccidentalSign { offset: 2i16 } }
    }

    /// All 35 pitches from double flats to double sharps, grouped by letter.
    #[allow(non_snake_case)]
    pub fn ALL_CONSTS() -> (r: Vec<Pitch>)
        ensures
            r@ == all_consts_spec(),
    {
        let mut v: Vec<Pitch> = Vec::new();
        v.push(Pitch::C_DOUBLE_FLAT());
        v.push(Pitch::C_FLAT());
        v.push(Pitch::C());
        v.push(Pitch::C_SHARP());
        v.push(Pitch::C_DOUBLE_SHARP());
        v.push(Pitch::D_DOUBLE_FLAT());
        v.push(Pitch::D_FLAT());
        v.push(Pitch::D());
        v.push(Pitch::D_SHARP());
        v.push(Pitch::D_DOUBLE_SHARP());
        v.push(Pitch::E_DOUBLE_FLAT());
        v.push(Pitch::E_FLAT());
        v.push(Pitch::E());
        v.push(Pitch::E_SHARP());
        v.push(Pitch::E_DOUBLE_SHARP());
        v.push(Pitch::F_DOUBLE_FLAT());
        v.push(Pitch::F_FLAT());
        v.push(Pitch::F());
        v.push(Pitch::F_SHARP());
        v.push(Pitch::F_DOUBLE_SHARP());
        v.push(Pitch::G_DOUBLE_FLAT());
        v.push(Pitch::G_FLAT());
        v.push(Pitch::G());
        v.push(Pitch::G_SHARP());
        v.push(Pitch::G_DOUBLE_SHARP());
        v.push(Pitch::A_DOUBLE_FLAT());
        v.push(Pitch::A_FLAT());
        v.push(Pitch::A());
        v.push(Pitch::A_SHARP());
        v.push(Pitch::A_DOUBLE_SHARP());
        v.push(Pitch::B_DOUBLE_FLAT());
        v.push(Pitch::B_FLAT());
        v.push(Pitch::B());
        v.push(Pitch::B_SHARP());
        v.push(Pitch::B_DOUBLE_SHARP());
        v
    }

    /// Creates a pitch from a letter and an accidental.
    pub fn from_letter_and_accidental(letter: Letter, accidental_sign: AccidentalSign) -> (r: Pitch)
        ensures
            r == (Pitch { letter, accidental: accidental_sign }),
    {
        Pitch { letter, accidental: accidental_sign }
    }

    /// The natural pitch of a letter.
    pub fn from_letter(letter: Letter) -> (r: Pitch)
        ensures
            r == (Pitch { letter, accidental: AccidentalSign { offset: 0i16 } }),
    {
        Pitch { letter, accidental: AccidentalSign { offset: 0i16 } }
    }

    /// The letter of the pitch.
    pub fn letter(&self) -> (r: Letter)
        ensures
            r == self.letter,
    {
        self.letter
    }

    /// The accidental of the pitch.
    pub fn accidental(&self) -> (r: AccidentalSign)
        ensures
            r == self.accidental,
    {
        self.accidental
    }

    /// Position on the line of fifths, computed without overflow.
    pub fn fifths_i64(&self) -> (r: i64)
        ensures
            r == self.fifths(),
    {
        self.letter.fifths_from_c() as i64 + 7 * self.accidental.offset as i64
    }

    /// Position on the line of fifths (C = 0, G = 1, F = -1, C sharp = 7).
    pub fn as_fifths_from_c(&self) -> (r: i16)
        requires
            i16::MIN <= self.fifths() <= i16::MAX,
        ensures
            r == self.fifths(),
    {
        self.fifths_i64() as i16
    }

    /// The pitch at position `fifths` on the line of fifths.
    pub fn from_fifths_from_c(fifths: i16) -> (r: Pitch)
        ensures
            r == Pitch::from_fifths(fifths as int),
            r.fifths() == fifths,
    {
        proof { lemma_from_fifths(fifths as int); }
        Pitch::from_fifths_i64(fifths as i64)
    }

    /// The pitch at position `fifths` on the line of fifths.
    pub fn from_fifths_i64(fifths: i64) -> (r: Pitch)
        requires
            Pitch::fifths_ok(fifths as int),
            -0x1_0000_0000 <= fifths <= 0x1_0000_0000,
        ensures
            r == Pitch::from_fifths(fifths as int),
            r.fifths() == fifths,
    {
        proof { lemma_from_fifths(fifths as int); }
        let letter = Letter::from_fifths_from_c(fifths as i32);
        let offset = crate::arith::div_euclid_7(fifths + 1);
        Pitch { letter, accidental: AccidentalSign { offset: offset as i16 } }
    }

    /// The pitch class of the pitch.
    pub fn as_pitch_class(&self) -> (r: PitchClass)
        ensures
            r.ch() == self.pc(),
    {
        let c = crate::arith::rem_euclid_12(self.semis_i64());
        match PitchClass::from_chroma(c as u8) {
            Some(pc) => pc,
            None => PitchClass::C,
        }
    }

    /// Semitones from C, computed without overflow.
    pub fn semis_i64(&self) -> (r: i64)
        ensures
            r == self.semis(),
    {
        let base: i64 = match self.letter {
            Letter::C => 0,
            Letter::D => 2,
            Letter::E => 4,
            Letter::F => 5,
            Letter::G => 7,
            Letter::A => 9,
            Letter::B => 11,
        };
        base + self.accidental.offset as i64
    }

    /// Semitones from C, not reduced to an octave: C flat gives -1 and B sharp 12.
    pub fn semitones_offset_from_c(&self) -> (r: Semitones)
        requires
            i16::MIN <= self.semis() <= i16::MAX,
        ensures
            r.0 == self.semis(),
    {
        Semitones(self.semis_i64() as i16)
    }

    /// Semitones upwards from `self` to `rhs` within an octave, in `[0, 11]`.
    pub fn semitones_to(&self, rhs: Pitch) -> (r: Semitones)
        ensures
            r.0 == (rhs.semis() - self.semis()) % 12,
            0 <= r.0 < 12,
    {
        Semitones(crate::arith::rem_euclid_12(rhs.semis_i64() - self.semis_i64()) as i16)
    }

    /// Difference of the pitch classes' chromas, in `[-11, 11]`.
    pub fn semitones_between(&self, rhs: Pitch) -> (r: Semitones)
        ensures
            r.0 == rhs.pc() - self.pc(),
    {
        let l = self.as_pitch_class().chroma() as i16;
        let r = rhs.as_pitch_class().chroma() as i16;
        Semitones(r - l)
    }

    /// Moves the pitch `fifths` steps along the line of fifths.
    pub fn transpose_fifths(&self, fifths: i16) -> (r: Pitch)
        requires
            Pitch::fifths_ok(self.fifths() + fifths),
        ensures
            r.fifths() == self.fifths() + fifths,
            r == Pitch::from_fifths(self.fifths() + fifths),
    {
        Pitch::from_fifths_i64(self.fifths_i64() + fifths as i64)
    }

    /// The natural pitch with the same letter.
    pub fn set_natural(&self) -> (r: Pitch)
        ensures
            r == (Pitch { letter: self.letter, accidental: AccidentalSign { offset: 0i16 } }),
    {
        Pitch { letter: self.letter, accidental: AccidentalSign { offset: 0i16 } }
    }

    /// Whether both pitches belong to the same pitch class.
    pub fn eq_enharmonic(&self, rhs: &Pitch) -> (r: bool)
        ensures
            r == (self.pc() == rhs.pc()),
    {
        self.as_pitch_class().chroma() == rhs.as_pitch_class().chroma()
    }

    /// The pitch of a pitch class, spelled with a sharp on black keys.
    pub fn from_pitch_class(pc: PitchClass) -> (r: Pitch)
        ensures
            r == sharp_spelling(pc.ch()),
            r.pc() == pc.ch(),
    {
        match pc {
            PitchClass::C => Pitch::C(),
            PitchClass::Cs => Pitch::C_SHARP(),
            PitchClass::D => Pitch::D(),
            PitchClass::Ds => Pitch::D_SHARP(),
            PitchClass::E => Pitch::E(),
            PitchClass::F => Pitch::F(),
            PitchClass::Fs => Pitch::F_SHARP(),
            PitchClass::G => Pitch::G(),
            PitchClass::Gs => Pitch::G_SHARP(),
            PitchClass::A => Pitch::A(),
            PitchClass::As => Pitch::A_SHARP(),
            PitchClass::B => Pitch::B(),
        }
    }

    /// The pitch of a pitch class, spelled with a flat on black keys.
    pub fn from_pitch_class_flat(pc: PitchClass) -> (r: Pitch)
        ensures
            r == flat_spelling(pc.ch()),
            r.pc() == pc.ch(),
    {
        match pc {
            PitchClass::C => Pitch::C(),
            PitchClass::Cs => Pitch::D_FLAT(),
            PitchClass::D => Pitch::D(),
            PitchClass::Ds => Pitch::E_FLAT(),
            PitchClass::E => Pitch::E(),
            PitchClass::F => Pitch::F(),
            PitchClass::Fs => Pitch::G_FLAT(),
            PitchClass::G => Pitch::G(),
            PitchClass::Gs => Pitch::A_FLAT(),
            PitchClass::A => Pitch::A(),
            PitchClass::As => Pitch::B_FLAT(),
            PitchClass::B => Pitch::B(),
        }
    }

    /// The same pitch class spelled with sharps or flats.
    ///
    /// A pitch already written with the requested kind of accidental (or with a natural)
    /// is returned unchanged, even when a simpler spelling exists.
    pub fn respell_with(&self, spelling: Spelling) -> (r: Pitch)
        ensures
            r == respelled_with(*self, spelling),
            r.pc() == self.pc(),
    {
        proof { lemma_spellings(self.pc()); }
        match spelling {
            Spelling::Sharps => if self.accidental.offset >= 0 {
                *self
            } else {
                Pitch::from_pitch_class(self.as_pitch_class())
            },
            Spelling::Flats => if self.accidental.offset <= 0 {
                *self
            } else {
                Pitch::from_pitch_class_flat(self.as_pitch_class())
            },
        }
    }

    /// The same pitch class with fewer accidentals: white keys become naturals,
    /// black keys keep a single accidental in the direction they already had.
    pub fn simplified(&self) -> (r: Pitch)
        ensures
            r == simplified_spec(*self),
            r.pc() == self.pc(),
    {
        proof { lemma_spellings(self.pc()); }
        let pc = self.as_pitch_class();
        if self.accidental.offset == 0 {
            *self
        } else if is_white(pc) {
            Pitch::from_pitch_class(pc)
        } else if self.accidental.offset == 1 || self.accidental.offset == -1 {
            *self
        } else if self.accidental.offset > 0 {
            Pitch::from_pitch_class(pc)
        } else {
            Pitch::from_pitch_class_flat(pc)
        }
    }

    /// The enharmonic spelling: white keys become naturals, black keys switch
    /// between sharp and flat spelling.
    pub fn enharmonic(&self) -> (r: Pitch)
        ensures
            r == enharmonic_spec(*self),
            r.pc() == self.pc(),
    {
        proof { lemma_spellings(self.pc()); }
        let pc = self.as_pitch_class();
        if is_white(pc) {
            Pitch::from_pitch_class(pc)
        } else if self.accidental.offset > 0 {
            Pitch::from_pitch_class_flat(pc)
        } else {
            Pitch::from_pitch_class(pc)
        }
    }
}

impl From<PitchClass> for Pitch {
    /// The pitch of a pitch class, spelled with a sharp on black keys.
    fn from(pc: PitchClass) -> (r: Pitch) {
        Pitch::from_pitch_class(pc)
    }
}

impl vstd::std_specs::convert::FromSpecImpl<PitchClass> for Pitch {
    open spec fn obeys_from_spec() -> bool {
        true
    }

    open spec fn from_spec(pc: PitchClass) -> Pitch {
        sharp_spelling(pc.ch())
    }
}

fn is_white(pc: PitchClass) -> (r: bool)
    ensures
        r == is_white_chroma(pc.ch()),
{
    match pc {
        PitchClass::C | PitchClass::D | PitchClass::E | PitchClass::F | PitchClass::G | PitchClass::A | PitchClass::B => true,
        _ => false,
    }
}

/// The result of [`Pitch::respell_with`].
pub open spec fn respelled_with(p: Pitch, spelling: Spelling) -> Pitch {
    match spelling {
        Spelling::Sharps => if p.accidental.offset >= 0 { p } else { sharp_spelling(p.pc()) },
        Spelling::Flats => if p.accidental.offset <= 0 { p } else { flat_spelling(p.pc()) },
    }
}

/// The result of [`Pitch::simplified`].
pub open spec fn simplified_spec(p: Pitch) -> Pitch {
    if p.accidental.offset == 0 {
        p
    } else if is_white_chroma(p.pc()) {
        sharp_spelling(p.pc())
    } else if p.accidental.offset == 1 || p.accidental.offset == -1 {
        p
    } else if p.accidental.offset > 0 {
        sharp_spelling(p.pc())
    } else {
        flat_spelling(p.pc())
    }
}

/// The result of [`Pitch::enharmonic`].
pub open spec fn enharmonic_spec(p: Pitch) -> Pitch {
    if is_white_chroma(p.pc()) {
        sharp_spelling(p.pc())
    } else if p.accidental.offset > 0 {
        flat_spelling(p.pc())
    } else {
        sharp_spelling(p.pc())
    }
}

/// Both spellings of chroma `c` belong to pitch class `c`, and agree on white keys.
pub proof fn lemma_spellings(c: int)
    requires
        0 <= c < 12,
    ensures
        sharp_spelling(c).pc() == c,
        flat_spelling(c).pc() == c,
        is_white_chroma(c) ==> sharp_spelling(c) == flat_spelling(c) && sharp_spelling(c).accidental.offset == 0,
        !is_white_chroma(c) ==> sharp_spelling(c).accidental.offset == 1 && flat_spelling(c).accidental.offset == -1,
{
}

/// The pitch at `f` on the line of fifths lies at `f`.
pub proof fn lemma_from_fifths(f: int)
    requires
        Pitch::fifths_ok(f),
    ensures
        Pitch::from_fifths(f).fifths() == f,
        Letter::from_fifths(f).fifths() == (f + 1) % 7 - 1,
{
}

/// A pitch is recovered from its position on the line of fifths.
pub proof fn lemma_fifths_roundtrip(p: Pitch)
    ensures
        Pitch::fifths_ok(p.fifths()),
        Pitch::from_fifths(p.fifths()) == p,
{
    let f = p.fifths();
    assert((f + 1) / 7 == p.accidental.offset && (f + 1) % 7 == p.letter.fifths() + 1);
}

/// The chroma of a pitch is seven times its position on the line of fifths, modulo 12.
pub proof fn lemma_pc_fifths(p: Pitch)
    ensures
        p.pc() == (7 * p.fifths()) % 12,
        p.semis() == 7 * p.fifths() - 12 * (4 * p.accidental.offset + letter_octaves(p.letter)),
{
    let k = 4 * p.accidental.offset + letter_octaves(p.letter);
    assert(p.semis() == 7 * p.fifths() - 12 * k);
    vstd::arithmetic::div_mod::lemma_mod_multiples_vanish(-k, 7 * p.fifths(), 12);
}

/// Whole octaves between a letter's natural and seven times its fifths position.
pub open spec fn letter_octaves(l: Letter) -> int {
    match l {
        Letter::C => 0,
        Letter::D => 1,
        Letter::E => 2,
        Letter::F => -1,
        Letter::G => 0,
        Letter::A => 1,
        Letter::B => 2,
    }
}

} // verus!
