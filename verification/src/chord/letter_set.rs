//! Sets of letters, one bit per letter.

use vstd::prelude::*;
use crate::pitch::Letter;

verus! {

/// A set of letters: bit `i` stands for the letter `i` steps above C.
#[derive(Copy, Clone, Eq, PartialEq, Debug, Hash, Structural)]
pub struct LetterSet(u8);

/// The bit `1 << i` has bit `j` set exactly when `i == j`, for `i, j < 7`.
proof fn lemma_letter_bit(x: u8, i: u8, j: u8)
    by (bit_vector)
    requires
        i < 7,
        j < 7,
        x < 128,
    ensures
        ((x | (1u8 << i)) & (1u8 << j) != 0) <==> (x & (1u8 << j) != 0 || i == j),
        (x | (1u8 << i)) < 128,
        (0u8 & (1u8 << j)) == 0,
        (127u8 & (1u8 << j)) != 0,
{
}

impl LetterSet {
    /// The bits of the set.
    pub closed spec fn bits(self) -> u8 {
        self.0
    }

    /// Whether the set holds `l`.
    pub open spec fn has(self, l: Letter) -> bool {
        self.bits() & (1u8 << (l.idx() as u8)) != 0
    }

    /// Only the seven low bits are ever set.
    #[verifier::type_invariant]
    pub open spec fn seven_bits(self) -> bool {
        self.bits() < 128
    }

    /// The empty set.
    #[allow(non_snake_case)]
    pub fn EMPTY() -> (r: LetterSet)
        ensures
            forall|l: Letter| #![trigger r.has(l)] !r.has(l),
    {
        let z = LetterSet(0);
        proof {
            assert forall|l: Letter| #![trigger z.has(l)] !z.has(l) by {
                lemma_letter_bit(0, 0, l.idx() as u8);
            }
        }
        z
    }

    /// The set of all seven letters.
    #[allow(non_snake_case)]
    pub fn FULL() -> (r: LetterSet)
        ensures
            forall|l: Letter| #[trigger] r.has(l),
    {
        let f = LetterSet(127);
        proof {
            assert forall|l: Letter| #[trigger] f.has(l) by {
                lemma_letter_bit(0, 0, l.idx() as u8);
            }
        }
        f
    }

    /// Whether the set holds `letter`.
    pub fn is_set(self, letter: Letter) -> (r: bool)
        ensures
            r == self.has(letter),
    {
        self.0 & (1u8 << letter.step()) != 0
    }

    /// The set with `letter` added.
    pub fn with_set(self, letter: Letter) -> (r: LetterSet)
        ensures
            forall|l: Letter| #[trigger] r.has(l) <==> (self.has(l) || l == letter),
    {
        proof { use_type_invariant(&self); }
        let i = letter.step();
        proof { lemma_letter_bit(self.0, i, 0); }
        let r = LetterSet(self.0 | (1u8 << i));
        proof {
            assert forall|l: Letter| #[trigger] r.has(l) <==> (self.has(l) || l == letter) by {
                lemma_letter_bit(self.0, i, l.idx() as u8);
            }
        }
        r
    }
}

impl Default for LetterSet {
    /// The empty set.
    fn default() -> (r: LetterSet)
        ensures
            forall|l: Letter| #![trigger r.has(l)] !r.has(l),
    {
        LetterSet::EMPTY()
    }
}

} // verus!
