//! Interval sizes from a unison up to two octaves, as names.

use vstd::prelude::*;

verus! {

/// The size of an interval from a unison (1) to a fifteenth (15).
#[derive(Copy, Clone, Eq, PartialEq, Debug, Hash, Structural)]
pub enum IntervalSize {
    Unison,
    Second,
    Third,
    Fourth,
    Fifth,
    Sixth,
    Seventh,
    Octave,
    Ninth,
    Tenth,
    Eleventh,
    Twelfth,
    Thirteenth,
    Fourteenth,
    Fifteenth,
}

impl IntervalSize {
    /// The number of the size: 1 for a unison up to 15 for a fifteenth.
    pub open spec fn size(self) -> int {
        match self {
            IntervalSize::Unison => 1,
            IntervalSize::Second => 2,
            IntervalSize::Third => 3,
            IntervalSize::Fourth => 4,
            IntervalSize::Fifth => 5,
            IntervalSize::Sixth => 6,
            IntervalSize::Seventh => 7,
            IntervalSize::Octave => 8,
            IntervalSize::Ninth => 9,
            IntervalSize::Tenth => 10,
            IntervalSize::Eleventh => 11,
            IntervalSize::Twelfth => 12,
            IntervalSize::Thirteenth => 13,
            IntervalSize::Fourteenth => 14,
            IntervalSize::Fifteenth => 15,
        }
    }

    /// The size within an octave: compound sizes (a ninth and up) lose an octave.
    pub open spec fn simple_size(self) -> int {
        if self.size() > 8 { self.size() - 7 } else { self.size() }
    }

    /// The size of the inversion: within an octave sizes add up to 9, compound sizes
    /// to 23, and the unison, the octave and the fifteenth stay as they are.
    pub open spec fn inverted_size(self) -> int {
        if self.size() == 1 || self.size() == 8 || self.size() == 15 {
            self.size()
        } else if self.size() < 8 {
            9 - self.size()
        } else {
            23 - self.size()
        }
    }

    /// The size without its octaves (a tenth becomes a third).
    pub fn as_simple(&self) -> (r: IntervalSize)
        ensures
            r.size() == self.simple_size(),
    {
        match self {
            IntervalSize::Ninth => IntervalSize::Second,
            IntervalSize::Tenth => IntervalSize::Third,
            IntervalSize::Eleventh => IntervalSize::Fourth,
            IntervalSize::Twelfth => IntervalSize::Fifth,
            IntervalSize::Thirteenth => IntervalSize::Sixth,
            IntervalSize::Fourteenth => IntervalSize::Seventh,
            IntervalSize::Fifteenth => IntervalSize::Octave,
            _ => *self,
        }
    }

    /// The number of the size, as in `3` for a third.
    pub fn shorthand(&self) -> (r: u8)
        ensures
            r == self.size(),
    {
        match self {
            IntervalSize::Unison => 1,
            IntervalSize::Second => 2,
            IntervalSize::Third => 3,
            IntervalSize::Fourth => 4,
            IntervalSize::Fifth => 5,
            IntervalSize::Sixth => 6,
            IntervalSize::Seventh => 7,
            IntervalSize::Octave => 8,
            IntervalSize::Ninth => 9,
            IntervalSize::Tenth => 10,
            IntervalSize::Eleventh => 11,
            IntervalSize::Twelfth => 12,
            IntervalSize::Thirteenth => 13,
            IntervalSize::Fourteenth => 14,
            IntervalSize::Fifteenth => 15,
        }
    }

    /// Whether intervals of this size are perfect (unisons, fourths, fifths and
    /// octaves, also compound).
    pub fn is_perfect(&self) -> (r: bool)
        ensures
            r == (self.simple_size() == 1 || self.simple_size() == 4 || self.simple_size() == 5
                || self.simple_size() == 8),
    {
        match self.as_simple() {
            IntervalSize::Unison => true,
            IntervalSize::Fourth => true,
            IntervalSize::Fifth => true,
            IntervalSize::Octave => true,
            _ => false,
        }
    }

    /// The size of the inverted interval.
    pub fn inverted(&self) -> (r: IntervalSize)
        ensures
            r.size() == self.inverted_size(),
    {
        match self {
            IntervalSize::Unison => IntervalSize::Unison,
            IntervalSize::Second => IntervalSize::Seventh,
            IntervalSize::Third => IntervalSize::Sixth,
            IntervalSize::Fourth => IntervalSize::Fifth,
            IntervalSize::Fifth => IntervalSize::Fourth,
            IntervalSize::Sixth => IntervalSize::Third,
            IntervalSize::Seventh => IntervalSize::Second,
            IntervalSize::Octave => IntervalSize::Octave,
            IntervalSize::Ninth => IntervalSize::Fourteenth,
            IntervalSize::Tenth => IntervalSize::Thirteenth,
            IntervalSize::Eleventh => IntervalSize::Twelfth,
            IntervalSize::Twelfth => IntervalSize::Eleventh,
            IntervalSize::Thirteenth => IntervalSize::Tenth,
            IntervalSize::Fourteenth => IntervalSize::Ninth,
            IntervalSize::Fifteenth => IntervalSize::Fifteenth,
        }
    }
}

/// Sizes are told apart by their numbers, which run from 1 to 15.
pub proof fn lemma_size_injective(a: IntervalSize, b: IntervalSize)
    ensures
        (a.size() == b.size()) <==> (a == b),
        1 <= a.size() <= 15,
{
}

/// Inverting a size twice gives it back.
pub proof fn law_size_double_inversion(s: IntervalSize, t: IntervalSize)
    requires
        t.size() == s.inverted_size(),
    ensures
        t.inverted_size() == s.size(),
{
}

} // verus!
