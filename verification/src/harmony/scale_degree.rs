//! Degrees of a seven-note scale.

use vstd::prelude::*;

verus! {

/// A degree of a seven-note scale, from I (the tonic) to VII.
#[derive(Copy, Clone, Eq, PartialEq, Debug, Hash, PartialOrd, Ord, Structural)]
pub enum ScaleDegree {
    I,
    II,
    III,
    IV,
    V,
    VI,
    VII,
}

impl ScaleDegree {
    /// The number of the degree, from 1 to 7.
    pub open spec fn num(self) -> int {
        match self {
            ScaleDegree::I => 1,
            ScaleDegree::II => 2,
            ScaleDegree::III => 3,
            ScaleDegree::IV => 4,
            ScaleDegree::V => 5,
            ScaleDegree::VI => 6,
            ScaleDegree::VII => 7,
        }
    }

    /// The number of the degree, from 1 to 7.
    pub fn as_num(self) -> (r: u8)
        ensures
            r == self.num(),
    {
        match self {
            ScaleDegree::I => 1,
            ScaleDegree::II => 2,
            ScaleDegree::III => 3,
            ScaleDegree::IV => 4,
            ScaleDegree::V => 5,
            ScaleDegree::VI => 6,
            ScaleDegree::VII => 7,
        }
    }

    /// The degree numbered `num`, or `None` outside `[1, 7]`.
    pub fn from_num(num: u8) -> (r: Option<ScaleDegree>)
        ensures
            r is Some <==> 1 <= num <= 7,
            r matches Some(d) ==> d.num() == num,
    {
        match num {
            1 => Some(ScaleDegree::I),
            2 => Some(ScaleDegree::II),
            3 => Some(ScaleDegree::III),
            4 => Some(ScaleDegree::IV),
            5 => Some(ScaleDegree::V),
            6 => Some(ScaleDegree::VI),
            7 => Some(ScaleDegree::VII),
            _ => None,
        }
    }
}

impl Default for ScaleDegree {
    /// The tonic degree.
    fn default() -> (r: ScaleDegree)
        ensures
            r == ScaleDegree::I,
    {
        ScaleDegree::I
    }
}

} // verus!
