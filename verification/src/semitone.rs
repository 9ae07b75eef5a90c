//! A signed number of semitones.

use vstd::prelude::*;

verus! {

/// A signed distance measured in semitones (half steps).
#[derive(Copy, Clone, Eq, PartialEq, Debug, Hash, PartialOrd, Ord, Structural)]
pub struct Semitones(pub i16);

} // verus!
