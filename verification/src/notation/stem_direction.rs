//! Which way note stems point.

use vstd::prelude::*;

verus! {

/// The direction of a note's stem.
#[derive(Copy, Clone, Eq, PartialEq, Debug, Hash, Structural)]
pub enum StemDirection {
    Up,
    Down,
}

/// Which notes decide the stem direction of a group: the first and last, the
/// lowest and highest, or all of them.
#[derive(Copy, Clone, Eq, PartialEq, Debug, Hash, Structural)]
pub enum GetStemDirectionParams {
    EndsOnly,
    ExtremesOnly,
    AllNotes,
}

impl Default for GetStemDirectionParams {
    /// The first and last notes decide.
    fn default() -> (r: GetStemDirectionParams)
        ensures
            r == GetStemDirectionParams::EndsOnly,
    {
        GetStemDirectionParams::EndsOnly
    }
}

} // verus!
