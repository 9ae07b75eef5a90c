//! Marks written next to notes: dynamics and how an accidental is shown.

use vstd::prelude::*;

verus! {

/// How loud to play, from softest (`PPP`) to loudest (`FFF`).
#[derive(Copy, Clone, Debug, Eq, PartialEq, Ord, PartialOrd, Hash, Structural)]
pub enum Dynamics {
    PPP,
    PP,
    P,
    MP,
    MF,
    F,
    FF,
    FFF,
}

impl Dynamics {
    /// The position of the mark from softest (0) to loudest (7).
    pub open spec fn level(self) -> int {
        match self {
            Dynamics::PPP => 0,
            Dynamics::PP => 1,
            Dynamics::P => 2,
            Dynamics::MP => 3,
            Dynamics::MF => 4,
            Dynamics::F => 5,
            Dynamics::FF => 6,
            Dynamics::FFF => 7,
        }
    }

    /// The position of the mark from softest (0) to loudest (7).
    pub fn as_u8(self) -> (r: u8)
        ensures
            r == self.level(),
    {
        match self {
            Dynamics::PPP => 0,
            Dynamics::PP => 1,
            Dynamics::P => 2,
            Dynamics::MP => 3,
            Dynamics::MF => 4,
            Dynamics::F => 5,
            Dynamics::FF => 6,
            Dynamics::FFF => 7,
        }
    }
}

/// How an accidental in front of a note is shown: as usual, as a reminder in
/// brackets, or left out because the key or the bar implies it.
#[derive(Copy, Clone, Debug, Hash, Eq, PartialEq, Structural)]
pub enum AccidentalDisplay {
    Normal,
    Courtesy,
    Implied,
}

impl Default for AccidentalDisplay {
    /// Shown as usual.
    fn default() -> (r: AccidentalDisplay)
        ensures
            r == AccidentalDisplay::Normal,
    {
        AccidentalDisplay::Normal
    }
}

} // verus!
