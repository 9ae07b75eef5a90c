//! Containers of timed musical elements.

use vstd::prelude::*;
use crate::duration::Duration;
use crate::harmony::Key;
use crate::notation::{AccidentalDisplay, PitchClef};
use crate::note::Note;

verus! {

/// A time from the start of a container, in whole notes.
pub type Offset = Duration;

/// What a container holds at a given time.
#[derive(Debug, Clone, Eq, PartialEq)]
pub enum ContainerElement {
    /// A note held for `duration`, with its accidental shown as `accidental` says.
    Note { note: Note, duration: Duration, accidental: AccidentalDisplay },
    /// A rest of `duration`; an implicit rest is not written out.
    Rest { duration: Duration, implicit: bool },
    /// A change of key signature.
    KeySignature(Key),
    /// A change of clef.
    Clef(PitchClef),
}

/// Elements placed freely in time, each at an offset from the start.
#[derive(Default, Debug, Clone)]
pub struct Freeform {
    elements: Vec<(Offset, ContainerElement)>,
}

impl Freeform {
    /// The elements, each with its offset, in the order they were placed.
    pub closed spec fn elements_spec(self) -> Seq<(Offset, ContainerElement)> {
        self.elements@
    }

    /// The container of `elements`, in the given order.
    pub fn from_elements(elements: Vec<(Offset, ContainerElement)>) -> (r: Freeform)
        ensures
            r.elements_spec() == elements@,
    {
        Freeform { elements }
    }

    /// The elements, each with its offset.
    pub fn elements(&self) -> (r: &[(Offset, ContainerElement)])
        ensures
            r@ == self.elements_spec(),
    {
        self.elements.as_slice()
    }
}

} // verus!
