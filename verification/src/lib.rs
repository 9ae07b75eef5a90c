//! Music theory primitives: pitches, intervals, notes, keys, enharmonic comparison,
//! pitch-class sets, twelve-tone matrices, clefs, chord symbols, chord shapes and
//! roots, written durations and tempos.

pub mod arith;
pub mod semitone;
pub mod pitch;
pub mod parse;
pub mod interval;
pub mod note;
pub mod harmony;
pub mod pcset;
pub mod octave_letter;
pub mod notation;
pub mod generator;
pub mod matrix;
pub mod chord;
pub mod enharmonic;
pub mod duration;
pub mod containers;
pub mod export;

pub use crate::pitch::{AccidentalSign, Letter, Pitch, PitchClass, Spelling};
pub use crate::semitone::Semitones;
pub use crate::note::Note;
pub use crate::interval::Interval;
pub use crate::enharmonic::{EnharmonicEq, EnharmonicOrd};
