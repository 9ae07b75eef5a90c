//! Letters, accidentals, pitch classes and spelled pitches.

mod letter;
pub use letter::{letter_of_char, InvalidLetter, Letter};

mod accidental;
pub use accidental::{accidental_char, AccidentalSign};

mod pitch_class;
pub use pitch_class::{lemma_ch_injective, InvalidPitch, PitchClass};

mod spelled;
pub use spelled::{
    all_consts_spec, enharmonic_spec, flat_spelling, is_white_chroma, lemma_fifths_roundtrip,
    lemma_from_fifths, lemma_pc_fifths, lemma_spellings, letter_octaves, respelled_with,
    sharp_spelling, simplified_spec, Pitch, Spelling,
};
