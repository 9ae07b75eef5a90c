//! Keys, diatonic modes and scale degrees.

mod mode;
pub use mode::{mode_of_offset, DiatonicMode};

mod scale_degree;
pub use scale_degree::ScaleDegree;

mod key;
pub use key::{
    alterations_spec, alteration_count, from_pitch_degree_spec, in_key, key_fits, key_pitch,
    key_scale, key_sharps, law_accidental_of_scale, law_alterations_sum, law_from_pitch_degree, law_from_sharps_sharps, law_relative_keeps_sharps,
    relative_spec, respell_from, respelled_in_key, sum_offsets, Key,
};
