//! Intervals: a quality together with a diatonic number.

mod number;
pub use number::{
    abs, base_semitones, inverted_number, is_perfect_number, law_number_inversion, lemma_inverted_bounds,
    lemma_inverted_number_involutive, lemma_number_ext, lemma_number_mk, lemma_simple, lemma_value_range, octaves, parse_nonzero_i16, sgn, simple_abs,
    steps, Number, ParseNumberError,
};

mod quality;
pub use quality::{
    all_chars, inverted_quality, law_parse_shorthand, lemma_inverted_quality_involutive, quality_from_chars,
    quality_shorthand, repeat_char, ParseIntervalQualityErr, Quality,
};

mod ivl;
pub use ivl::{
    added_number, adjust_fits, all_interval_consts, fifths_of, lemma_added_number,
    lemma_adjust_roundtrip, lemma_fifths_semis, lemma_interval_ext, lemma_mk, lemma_mk_of, lemma_negated_interval, law_double_inversion, law_double_negation, law_preferred_interval, law_stability,
    lemma_perfect_sign, lemma_quality_with_adjust, lemma_shift_octaves, lemma_sum_interval, preferred_interval, quality_adjust,
    quality_with_adjust, semitones_of, simple_fifths, stability_of, valid_interval, Interval,
    ParseIntervalError, Stability, negated_interval, addable, sum_interval, sum_seq, summable,
    expanded_interval, expandable,
};

mod parse_interval;
pub use parse_interval::{find_from, interval_from_chars, interval_of_parts, is_number_char};

mod between;
pub use between::{
    between_number, between_semis, between_spec, law_between_transpose, law_transpose_between,
    lemma_between_parts, lemma_letter_fifths, lemma_pitch_fifths, letter_offset, letter_span, simple_ascending,
    span_fits, transposed, wraps,
};

mod size;
pub use size::{law_size_double_inversion, lemma_size_injective, IntervalSize};
