//! Chords: symbols, qualities and sizes.

mod parse;
pub use parse::{
    apply_rest, ext_intervals, first_with_number, has_number, head_of, interpret, interpret_spec,
    is_ext, token_at, with_maj_or_number, with_number, ChordTk, TkCursor,
};

mod letter_set;
pub use letter_set::LetterSet;

mod kinds;
pub use kinds::{ChordQuality, ChordSize};

mod root;
pub use root::{
    best_supported, bit, class_buffer_items, common_shape, law_root_of_one_class, law_shape_root, law_shape_root_of_letters, numbers_exactly, spans_number, lemma_best_supported_max, classes_distinct, covers_all_classes, find_root,
    first_shape_root, firsts_by_class, firsts_by_letter, has_class, has_letter, is_chord_pattern,
    letter_buffer_items, letter_mask, letter_number, letters_distinct, parncutt_1988, read_from,
    read_part, root_of, root_support, root_weight,
};

mod types;
pub use types::{chord_type_intervals, ChordType};

mod known;
pub use known::{
    find_known, first_known, known_at, known_count, known_intervals, known_name, known_spelling, known_index, heights_code_upto, law_known_spelling, law_known_distinct,
    law_find_known_roundtrip, law_find_known_sound,
    spelled_as, KnownChord,
};

mod shape;
pub use shape::{
    any_repeated_step, consonant_shape, interval_with_number, ivl, lemma_first_with_number, repeated_step,
    shape_ok, from_intervals_check, ivl_le, ivls_sorted, ChordShape, ChordShapeFromIntervalsError,
};

mod pitch_chord;
pub use pitch_chord::{
    chord_tones, law_inversion_roundtrip, lemma_position_in, pitch_le, position_in, root_intervals_unsorted,
    stacked_octave, tones_fit, transposable,
    voiced_pitches, PitchChord,
};

mod voicing;
mod note_chord;
pub use note_chord::{
    arranged, closed_intervals, compact_octave, compacted, lemma_root_lowest, voiced_notes, closed_notes, closed_position_notes, closed_position_ok, closed_voicing,
    inversion_notes, inversion_ok, inverted_notes, lemma_arranged, lemma_arranged_unique, lemma_sorted_notes,
    lemma_sorted_unique, lifted_octave, make_pitch_chord_inner, note_chord_ok, pitch_chord_ok, pitches_of,
    shifted, sort_dedup, sorted_notes, NoteChord,
};
pub use voicing::{
    as_notes, closed_root_position_inner, closed_root_rest, closed_root_spec, closed_root_top,
    above_root, dedup_by_pitch, first_pitches, has_pitch, leftovers, lemma_closed_rest_sorted, lemma_closed_root_shape, letter_position, note_le,
    notes_sorted, notes_strictly_sorted, pitch_position, placed, separate_same_letter_by_octave,
    separated, separated_note, separated_octave, stack_thirds, stack_top, third_above, third_octave,
    with_letter, without_letter,
};
