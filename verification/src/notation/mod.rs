//! Staff notation: clefs, staff positions and stem directions.

mod stem_direction;
pub use stem_direction::{GetStemDirectionParams, StemDirection};

mod clef;
pub use clef::{
    law_position_of_note, law_single_note_stem, law_stem_all_one_side, law_stem_ends_only, law_stem_extremes_only, note_at_position, offsets_sum, pos_max, pos_min, position_of, stem_spec,
    PercussionClef, PitchClef, StaffPosition, TablatureClef,
};

mod marks;
pub use marks::{AccidentalDisplay, Dynamics};
