use music_theory::enharmonic::{
    self, CmpEnharmonic, EnharmonicEq as _, EnharmonicOrd as _, WithoutSpelling as _,
};
use music_theory::interval::Interval;
use music_theory::note::Note;
use music_theory::pitch::{Pitch, PitchClass};
use music_theory::semitone::Semitones;
use std::cmp::Ordering;

#[test]
fn enharmonic_pitches() {
    assert!(EnharmonicEqCheck::eq(Pitch::C_SHARP(), Pitch::D_FLAT()));
    assert!(Pitch::C().lt_enharmonic(&Pitch::E()));
    assert!(Pitch::C().le_enharmonic(&Pitch::C_SHARP()));
    assert!(Pitch::C_SHARP().le_enharmonic(&Pitch::D_FLAT()));
    assert!(Pitch::E().gt_enharmonic(&Pitch::C()));
    assert!(Pitch::D().ge_enharmonic(&Pitch::C_SHARP()));
    assert!(Pitch::C_SHARP().ge_enharmonic(&Pitch::D_FLAT()));
    assert!(Pitch::C().ne_enharmonic(&Pitch::A()));
    assert_eq!(Pitch::D_FLAT().without_spelling(), PitchClass::Cs);
    assert_eq!(Pitch::C_SHARP().without_spelling(), Pitch::D_FLAT().without_spelling());
    assert_eq!(<Pitch as music_theory::enharmonic::EnharmonicOrd>::cmp_enharmonic(&Pitch::C_SHARP(), &Pitch::D_FLAT()), Ordering::Equal);
    assert_eq!(<Pitch as music_theory::enharmonic::EnharmonicOrd>::cmp_enharmonic(&Pitch::C(), &Pitch::D()), Ordering::Less);
}

struct EnharmonicEqCheck;

impl EnharmonicEqCheck {
    fn eq<T: music_theory::enharmonic::EnharmonicEq>(a: T, b: T) -> bool {
        a.eq_enharmonic(&b)
    }
}

#[test]
fn enharmonic_max_min() {
    assert_eq!(enharmonic::max(Pitch::C(), Pitch::E()), Pitch::E());
    assert_eq!(enharmonic::min(Pitch::C(), Pitch::E()), Pitch::C());
    assert_eq!(enharmonic::minmax(Pitch::E(), Pitch::C()), (Pitch::C(), Pitch::E()));
    assert_eq!(enharmonic::minmax(Pitch::C(), Pitch::E()), (Pitch::C(), Pitch::E()));
    assert_eq!(Pitch::C().max_enharmonic(Pitch::E()), Pitch::E());
    assert_eq!(Pitch::C().min_enharmonic(Pitch::E()), Pitch::C());
    // on a tie, max gives the second and min the first
    assert_eq!(enharmonic::max(Pitch::C_SHARP(), Pitch::D_FLAT()), Pitch::D_FLAT());
    assert_eq!(enharmonic::min(Pitch::C_SHARP(), Pitch::D_FLAT()), Pitch::C_SHARP());
    assert_eq!(enharmonic::minmax(Pitch::D_FLAT(), Pitch::C_SHARP()), (Pitch::D_FLAT(), Pitch::C_SHARP()));
}

#[test]
fn enharmonic_clamp() {
    assert_eq!(Pitch::C().clamp_enharmonic(Pitch::E(), Pitch::G()), Pitch::E());
    assert_eq!(Pitch::F().clamp_enharmonic(Pitch::E(), Pitch::G()), Pitch::F());
    assert_eq!(Pitch::B().clamp_enharmonic(Pitch::E(), Pitch::G()), Pitch::G());
}

#[test]
fn enharmonic_intervals_and_notes() {
    assert!(EnharmonicEqCheck::eq(Interval::AUGMENTED_FOURTH(), Interval::DIMINISHED_FIFTH()));
    assert!(EnharmonicEqCheck::eq(Interval::MAJOR_THIRD(), Interval::DIMINISHED_FOURTH()));
    assert_eq!(
        <Interval as music_theory::enharmonic::EnharmonicOrd>::cmp_enharmonic(&Interval::PERFECT_FIFTH(), &Interval::MAJOR_THIRD()),
        Ordering::Greater,
    );
    assert_eq!(Interval::MAJOR_THIRD().without_spelling(), Semitones(4));
    let b_sharp_3 = Note::new(Pitch::B_SHARP(), 3);
    let c4 = Note::new(Pitch::C(), 4);
    assert!(EnharmonicEqCheck::eq(b_sharp_3, c4));
    assert_eq!(enharmonic::max(b_sharp_3, c4), c4);
    assert!(EnharmonicEqCheck::eq(PitchClass::Cs, PitchClass::Cs));
}

#[test]
fn cmp_enharmonic_wrapper() {
    assert!(CmpEnharmonic(Pitch::C_SHARP()) == CmpEnharmonic(Pitch::D_FLAT()));
    assert!(CmpEnharmonic(Pitch::C_SHARP()) != CmpEnharmonic(Pitch::D()));
}
