use music_theory::chord::{find_root, parncutt_1988};
use music_theory::pitch::Pitch;

#[test]
fn root_of_empty_and_single() {
    assert_eq!(find_root(&[]), None);
    assert_eq!(find_root(&[Pitch::E()]), Some(Pitch::E()));
    assert_eq!(find_root(&[Pitch::E(), Pitch::E()]), Some(Pitch::E()));
}

#[test]
fn root_of_triads_in_any_order() {
    assert_eq!(find_root(&[Pitch::C(), Pitch::E(), Pitch::G()]), Some(Pitch::C()));
    assert_eq!(find_root(&[Pitch::E(), Pitch::G(), Pitch::C()]), Some(Pitch::C()));
    assert_eq!(find_root(&[Pitch::G(), Pitch::C(), Pitch::E()]), Some(Pitch::C()));
    assert_eq!(find_root(&[Pitch::F_SHARP(), Pitch::A(), Pitch::D()]), Some(Pitch::D()));
}

#[test]
fn root_of_sevenths_and_suspensions() {
    assert_eq!(find_root(&[Pitch::B(), Pitch::D(), Pitch::F(), Pitch::G()]), Some(Pitch::G()));
    assert_eq!(find_root(&[Pitch::G(), Pitch::C(), Pitch::F()]), Some(Pitch::C()));
    // G C D read from D: G is the first pitch that makes a shape (a suspended fourth)
    assert_eq!(find_root(&[Pitch::D(), Pitch::G(), Pitch::C()]), Some(Pitch::G()));
}

#[test]
fn root_by_support_when_no_shape_fits() {
    // C D E F#: no letter shape, so the root-support scores decide (D scores highest)
    let pitches = [Pitch::C(), Pitch::D(), Pitch::E(), Pitch::F_SHARP()];
    assert_eq!(find_root(&pitches), Some(Pitch::D()));
    assert_eq!(parncutt_1988(&pitches), Some(Pitch::D()));
    assert_eq!(parncutt_1988(&[]), None);
}

#[test]
fn root_support_ties_go_to_the_last() {
    // C and F#: each gives the other no support, so the scores tie and the last wins
    assert_eq!(parncutt_1988(&[Pitch::C(), Pitch::F_SHARP()]), Some(Pitch::F_SHARP()));
}

#[test]
fn root_of_one_pitch_class_is_first_pitch() {
    assert_eq!(find_root(&[Pitch::B_SHARP(), Pitch::C(), Pitch::D_DOUBLE_FLAT()]), Some(Pitch::B_SHARP()));
    assert_eq!(find_root(&[Pitch::E_FLAT(), Pitch::D_SHARP()]), Some(Pitch::E_FLAT()));
}
