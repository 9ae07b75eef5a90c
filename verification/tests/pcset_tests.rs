use music_theory::pcset::PitchClassSet;
use music_theory::pitch::PitchClass;

#[test]
fn pcset_new() {
    let cde = PitchClassSet::new(2688).expect("in range");

    assert_eq!(cde.debug_string(), "PitchClassSet(0b101010000000)");

    assert_eq!(cde, PitchClassSet::from_pitch_classes(&[PitchClass::C, PitchClass::D, PitchClass::E]));
}

#[test]
fn pitch_classes() {
    let pcs = [
        PitchClass::Cs,
        PitchClass::D,
        PitchClass::F,
        PitchClass::G,
        PitchClass::As,
    ];

    let set = PitchClassSet::from_pitch_classes(&pcs);

    assert_eq!(set.pitch_classes(), pcs);

    assert_eq!(pcs.len(), set.len() as usize);
}

#[test]
fn set_ops() {
    let set = PitchClassSet::new(0b000011001100).expect("only necessary bits set");

    assert_eq!(!set, PitchClassSet::new(0b111100110011).expect("only necessary bits set"));

    assert_eq!(!!set, set);

    let cmaj = [
        PitchClass::C,
        PitchClass::D,
        PitchClass::E,
        PitchClass::F,
        PitchClass::G,
        PitchClass::A,
        PitchClass::B,
    ];

    let cmaj_pentatonic = [
        PitchClass::C,
        PitchClass::D,
        PitchClass::E,
        PitchClass::F,
        PitchClass::G,
    ];

    let pcs_cmaj = PitchClassSet::from_pitch_classes(&cmaj);
    let pcs_cmaj_pentatonic = PitchClassSet::from_pitch_classes(&cmaj_pentatonic);

    assert!(pcs_cmaj.is_superset_of(pcs_cmaj_pentatonic));
    assert!(pcs_cmaj_pentatonic.is_subset_of(pcs_cmaj));
}

#[test]
fn pcset_new_rejects_high_bits() {
    assert_eq!(PitchClassSet::new(0x1000), None);
    assert_eq!(PitchClassSet::new(0xffff), None);
    assert_eq!(PitchClassSet::new(0xfff).map(|s| s.len()), Some(12));
    assert_eq!(PitchClassSet::new_masked(0xffff).get(), 0xfff);
}

#[test]
fn pcset_membership_updates() {
    let empty = PitchClassSet::default();
    assert!(empty.is_empty());
    assert_eq!(empty.len(), 0);
    let s = empty.with_set(PitchClass::G).with_set(PitchClass::C);
    assert!(s.is_set(PitchClass::G));
    assert!(s.is_set(PitchClass::C));
    assert!(!s.is_set(PitchClass::D));
    assert_eq!(s.len(), 2);
    assert_eq!(s.pitch_classes(), vec![PitchClass::C, PitchClass::G]);
    let t = s.with_cleared(PitchClass::G);
    assert_eq!(t.pitch_classes(), vec![PitchClass::C]);
    assert_eq!(t.with_cleared(PitchClass::B), t);
}

#[test]
fn pcset_binary_ops() {
    let a = PitchClassSet::from_pitch_classes(&[PitchClass::C, PitchClass::D, PitchClass::E]);
    let b = PitchClassSet::from_pitch_classes(&[PitchClass::E, PitchClass::F]);
    assert_eq!(a.union(b).pitch_classes(), vec![PitchClass::C, PitchClass::D, PitchClass::E, PitchClass::F]);
    assert_eq!(a.intersection(b).pitch_classes(), vec![PitchClass::E]);
    assert_eq!(a & b, a.intersection(b));
    assert_eq!(a.difference(b).pitch_classes(), vec![PitchClass::C, PitchClass::D]);
    assert_eq!(a.symmetric_difference(b).pitch_classes(), vec![PitchClass::C, PitchClass::D, PitchClass::F]);
    assert_eq!(a ^ b, a.symmetric_difference(b));
    assert!(!a.disjoint(b));
    assert!(a.difference(b).disjoint(b));
    assert_eq!(a.complement().len(), 9);
    assert_eq!(a.complement().complement(), a);
}
