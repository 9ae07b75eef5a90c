use music_theory::interval::Number;
use std::ops::Neg;
use music_theory::interval::Number as N;

#[test]
fn nonzero_number() {
    assert!(Number::new(5).is_some());
    assert!(Number::new(-8).is_some());
    assert!(Number::new(0).is_none());
}

#[test]
fn number_shorthand() {
    assert_eq!(Number::FIFTH().get(), 5);
    assert_eq!(Number::FIFTH().shorthand(), 5);
}

#[test]
fn simple_as_simple() {
    assert_eq!(Number::SIXTH().as_simple(), Number::SIXTH());

    assert_eq!((-Number::SEVENTH()).as_simple(), -Number::SEVENTH());
}

#[test]
fn octave_as_simple() {
    assert_eq!(Number::OCTAVE().as_simple(), Number::OCTAVE());

    assert_eq!((-Number::OCTAVE()).as_simple(), -Number::OCTAVE());

    assert_eq!(Number::FIFTEENTH().as_simple(), Number::OCTAVE());

    assert_eq!((-Number::FIFTEENTH()).as_simple(), -Number::OCTAVE());

    let fifty_seventh = Number::new(57).expect("nonzero");

    assert_eq!(fifty_seventh.as_simple(), Number::OCTAVE());
    assert_eq!((-fifty_seventh).as_simple(), -Number::OCTAVE());
}

#[test]
fn negative_as_simple() {
    assert_eq!(-Number::THIRTEENTH().as_simple(), -Number::SIXTH());
    assert_eq!((-Number::THIRTEENTH()).as_simple(), -Number::SIXTH());
}

#[test]
fn general_as_simple() {

    assert_eq!(
        [N::NINTH(), N::TENTH(), N::ELEVENTH(), N::TWELFTH(), N::THIRTEENTH(), N::FOURTEENTH(), N::FIFTEENTH()].map(N::as_simple),
        [N::SECOND(), N::THIRD(), N::FOURTH(), N::FIFTH(), N::SIXTH(), N::SEVENTH(), N::OCTAVE()]
    );

    assert_eq!(
        [N::NINTH(), N::TENTH(), N::ELEVENTH(), N::TWELFTH(), N::THIRTEENTH(), N::FOURTEENTH(), N::FIFTEENTH()].map(Neg::neg).map(N::as_simple),
        [N::SECOND(), N::THIRD(), N::FOURTH(), N::FIFTH(), N::SIXTH(), N::SEVENTH(), N::OCTAVE()].map(Neg::neg)
    );

    for oct in 0..=15 {
        for base in 2..=8 {
            assert_eq!(N::new(7 * oct + base).expect("nonzero").as_simple(), N::new(base).expect("nonzero"), "{oct}, {base}, {}", 7 * oct + base);
            assert_eq!((-N::new(7 * oct + base).expect("nonzero")).as_simple(), N::new(-base).expect("nonzero"), "{oct}, {base}, {}", 7 * oct + base);
        }
    }
}

#[test]
fn is_perfect() {
    assert!(Number::UNISON().is_perfect());
    assert!(!Number::SECOND().is_perfect());
    assert!(!Number::THIRD().is_perfect());
    assert!(Number::FOURTH().is_perfect());
    assert!(Number::FIFTH().is_perfect());
    assert!(!Number::SIXTH().is_perfect());
    assert!(!Number::SEVENTH().is_perfect());
    assert!(Number::OCTAVE().is_perfect());

    assert!((-Number::FOURTH()).is_perfect());
    assert!(!(-Number::SEVENTH()).is_perfect());

    assert!(Number::new(7 * 17 + 4).expect("nonzero").is_perfect());
    assert!(!Number::new(7 * 17 + 3).expect("nonzero").is_perfect());
    assert!(Number::new(7 * 13 + 5).expect("nonzero").neg().is_perfect());
    assert!(!Number::new(7 * 13 + 7).expect("nonzero").neg().is_perfect());
}

#[test]
fn is_ascending() {
    assert!(Number::TWELFTH().is_ascending());
    assert!(!(-Number::NINTH()).is_ascending());
}

#[test]
fn with_direction() {
    assert_eq!(Number::THIRTEENTH().with_direction(true), Number::THIRTEENTH());
    assert_eq!(Number::SEVENTH().with_direction(false), -Number::SEVENTH());

    assert_eq!((-Number::SECOND()).with_direction(false), -Number::SECOND());
    assert_eq!((-Number::OCTAVE()).with_direction(true), Number::OCTAVE());
}

#[test]
fn octave() {
    assert_eq!(Number::UNISON().octave_unsigned(), 0);
    assert_eq!(Number::SECOND().octave_unsigned(), 0);
    assert_eq!(Number::SEVENTH().octave_unsigned(), 0);
    assert_eq!(Number::OCTAVE().octave_unsigned(), 1);
    assert_eq!(Number::NINTH().octave_unsigned(), 1);
    assert_eq!(Number::FOURTEENTH().octave_unsigned(), 1);
    assert_eq!(Number::FIFTEENTH().octave_unsigned(), 2);

    assert_eq!(Number::FOURTEENTH().octave_signed(), 1);

    assert_eq!((-Number::OCTAVE()).octave_unsigned(), 1);
    assert_eq!((-Number::FIFTEENTH()).octave_signed(), -2);
}

#[test]
fn number_inverted() {
    assert_eq!(Number::UNISON().inverted(), Number::UNISON());
    assert_eq!(Number::SECOND().inverted(), Number::SEVENTH());
    assert_eq!(Number::THIRD().inverted(), Number::SIXTH());
    assert_eq!(Number::FOURTH().inverted(), Number::FIFTH());
    assert_eq!(Number::FIFTH().inverted(), Number::FOURTH());
    assert_eq!(Number::SIXTH().inverted(), Number::THIRD());
    assert_eq!(Number::SEVENTH().inverted(), Number::SECOND());
    assert_eq!(Number::OCTAVE().inverted(), Number::OCTAVE());

    assert_eq!(Number::FOURTEENTH().inverted(), Number::NINTH());
    assert_eq!((-Number::TWELFTH()).inverted(), -Number::ELEVENTH());

    assert_eq!((-Number::OCTAVE()).inverted(), -Number::OCTAVE());
    assert_eq!(Number::FIFTEENTH().inverted(), Number::FIFTEENTH());
    assert_eq!((-Number::FIFTEENTH()).inverted(), -Number::FIFTEENTH());

    assert_eq!(Number::THIRD().inverted().inverted(), Number::THIRD());
    assert_eq!(Number::FOURTH().inverted().inverted(), Number::FOURTH());
    assert_eq!(Number::NINTH().inverted().inverted(), Number::NINTH());
    assert_eq!(Number::FOURTEENTH().inverted().inverted(), Number::FOURTEENTH());
}

#[test]
fn number_neg() {
    assert_eq!((-Number::FIFTEENTH()).get(), -15);
    assert_eq!(-(-Number::NINTH()), Number::NINTH());
}

#[test]
fn number_display() {
    assert_eq!((-Number::ELEVENTH()).to_string(), "-11");
}

#[test]
fn number_parse_and_base_semitones() {
    assert_eq!("-9".parse::<Number>(), Ok(-Number::NINTH()));
    assert!("0".parse::<Number>().is_err());
    assert!("x".parse::<Number>().is_err());
    assert_eq!(Number::TENTH().base_semitones_with_octave_unsigned(), 16);
    assert_eq!((-Number::TWELFTH()).base_semitones_with_octave_unsigned(), 19);
}
