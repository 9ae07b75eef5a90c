use music_theory::duration::{Tempo, WrittenDuration};
use num_rational::Ratio;
use music_theory::harmony::Key;
use music_theory::interval::IntervalSize as S;
use music_theory::notation::{AccidentalDisplay, Dynamics};
use music_theory::pitch::{AccidentalSign, Letter, Pitch};

#[test]
fn interval_sizes() {
    assert_eq!(S::Tenth.as_simple(), S::Third);
    assert_eq!(S::Fifteenth.as_simple(), S::Octave);
    assert_eq!(S::Fifth.as_simple(), S::Fifth);
    assert_eq!(S::Thirteenth.shorthand(), 13);
    assert!(S::Eleventh.is_perfect());
    assert!(S::Octave.is_perfect());
    assert!(!S::Sixth.is_perfect());
    assert_eq!(S::Second.inverted(), S::Seventh);
    assert_eq!(S::Ninth.inverted(), S::Fourteenth);
    assert_eq!(S::Fifteenth.inverted(), S::Fifteenth);
    assert_eq!(S::Unison.inverted(), S::Unison);
    for s in [S::Unison, S::Third, S::Octave, S::Tenth, S::Twelfth, S::Fifteenth] {
        assert_eq!(s.inverted().inverted(), s);
    }
}

#[test]
fn dynamics_order() {
    assert!(Dynamics::PPP < Dynamics::PP);
    assert!(Dynamics::MP < Dynamics::MF);
    assert!(Dynamics::FF < Dynamics::FFF);
    assert_eq!(Dynamics::PPP.as_u8(), 0);
    assert_eq!(Dynamics::FFF.as_u8(), 7);
    assert_eq!(AccidentalDisplay::default(), AccidentalDisplay::Normal);
}

#[test]
fn tempos() {
    assert_eq!(Tempo::new(0), None);
    assert_eq!(Tempo::new(120), Some(Tempo::ALLEGRO()));
    assert_eq!(Tempo::PRESTO().get(), 180);
    assert!(Tempo::LARGO() < Tempo::ADAGIO());
}

#[test]
fn written_durations() {
    assert_eq!(WrittenDuration::QUARTER().duration().ratio(), Ratio::new(1, 4));
    assert_eq!(WrittenDuration::QUARTER().with_dots(1).duration().ratio(), Ratio::new(3, 8));
    assert_eq!(WrittenDuration::HALF().with_dots(2).duration().ratio(), Ratio::new(7, 8));
    assert_eq!(WrittenDuration::WHOLE().with_dots(1).duration().ratio(), Ratio::new(3, 2));
    assert_eq!(WrittenDuration::OCTUPLE_WHOLE().with_dots(2).duration().ratio(), Ratio::from_integer(14));
    assert_eq!(WrittenDuration::from_log_len(3).duration(), WrittenDuration::OCTUPLE_WHOLE().duration());
    assert_eq!(WrittenDuration::TWO_HUNDRED_FIFTY_SIXTH().duration().ratio(), Ratio::new(1, 256));
}

#[test]
fn written_durations_at_the_limits() {
    assert_eq!(WrittenDuration::from_log_len(31).duration().ratio(), Ratio::from_integer(1u32 << 31));
    assert_eq!(WrittenDuration::from_log_len(31).with_dots(1).duration().ratio(), Ratio::from_integer(3u32 << 30));
    assert_eq!(WrittenDuration::from_log_len(-31).duration().ratio(), Ratio::new(1, 1u32 << 31));
    assert_eq!(WrittenDuration::from_log_len(-1).with_dots(30).duration().ratio(), Ratio::new((1u32 << 31) - 1, 1u32 << 31));
    assert_eq!(WrittenDuration::from_log_len(2).with_dots(30).duration().ratio(), Ratio::new((1u32 << 31) - 1, 1u32 << 28));
}

#[test]
fn letter_in_key() {
    let d_major = Key::major(Pitch::D());
    assert_eq!(Letter::F.to_pitch_in_key(d_major), Pitch::F_SHARP());
    assert_eq!(Letter::G.to_pitch_in_key(d_major), Pitch::G());
    let e_flat_major = Key::major(Pitch::E_FLAT());
    assert_eq!(Letter::A.to_pitch_in_key(e_flat_major), Pitch::A_FLAT());
}

#[test]
fn accidental_symbols() {
    assert_eq!(AccidentalSign { offset: 0 }.to_string(), "\u{266e}");
    assert_eq!(AccidentalSign { offset: 1 }.to_string(), "\u{266f}");
    assert_eq!(AccidentalSign { offset: -1 }.to_string(), "\u{266d}");
    assert_eq!(AccidentalSign { offset: 2 }.to_string(), "\u{1d12a}");
    assert_eq!(AccidentalSign { offset: -3 }.to_string(), "\u{266d}\u{1d12b}");
    assert_eq!(AccidentalSign { offset: 5 }.to_string(), "\u{266f}\u{1d12a}\u{1d12a}");
}
