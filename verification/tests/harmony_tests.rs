use music_theory::harmony::{DiatonicMode, Key, ScaleDegree};
use music_theory::interval::Interval;
use music_theory::pitch::{AccidentalSign, Letter, Pitch, Spelling};
use music_theory::harmony::ScaleDegree as Deg;

#[test]
fn relative_parallel() {
    let modes = (1..8).map(|n| DiatonicMode::from_repr(n).expect("in range"));

    for sharps in -10..=10 {
        for mode in modes.clone() {
            let key = Key::from_sharps(sharps, mode);

            for mode in modes.clone() {
                let relative = key.relative(mode);

                assert_eq!(
                    relative.mode, mode,
                    "mode should match requested relative",
                );

                assert_eq!(
                    relative.sharps(), key.sharps(),
                    "relative mode should have same amount of sharps/flats",
                );

                let parallel = key.parallel(mode);

                assert_eq!(
                    parallel.mode, mode,
                    "mode should match requested parallel",
                );

                assert_eq!(
                    parallel.tonic, key.tonic,
                    "parallel key should have same tonic",
                );
            }
        }
    }
}

#[test]
fn basic_properties() {

    assert_eq!(Deg::IV, Deg::IV, "scale degree eq failed");
    assert!(Deg::II < Deg::V, "scale degree lt failed");
    assert!(Deg::VI > Deg::I, "scale degree gt failed");

    assert_eq!(Deg::from_num(5), Some(Deg::V), "scale degree from_num in range failed");
    assert_eq!(Deg::from_num(0), None, "scale degree from_num invalid failed");
    assert_eq!(Deg::from_num(8), None, "scale degree from_num invalid failed");

    assert_eq!(Deg::default(), Deg::I, "scale degree default failed");

    for d in 1..=7 {
        let from_num = Deg::from_num(d).expect("valid degree");

        assert_eq!(from_num.as_num(), d, "scale degree round trip to u8 failed");
    }
}

#[test]
fn key_signatures() {
    assert_eq!(Key::from_sharps(2, DiatonicMode::MAJOR()).tonic, Pitch::D());
    assert_eq!(Key::major(Pitch::G()).sharps(), 1);
    assert_eq!(Key::major(Pitch::F()).sharps(), -1);
    assert_eq!(Key::major(Pitch::C()).sharps(), 0);
    assert_eq!(Key::new(Pitch::F(), DiatonicMode::Phrygian).sharps(), -5);
    assert_eq!(Key::minor(Pitch::F()).sharps(), -4);
    assert_eq!(Key::from_sharps(-3, DiatonicMode::NATURAL_MINOR()), Key::minor(Pitch::C()));
    assert_eq!(Key::from_sharps(1, DiatonicMode::Dorian), Key::new(Pitch::A(), DiatonicMode::Dorian));
    assert_eq!(Key::major(Pitch::G()).spelling(), Some(Spelling::Sharps));
    assert_eq!(Key::major(Pitch::F()).spelling(), Some(Spelling::Flats));
    assert_eq!(Key::minor(Pitch::A()).spelling(), None);
}

#[test]
fn key_relations() {
    assert_eq!(Key::major(Pitch::C()).relative(DiatonicMode::NATURAL_MINOR()), Key::minor(Pitch::A()));
    assert_eq!(Key::major(Pitch::D()).relative(DiatonicMode::Lydian), Key::new(Pitch::G(), DiatonicMode::Lydian));
    assert_eq!(Key::minor(Pitch::F()).relative(DiatonicMode::MAJOR()), Key::major(Pitch::A_FLAT()));
    assert_eq!(Key::major(Pitch::E()).parallel(DiatonicMode::NATURAL_MINOR()), Key::minor(Pitch::E()));
    assert_eq!(Key::try_from_sharps_tonic(2, Pitch::D()), Some(Key::major(Pitch::D())));
    assert_eq!(Key::try_from_sharps_tonic(-3, Pitch::B_FLAT()), Some(Key::new(Pitch::B_FLAT(), DiatonicMode::Mixolydian)));
    assert_eq!(Key::try_from_sharps_tonic(2, Pitch::C()), None);
    assert_eq!(Key::from_pitch_degree(ScaleDegree::III, Pitch::E(), DiatonicMode::MAJOR()), Key::major(Pitch::C()));
    assert_eq!(Key::from_pitch_degree(ScaleDegree::V, Pitch::B(), DiatonicMode::NATURAL_MINOR()), Key::minor(Pitch::E()));
    assert_eq!(Key::major(Pitch::C()).transpose(Interval::MAJOR_SECOND()), Key::major(Pitch::D()));
    assert_eq!(Key::major(Pitch::G()).transpose(-Interval::PERFECT_FIFTH()), Key::major(Pitch::C()));
}

#[test]
fn key_pitches() {
    let g_major = Key::major(Pitch::G());
    assert_eq!(g_major.alterations(), [Pitch::F_SHARP()]);
    assert_eq!(Key::major(Pitch::D()).alterations(), [Pitch::F_SHARP(), Pitch::C_SHARP()]);
    assert_eq!(Key::major(Pitch::F()).alterations(), [Pitch::B_FLAT()]);
    assert_eq!(Key::major(Pitch::E_FLAT()).alterations(), [Pitch::B_FLAT(), Pitch::E_FLAT(), Pitch::A_FLAT()]);
    assert_eq!(Key::major(Pitch::C()).alterations(), []);
    assert_eq!(g_major.accidental_of(Letter::F), AccidentalSign::SHARP());
    assert_eq!(g_major.accidental_of(Letter::C), AccidentalSign::NATURAL());
    assert_eq!(g_major.relative_pitch(ScaleDegree::I), Pitch::G());
    assert_eq!(g_major.relative_pitch(ScaleDegree::III), Pitch::B());
    assert_eq!(g_major.relative_pitch(ScaleDegree::VII), Pitch::F_SHARP());
    assert_eq!(Key::minor(Pitch::F()).relative_pitch(ScaleDegree::VI), Pitch::D_FLAT());
    let scale = g_major.scale();
    assert_eq!(scale[0], Pitch::G());
    assert_eq!(scale[1], Pitch::A());
    assert_eq!(scale[6], Pitch::F_SHARP());
    let chord_scales = Key::major(Pitch::C()).chord_scales();
    assert_eq!(chord_scales[0], Key::major(Pitch::C()));
    assert_eq!(chord_scales[1], Key::new(Pitch::D(), DiatonicMode::Dorian));
    assert_eq!(chord_scales[6], Key::new(Pitch::B(), DiatonicMode::Locrian));
    assert_eq!(Pitch::C().respell_in_key(Key::major(Pitch::C_SHARP())), Pitch::B_SHARP());
    assert_eq!(DiatonicMode::default(), DiatonicMode::Ionian);
}
