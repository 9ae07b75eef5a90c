use music_theory::interval::{ParseIntervalQualityErr, Quality};

const FOUR: u16 = 4;
const SIX: u16 = 6;

#[test]
fn shorthand() {
    assert_eq!(Quality::Perfect.shorthand(), "P");
    assert_eq!(Quality::Minor.shorthand(), "m");
    assert_eq!(Quality::Major.shorthand(), "M");
    assert_eq!(Quality::AUGMENTED().shorthand(), "A");
    assert_eq!(Quality::DIMINISHED().shorthand(), "d");
    assert_eq!(Quality::Diminished(FOUR).shorthand(), "dddd");
    assert_eq!(Quality::Augmented(SIX).shorthand(), "AAAAAA");
}

#[test]
fn quality_from_str() {
    assert_eq!("P".parse(), Ok(Quality::Perfect));
    assert_eq!("M".parse(), Ok(Quality::Major));
    assert_eq!("m".parse(), Ok(Quality::Minor));
    assert_eq!("A".parse(), Ok(Quality::AUGMENTED()));
    assert_eq!("d".parse(), Ok(Quality::DIMINISHED()));
    assert_eq!("dddddd".parse(), Ok(Quality::Diminished(SIX)));
    assert_eq!("AAAA".parse(), Ok(Quality::Augmented(FOUR)));

    assert_eq!("".parse::<Quality>(), Err(ParseIntervalQualityErr));
    assert_eq!("c".parse::<Quality>(), Err(ParseIntervalQualityErr));
    assert_eq!("MM".parse::<Quality>(), Err(ParseIntervalQualityErr));
}

#[test]
fn quality_display() {
    assert_eq!(Quality::Major.to_string(), "M");
    assert_eq!(Quality::DIMINISHED().to_string(), "d");
}

#[test]
fn quality_inverted() {
    assert_eq!(Quality::Perfect.inverted(), Quality::Perfect);
    assert_eq!(Quality::Major.inverted(), Quality::Minor);
    assert_eq!(Quality::Minor.inverted(), Quality::Major);

    assert_eq!(Quality::DIMINISHED().inverted(), Quality::AUGMENTED());
    assert_eq!(Quality::AUGMENTED().inverted(), Quality::DIMINISHED());

    assert_eq!(Quality::Augmented(FOUR).inverted(), Quality::Diminished(FOUR));
    assert_eq!(Quality::Diminished(SIX).inverted(), Quality::Augmented(SIX));

    assert_eq!(Quality::Major.inverted().inverted(), Quality::Major);
    assert_eq!(Quality::Minor.inverted().inverted(), Quality::Minor);
    assert_eq!(Quality::Perfect.inverted().inverted(), Quality::Perfect);
    assert_eq!(Quality::DIMINISHED().inverted().inverted(), Quality::DIMINISHED());
    assert_eq!(Quality::AUGMENTED().inverted().inverted(), Quality::AUGMENTED());
}

#[test]
fn quality_kind_checks() {
    assert!(Quality::Augmented(3).is_augmented());
    assert!(!Quality::Major.is_augmented());
    assert!(Quality::DIMINISHED().is_diminished());
    assert!(!Quality::Perfect.is_diminished());
}
