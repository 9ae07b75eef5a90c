use music_theory::containers::{ContainerElement, Freeform};
use music_theory::duration::{Duration, WrittenDuration};
use music_theory::export::{freeform_measures, mxl_divisions, mxl_duration, mxl_start, FreeformToMxlError, MxlAccidental, MxlEvent};
use music_theory::harmony::Key;
use music_theory::notation::{AccidentalDisplay, PitchClef};
use music_theory::{AccidentalSign, Letter, Note, Pitch};

fn quarter() -> Duration {
    WrittenDuration::QUARTER().duration()
}

fn sixteenth() -> Duration {
    WrittenDuration::SIXTEENTH().duration()
}

fn note_at(offset: Duration, duration: Duration) -> (Duration, ContainerElement) {
    (
        offset,
        ContainerElement::Note {
            note: Note::new(Pitch::C(), 4),
            duration,
            accidental: AccidentalDisplay::Normal,
        },
    )
}

#[test]
fn divisions_of_empty_and_quarters() {
    assert_eq!(mxl_divisions(&Freeform::default()), 1);
    let f = Freeform::from_elements(vec![note_at(Duration::ZERO(), quarter()), note_at(quarter(), quarter())]);
    assert_eq!(mxl_divisions(&f), 1);
}

#[test]
fn divisions_follow_the_finest_duration() {
    let f = Freeform::from_elements(vec![note_at(Duration::ZERO(), sixteenth()), note_at(sixteenth(), quarter())]);
    assert_eq!(mxl_divisions(&f), 4);
}

#[test]
fn start_needs_clef_then_key() {
    let empty = Freeform::default();
    assert_eq!(mxl_start(&empty), Err(FreeformToMxlError::NoClef));
    let clef_only = Freeform::from_elements(vec![(Duration::ZERO(), ContainerElement::Clef(PitchClef::TREBLE()))]);
    assert_eq!(mxl_start(&clef_only), Err(FreeformToMxlError::NoKey));
    let late_key = Freeform::from_elements(vec![
        (Duration::ZERO(), ContainerElement::Clef(PitchClef::TREBLE())),
        (quarter(), ContainerElement::KeySignature(Key::major(Pitch::G()))),
    ]);
    assert_eq!(mxl_start(&late_key), Err(FreeformToMxlError::NoKey));
    let both = Freeform::from_elements(vec![
        (Duration::ZERO(), ContainerElement::KeySignature(Key::major(Pitch::D()))),
        (Duration::ZERO(), ContainerElement::Clef(PitchClef::BASS())),
        (Duration::ZERO(), ContainerElement::Clef(PitchClef::TREBLE())),
    ]);
    assert_eq!(mxl_start(&both), Ok((PitchClef::BASS(), Key::major(Pitch::D()))));
}

#[test]
fn durations_in_divisions() {
    assert_eq!(mxl_duration(quarter(), 1), Ok(1));
    assert_eq!(mxl_duration(WrittenDuration::WHOLE().duration(), 2), Ok(8));
    assert_eq!(mxl_duration(WrittenDuration::EIGHTH().with_dots(1).duration(), 4), Ok(3));
    assert_eq!(
        mxl_duration(sixteenth(), 1),
        Err(FreeformToMxlError::IndivisibleDuration { divisions: 1, duration: sixteenth() })
    );
}

fn spelled(letter: Letter, offset: i16) -> Pitch {
    Pitch { letter, accidental: AccidentalSign { offset } }
}

fn shown(pitch: Pitch, display: AccidentalDisplay, at: Duration) -> (Duration, ContainerElement) {
    (at, ContainerElement::Note { note: Note::new(pitch, 4), duration: quarter(), accidental: display })
}

#[test]
fn measures_show_accidentals_against_the_key() {
    let f = Freeform::from_elements(vec![
        (Duration::ZERO(), ContainerElement::Clef(PitchClef::TREBLE())),
        (Duration::ZERO(), ContainerElement::KeySignature(Key::major(Pitch::G()))),
        shown(spelled(Letter::F, 1), AccidentalDisplay::Normal, Duration::ZERO()),
        shown(spelled(Letter::F, 0), AccidentalDisplay::Normal, quarter()),
        shown(spelled(Letter::C, 0), AccidentalDisplay::Courtesy, quarter()),
        shown(spelled(Letter::C, 2), AccidentalDisplay::Normal, quarter()),
        (quarter(), ContainerElement::Rest { duration: quarter(), implicit: false }),
    ]);
    let ms = freeform_measures(&f).expect("representable");
    assert_eq!(ms.len(), 1);
    assert_eq!(ms[0].clef, Some(PitchClef::TREBLE()));
    assert_eq!(ms[0].key, Key::major(Pitch::G()));
    assert!(ms[0].show_key);
    let accs: Vec<Option<MxlAccidental>> = ms[0].events.iter().filter_map(|e| match e {
        MxlEvent::Note { accidental, .. } => Some(*accidental),
        MxlEvent::Rest { .. } => None,
    }).collect();
    assert_eq!(accs, vec![None, Some(MxlAccidental::Natural), Some(MxlAccidental::Natural), Some(MxlAccidental::DoubleSharp)]);
    assert_eq!(ms[0].events[4], MxlEvent::Rest { divisions: 1 });
    assert_eq!(ms[0].events[0], MxlEvent::Note { pitch: spelled(Letter::F, 1), octave: 4, divisions: 1, accidental: None });
}

#[test]
fn measures_start_at_key_and_clef_changes() {
    let half = WrittenDuration::HALF().duration();
    let f = Freeform::from_elements(vec![
        (Duration::ZERO(), ContainerElement::KeySignature(Key::major(Pitch::C()))),
        (Duration::ZERO(), ContainerElement::Clef(PitchClef::TREBLE())),
        (quarter(), ContainerElement::Clef(PitchClef::BASS())),
        (half, ContainerElement::KeySignature(Key::major(Pitch::D()))),
        (half, ContainerElement::Clef(PitchClef::ALTO())),
    ]);
    let ms = freeform_measures(&f).expect("valid");
    assert_eq!(ms.len(), 3);
    assert_eq!(ms[1].offset, quarter());
    assert_eq!(ms[1].clef, Some(PitchClef::BASS()));
    assert_eq!(ms[1].key, Key::major(Pitch::C()));
    assert!(!ms[1].show_key);
    assert_eq!(ms[2].offset, half);
    assert_eq!(ms[2].key, Key::major(Pitch::D()));
    assert!(ms[2].show_key);
    assert_eq!(ms[2].clef, Some(PitchClef::ALTO()));
}

#[test]
fn measures_refuse_what_a_score_cannot_show() {
    let f = Freeform::from_elements(vec![
        (Duration::ZERO(), ContainerElement::Clef(PitchClef::TREBLE())),
        (Duration::ZERO(), ContainerElement::KeySignature(Key::major(Pitch::C()))),
        shown(spelled(Letter::C, 3), AccidentalDisplay::Normal, Duration::ZERO()),
    ]);
    assert_eq!(freeform_measures(&f), Err(FreeformToMxlError::UnrepresentableAccidental(AccidentalSign { offset: 3 })));
    let g = Freeform::from_elements(vec![
        (Duration::ZERO(), ContainerElement::Clef(PitchClef::TREBLE())),
        (Duration::ZERO(), ContainerElement::KeySignature(Key::major(Pitch::C()))),
        (Duration::ZERO(), ContainerElement::Rest { duration: WrittenDuration::SIXTEENTH().duration(), implicit: false }),
        (Duration::ZERO(), ContainerElement::Clef(PitchClef::BASS())),
    ]);
    assert_eq!(freeform_measures(&g).map(|ms| ms.len()), Ok(1));
    assert_eq!(freeform_measures(&Freeform::default()), Err(FreeformToMxlError::NoClef));
}
