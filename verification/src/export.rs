//! The plain-value steps of writing a free-form container as a MusicXML score:
//! the divisions of a quarter note, the starting clef and key, and durations
//! counted in divisions.

use vstd::prelude::*;
use crate::containers::{ContainerElement, Freeform, Offset};
use crate::duration::{gcd, lemma_gcd_divides, Duration};
use crate::harmony::{key_fits, key_pitch, key_sharps, Key};
use crate::notation::{AccidentalDisplay, PitchClef};
use crate::pitch::{AccidentalSign, Pitch};

verus! {

/// Why a container cannot be written as a MusicXML score.
#[derive(Debug, Clone, PartialEq, Eq)]
pub enum FreeformToMxlError {
    /// No key signature at the start.
    NoKey,
    /// No clef at the start.
    NoClef,
    /// An accidental that the score format cannot write.
    UnrepresentableAccidental(AccidentalSign),
    /// A duration that is no whole number of divisions.
    IndivisibleDuration { divisions: u32, duration: Duration },
}

/// The duration an element lasts: that of a note or a rest, none otherwise.
pub open spec fn element_duration(e: ContainerElement) -> Option<Duration> {
    match e {
        ContainerElement::Note { duration, .. } => Some(duration),
        ContainerElement::Rest { duration, .. } => Some(duration),
        _ => None,
    }
}

/// The largest denominator among the offsets of `s` and the durations of its
/// elements (an element without a duration counts as zero, denominator 1), and 1
/// when `s` is empty.
pub open spec fn max_denom(s: Seq<(Offset, ContainerElement)>) -> int
    decreases s.len(),
{
    if s.len() == 0 {
        1
    } else {
        let rest = max_denom(s.drop_last());
        let a = s.last().0.denom_spec();
        let b = match element_duration(s.last().1) {
            Some(d) => d.denom_spec(),
            None => 1,
        };
        let m = if rest >= a { rest } else { a };
        if m >= b { m } else { b }
    }
}

/// The divisions of a quarter note that a score of `s` uses: a quarter of the
/// largest denominator, at least 1.
pub open spec fn divisions_spec(s: Seq<(Offset, ContainerElement)>) -> int {
    let q = max_denom(s) / 4;
    if q >= 1 { q } else { 1 }
}

/// The clef of the first clef element at offset zero in `s`.
pub open spec fn start_clef(s: Seq<(Offset, ContainerElement)>) -> Option<PitchClef>
    decreases s.len(),
{
    if s.len() == 0 {
        None
    } else if s[0].0.numer_spec() == 0 && s[0].1 is Clef {
        Some(s[0].1->Clef_0)
    } else {
        start_clef(s.drop_first())
    }
}

/// The key of the first key-signature element at offset zero in `s`.
pub open spec fn start_key(s: Seq<(Offset, ContainerElement)>) -> Option<Key>
    decreases s.len(),
{
    if s.len() == 0 {
        None
    } else if s[0].0.numer_spec() == 0 && s[0].1 is KeySignature {
        Some(s[0].1->KeySignature_0)
    } else {
        start_key(s.drop_first())
    }
}

/// The clef and key a score of `s` starts with: `NoClef` without a clef at offset
/// zero, else `NoKey` without a key signature there.
pub open spec fn start_spec(s: Seq<(Offset, ContainerElement)>) -> Result<(PitchClef, Key), FreeformToMxlError> {
    match start_clef(s) {
        None => Err(FreeformToMxlError::NoClef),
        Some(c) => match start_key(s) {
            None => Err(FreeformToMxlError::NoKey),
            Some(k) => Ok((c, k)),
        },
    }
}

/// The divisions of a quarter note for a score of `f`: a quarter of the largest
/// denominator among its offsets and durations, at least 1.
pub fn mxl_divisions(f: &Freeform) -> (r: u32)
    ensures
        r == divisions_spec(f.elements_spec()),
{
    let els = f.elements();
    let ghost s = els@;
    let mut m: u32 = 1;
    let mut i: usize = 0;
    while i < els.len()
        invariant
            s == els@,
            i <= s.len(),
            m == max_denom(s.take(i as int)),
        decreases s.len() - i,
    {
        proof { assert(s.take(i as int + 1).drop_last() =~= s.take(i as int)); }
        let a = els[i].0.denom();
        let b: u32 = match &els[i].1 {
            ContainerElement::Note { duration, .. } => duration.denom(),
            ContainerElement::Rest { duration, .. } => duration.denom(),
            _ => 1,
        };
        if a > m {
            m = a;
        }
        if b > m {
            m = b;
        }
        i = i + 1;
    }
    proof { assert(s.take(s.len() as int) =~= s); }
    let q = m / 4;
    if q >= 1 { q } else { 1 }
}

/// The clef and key that a score of `f` starts with: the first clef and the first
/// key signature at offset zero; `NoClef` when there is no such clef, else
/// `NoKey` when there is no such key signature.
pub fn mxl_start(f: &Freeform) -> (r: Result<(PitchClef, Key), FreeformToMxlError>)
    ensures
        r == start_spec(f.elements_spec()),
{
    let els = f.elements();
    let ghost s = els@;
    let mut clef: Option<PitchClef> = None;
    let mut key: Option<Key> = None;
    let mut i: usize = els.len();
    while i > 0
        invariant
            s == els@,
            i <= s.len(),
            clef == start_clef(s.skip(i as int)),
            key == start_key(s.skip(i as int)),
        decreases i,
    {
        i = i - 1;
        proof { assert(s.skip(i as int).drop_first() =~= s.skip(i as int + 1)); }
        let at_start = els[i].0.numer() == 0;
        match &els[i].1 {
            ContainerElement::Clef(c) => {
                if at_start {
                    clef = Some(*c);
                }
            },
            ContainerElement::KeySignature(k) => {
                if at_start {
                    key = Some(*k);
                }
            },
            _ => {},
        }
    }
    proof { assert(s.skip(0) =~= s); }
    match clef {
        None => Err(FreeformToMxlError::NoClef),
        Some(c) => match key {
            None => Err(FreeformToMxlError::NoKey),
            Some(k) => Ok((c, k)),
        },
    }
}

/// The duration `d` counted in divisions of a quarter note, `divisions` to the
/// quarter: `IndivisibleDuration` when it is no whole number of them. The
/// reduced product of `d` and four times `divisions` must have a numerator that
/// fits a `u32`.
pub fn mxl_duration(d: Duration, divisions: u32) -> (r: Result<u32, FreeformToMxlError>)
    requires
        d.numer_spec() * (4 * divisions) / (gcd(d.denom_spec() as nat, (4 * divisions) as nat) as int) <= u32::MAX,
    ensures
        r is Ok <==> (d.numer_spec() * (4 * divisions)) % d.denom_spec() == 0,
        r matches Ok(v) ==> v == d.numer_spec() * (4 * divisions) / d.denom_spec(),
        r matches Err(e) ==> e == (FreeformToMxlError::IndivisibleDuration { divisions, duration: d }),
{
    let n = d.numer() as u128;
    let den = d.denom() as u128;
    let m = 4 * (divisions as u128);
    assert(n * m <= 0xffff_ffffu128 * 0x4_0000_0000u128) by (nonlinear_arith)
        requires
            n <= 0xffff_ffffu128,
            m <= 0x4_0000_0000u128,
    ;
    let total = n * m;
    if total % den == 0 {
        proof {
            let g = gcd(den as nat, m as nat);
            lemma_gcd_divides(den as nat, m as nat);
            assert(g <= den) by {
                vstd::arithmetic::div_mod::lemma_mod_is_zero(den as nat, g);
            }
            vstd::arithmetic::div_mod::lemma_div_is_ordered_by_denominator(total as int, g as int, den as int);
        }
        Ok((total / den) as u32)
    } else {
        Err(FreeformToMxlError::IndivisibleDuration { divisions, duration: d })
    }
}

/// An accidental that a score can show.
#[derive(Copy, Clone, Debug, PartialEq, Eq, Structural)]
pub enum MxlAccidental {
    Natural,
    Sharp,
    DoubleSharp,
    Flat,
    FlatFlat,
}

/// A note or rest of a measure, with its length in divisions of a quarter note.
#[derive(Copy, Clone, Debug, PartialEq, Eq, Structural)]
pub enum MxlEvent {
    /// A note: its pitch, its octave held to `[0, 255]`, its length, and the
    /// accidental to show, if any.
    Note { pitch: Pitch, octave: u8, divisions: u32, accidental: Option<MxlAccidental> },
    /// A rest and its length.
    Rest { divisions: u32 },
}

/// A measure of a score: where it starts, the clef it sets (if any), the key it
/// is in and whether it shows that key, and its notes and rests.
#[derive(Clone, Debug, PartialEq, Eq)]
pub struct MxlMeasure {
    pub offset: Offset,
    pub clef: Option<PitchClef>,
    pub key: Key,
    pub show_key: bool,
    pub events: Vec<MxlEvent>,
}

/// A measure as plain values: offset, clef, key, whether the key shows, events.
pub type MeasureView = (Offset, Option<PitchClef>, Key, bool, Seq<MxlEvent>);

/// The plain values of a measure.
pub open spec fn measure_view(m: MxlMeasure) -> MeasureView {
    (m.offset, m.clef, m.key, m.show_key, m.events@)
}

/// The accidental a score shows for `a`, or `None` when it can show none.
pub open spec fn shown_accidental(a: AccidentalSign) -> Option<MxlAccidental> {
    if a.offset == 0 {
        Some(MxlAccidental::Natural)
    } else if a.offset == 1 {
        Some(MxlAccidental::Sharp)
    } else if a.offset == 2 {
        Some(MxlAccidental::DoubleSharp)
    } else if a.offset == -1 {
        Some(MxlAccidental::Flat)
    } else if a.offset == -2 {
        Some(MxlAccidental::FlatFlat)
    } else {
        None
    }
}

/// The octave held to `[0, 255]`.
pub open spec fn held_octave(o: int) -> u8 {
    (if o < 0 { 0 } else if o > 255 { 255 } else { o }) as u8
}

/// The length of `d` in divisions, `divisions` to the quarter, when it is a whole
/// number of them.
pub open spec fn divisions_of(d: Duration, divisions: u32) -> Option<u32> {
    let t = d.numer_spec() * (4 * divisions);
    if t % d.denom_spec() == 0 { Some((t / d.denom_spec()) as u32) } else { None }
}

/// The measures `ms` with `e` added to the last one.
pub open spec fn with_event(ms: Seq<MeasureView>, e: MxlEvent) -> Seq<MeasureView> {
    let m = ms.last();
    ms.update(ms.len() - 1, (m.0, m.1, m.2, m.3, m.4.push(e)))
}

/// The measures after the element `x`, from the measures `ms` so far: a note or
/// rest goes into the last measure (a note shows its accidental unless the key of
/// that measure gives the letter that accidental and the display is not
/// courtesy); a key or clef at a new offset starts a measure (a clef keeps the key
/// without showing it), and at the same offset changes the last one.
pub open spec fn measures_step(ms: Seq<MeasureView>, x: (Offset, ContainerElement), divisions: u32)
    -> Result<Seq<MeasureView>, FreeformToMxlError>
{
    let last = ms.last();
    match x.1 {
        ContainerElement::Note { note, duration, accidental } => match divisions_of(duration, divisions) {
            None => Err(FreeformToMxlError::IndivisibleDuration { divisions, duration }),
            Some(n) => {
                let a = note.pitch.accidental;
                if a == key_pitch(key_sharps(last.2), note.pitch.letter).accidental
                    && accidental != AccidentalDisplay::Courtesy {
                    Ok(with_event(ms, MxlEvent::Note { pitch: note.pitch, octave: held_octave(note.octave as int), divisions: n, accidental: None }))
                } else {
                    match shown_accidental(a) {
                        None => Err(FreeformToMxlError::UnrepresentableAccidental(a)),
                        Some(sa) => Ok(with_event(ms, MxlEvent::Note { pitch: note.pitch, octave: held_octave(note.octave as int), divisions: n, accidental: Some(sa) })),
                    }
                }
            },
        },
        ContainerElement::Rest { duration, .. } => match divisions_of(duration, divisions) {
            None => Err(FreeformToMxlError::IndivisibleDuration { divisions, duration }),
            Some(n) => Ok(with_event(ms, MxlEvent::Rest { divisions: n })),
        },
        ContainerElement::KeySignature(k) => if x.0 != last.0 {
            Ok(ms.push((x.0, None, k, true, Seq::empty())))
        } else {
            Ok(ms.update(ms.len() - 1, (last.0, last.1, k, true, last.4)))
        },
        ContainerElement::Clef(c) => if x.0 != last.0 {
            Ok(ms.push((x.0, Some(c), last.2, false, Seq::empty())))
        } else {
            Ok(ms.update(ms.len() - 1, (last.0, Some(c), last.2, last.3, last.4)))
        },
    }
}

/// The measures after the elements `s`, starting from the first measure `m0`; the
/// first error met, if any.
pub open spec fn measures_fold(s: Seq<(Offset, ContainerElement)>, m0: MeasureView, divisions: u32)
    -> Result<Seq<MeasureView>, FreeformToMxlError>
    decreases s.len(),
{
    if s.len() == 0 {
        Ok(seq![m0])
    } else {
        match measures_fold(s.drop_last(), m0, divisions) {
            Err(e) => Err(e),
            Ok(ms) => measures_step(ms, s.last(), divisions),
        }
    }
}

/// The measures of a score of `s`: the start error when there is no clef or key
/// at offset zero; else a first measure at offset zero with that clef and key
/// shown, and each element placed in turn.
pub open spec fn measures_spec(s: Seq<(Offset, ContainerElement)>) -> Result<Seq<MeasureView>, FreeformToMxlError> {
    match start_spec(s) {
        Err(e) => Err(e),
        Ok((c, k)) => measures_fold(s, (Duration::zero(), Some(c), k, true, Seq::empty()), divisions_spec(s) as u32),
    }
}

/// Whether the measures of `s` can be worked out: every key signature has
/// accidentals that fit an `i16`, and each note and rest length counted in
/// divisions does not overflow a `u32` (see [`mxl_duration`]).
pub open spec fn measures_ok(s: Seq<(Offset, ContainerElement)>) -> bool {
    let dv = divisions_spec(s);
    forall|i: int| 0 <= i < s.len() ==> {
        &&& (#[trigger] s[i]).1 matches ContainerElement::KeySignature(k) ==> key_fits(key_sharps(k))
        &&& element_duration(s[i].1) matches Some(d) ==>
            d.numer_spec() * (4 * dv) / (gcd(d.denom_spec() as nat, (4 * dv) as nat) as int) <= u32::MAX
    }
}

/// Once the elements so far give an error, all of them give it.
proof fn lemma_fold_err(s: Seq<(Offset, ContainerElement)>, k: int, m0: MeasureView, divisions: u32)
    requires
        0 <= k <= s.len(),
        measures_fold(s.take(k), m0, divisions) is Err,
    ensures
        measures_fold(s, m0, divisions) == measures_fold(s.take(k), m0, divisions),
    decreases s.len() - k,
{
    if k < s.len() {
        assert(s.take(k + 1).drop_last() =~= s.take(k));
        lemma_fold_err(s, k + 1, m0, divisions);
    } else {
        assert(s.take(k) =~= s);
    }
}

/// The key a score starts with is the key of one of its elements.
proof fn lemma_start_key_in(s: Seq<(Offset, ContainerElement)>)
    ensures
        start_key(s) matches Some(k) ==> exists|i: int| 0 <= i < s.len()
            && (#[trigger] s[i]).1 == ContainerElement::KeySignature(k),
    decreases s.len(),
{
    if s.len() > 0 && !(s[0].0.numer_spec() == 0 && s[0].1 is KeySignature) {
        lemma_start_key_in(s.drop_first());
        if let Some(k) = start_key(s) {
            let i = choose|i: int| 0 <= i < s.drop_first().len() && (#[trigger] s.drop_first()[i]).1 == ContainerElement::KeySignature(k);
            assert(s[i + 1] == s.drop_first()[i]);
        }
    }
}

/// The alteration, in semitones, that a shown accidental stands for.
pub open spec fn accidental_semitones(m: MxlAccidental) -> int {
    match m {
        MxlAccidental::Natural => 0,
        MxlAccidental::Sharp => 1,
        MxlAccidental::DoubleSharp => 2,
        MxlAccidental::Flat => -1,
        MxlAccidental::FlatFlat => -2,
    }
}

/// A score shows an accidental exactly for alterations of at most two semitones
/// either way, and the accidental it shows stands for the alteration itself.
pub proof fn law_shown_accidental(a: AccidentalSign)
    ensures
        shown_accidental(a) is Some <==> -2 <= a.offset <= 2,
        shown_accidental(a) matches Some(m) ==> accidental_semitones(m) == a.offset,
{
}

/// Whether every note of the measures `ms` that shows an accidental shows the
/// alteration of its own pitch.
pub open spec fn notes_show_own_accidental(ms: Seq<MeasureView>) -> bool {
    forall|i: int, j: int| 0 <= i < ms.len() && 0 <= j < ms[i].4.len() ==>
        ((#[trigger] ms[i].4[j]) matches MxlEvent::Note { pitch, accidental: Some(m), .. }
            ==> accidental_semitones(m) == pitch.accidental.offset)
}

/// Placing one more element keeps every shown accidental that of its note.
proof fn lemma_step_shows_own(ms: Seq<MeasureView>, x: (Offset, ContainerElement), divisions: u32)
    requires
        ms.len() > 0,
        notes_show_own_accidental(ms),
    ensures
        measures_step(ms, x, divisions) matches Ok(ms2) ==> ms2.len() > 0 && notes_show_own_accidental(ms2),
{
    if let Ok(ms2) = measures_step(ms, x, divisions) {
        let last = ms.last();
        match x.1 {
            ContainerElement::KeySignature(k) => {
                assert forall|i: int, j: int| 0 <= i < ms2.len() && 0 <= j < ms2[i].4.len() implies
                    ((#[trigger] ms2[i].4[j]) matches MxlEvent::Note { pitch, accidental: Some(m), .. }
                        ==> accidental_semitones(m) == pitch.accidental.offset) by {
                    if i < ms.len() {
                        assert(ms2[i].4 == ms[i].4);
                        assert(ms2[i].4[j] == ms[i].4[j]);
                    }
                }
            },
            ContainerElement::Clef(c) => {
                assert forall|i: int, j: int| 0 <= i < ms2.len() && 0 <= j < ms2[i].4.len() implies
                    ((#[trigger] ms2[i].4[j]) matches MxlEvent::Note { pitch, accidental: Some(m), .. }
                        ==> accidental_semitones(m) == pitch.accidental.offset) by {
                    if i < ms.len() {
                        assert(ms2[i].4 == ms[i].4);
                        assert(ms2[i].4[j] == ms[i].4[j]);
                    }
                }
            },
            _ => {
                let e = ms2.last().4.last();
                assert(e matches MxlEvent::Note { pitch, accidental: Some(m), .. }
                    ==> accidental_semitones(m) == pitch.accidental.offset) by {
                    if let ContainerElement::Note { note, duration, accidental } = x.1 {
                        law_shown_accidental(note.pitch.accidental);
                    }
                }
                assert forall|i: int, j: int| 0 <= i < ms2.len() && 0 <= j < ms2[i].4.len() implies
                    ((#[trigger] ms2[i].4[j]) matches MxlEvent::Note { pitch, accidental: Some(m), .. }
                        ==> accidental_semitones(m) == pitch.accidental.offset) by {
                    if i < ms.len() - 1 {
                        assert(ms2[i] == ms[i]);
                    } else if j < last.4.len() {
                        assert(ms2[i].4[j] == last.4[j]);
                    } else {
                        assert(ms2[i].4[j] == e);
                    }
                }
            },
        }
    }
}

/// Placing elements in turn keeps every shown accidental that of its note.
proof fn lemma_fold_shows_own(s: Seq<(Offset, ContainerElement)>, m0: MeasureView, divisions: u32)
    requires
        m0.4.len() == 0,
    ensures
        measures_fold(s, m0, divisions) matches Ok(ms) ==> ms.len() > 0 && notes_show_own_accidental(ms),
    decreases s.len(),
{
    if s.len() == 0 {
        assert(seq![m0][0] == m0);
    } else {
        lemma_fold_shows_own(s.drop_last(), m0, divisions);
        if let Ok(ms) = measures_fold(s.drop_last(), m0, divisions) {
            lemma_step_shows_own(ms, s.last(), divisions);
        }
    }
}

/// In the measures of a score, every note that shows an accidental shows the
/// alteration of its own pitch: natural, sharp, double sharp, flat or double flat
/// for 0, 1, 2, -1 or -2 semitones.
pub proof fn law_measures_show_own_accidental(s: Seq<(Offset, ContainerElement)>)
    ensures
        measures_spec(s) matches Ok(ms) ==> notes_show_own_accidental(ms),
{
    if let Ok((c, k)) = start_spec(s) {
        lemma_fold_shows_own(s, (Duration::zero(), Some(c), k, true, Seq::empty()), divisions_spec(s) as u32);
    }
}

/// The accidental a score shows for `a`.
fn shown_accidental_exec(a: AccidentalSign) -> (r: Option<MxlAccidental>)
    ensures
        r == shown_accidental(a),
{
    if a.offset == 0 {
        Some(MxlAccidental::Natural)
    } else if a.offset == 1 {
        Some(MxlAccidental::Sharp)
    } else if a.offset == 2 {
        Some(MxlAccidental::DoubleSharp)
    } else if a.offset == -1 {
        Some(MxlAccidental::Flat)
    } else if a.offset == -2 {
        Some(MxlAccidental::FlatFlat)
    } else {
        None
    }
}

/// The plain values of the measures `ms`.
pub open spec fn measure_views(ms: Seq<MxlMeasure>) -> Seq<MeasureView> {
    ms.map_values(|m: MxlMeasure| measure_view(m))
}

/// The measures of a score of `f`: a first measure at offset zero with the
/// starting clef and key (see [`mxl_start`]) shown; then, element by element, a
/// note or rest goes into the last measure with its length in divisions (see
/// [`mxl_divisions`] and [`mxl_duration`]), a note showing its accidental unless
/// the key of that measure gives its letter that accidental and its display is not
/// courtesy; a key signature or clef at a new offset starts a measure (a clef
/// keeps the key without showing it) and at the same offset changes the last one.
/// The first error met is returned, including `UnrepresentableAccidental` for an
/// accidental beyond a double sharp or double flat that must be shown.
pub fn freeform_measures(f: &Freeform) -> (r: Result<Vec<MxlMeasure>, FreeformToMxlError>)
    requires
        measures_ok(f.elements_spec()),
    ensures
        r matches Ok(v) ==> measures_spec(f.elements_spec()) == Ok::<Seq<MeasureView>, FreeformToMxlError>(measure_views(v@)),
        r matches Err(e) ==> measures_spec(f.elements_spec()) == Err::<Seq<MeasureView>, FreeformToMxlError>(e),
{
    let ghost s = f.elements_spec();
    let divisions = mxl_divisions(f);
    let (clef, key) = match mxl_start(f) {
        Ok(x) => x,
        Err(e) => return Err(e),
    };
    proof { lemma_start_key_in(s); }
    let els = f.elements();
    let first = MxlMeasure { offset: Duration::ZERO(), clef: Some(clef), key, show_key: true, events: Vec::new() };
    let ghost m0: MeasureView = (Duration::zero(), Some(clef), key, true, Seq::empty());
    let mut ms: Vec<MxlMeasure> = Vec::new();
    ms.push(first);
    proof {
        assert(measure_views(ms@) =~= seq![m0]);
        assert(s.take(0) =~= Seq::<(Offset, ContainerElement)>::empty());
    }
    let mut i: usize = 0;
    while i < els.len()
        invariant
            s == els@,
            s == f.elements_spec(),
            measures_ok(s),
            divisions == divisions_spec(s),
            start_spec(s) == Ok::<(PitchClef, Key), FreeformToMxlError>((clef, key)),
            m0 == (Duration::zero(), Some(clef), key, true, Seq::<MxlEvent>::empty()),
            i <= s.len(),
            ms@.len() > 0,
            forall|j: int| 0 <= j < ms@.len() ==> key_fits(key_sharps(#[trigger] ms@[j].key)),
            measures_fold(s.take(i as int), m0, divisions) == Ok::<Seq<MeasureView>, FreeformToMxlError>(measure_views(ms@)),
        decreases s.len() - i,
    {
        proof { assert(s.take(i as int + 1).drop_last() =~= s.take(i as int)); }
        let ghost before = ms@;
        let ghost vb = measure_views(before);
        let off = els[i].0;
        let n_ms = ms.len();
        match &els[i].1 {
            ContainerElement::Note { note, duration, accidental } => {
                let n = match mxl_duration(*duration, divisions) {
                    Ok(n) => n,
                    Err(e) => {
                        proof { lemma_fold_err(s, i as int + 1, m0, divisions); }
                        return Err(e);
                    },
                };
                let mut m = ms.pop().unwrap();
                let key_acc = m.key.accidental_of(note.pitch.letter);
                let shown = if note.pitch.accidental == key_acc && *accidental != AccidentalDisplay::Courtesy {
                    None
                } else {
                    match shown_accidental_exec(note.pitch.accidental) {
                        Some(x) => Some(x),
                        None => {
                            proof { lemma_fold_err(s, i as int + 1, m0, divisions); }
                            return Err(FreeformToMxlError::UnrepresentableAccidental(note.pitch.accidental));
                        },
                    }
                };
                let octave: u8 = if note.octave < 0 { 0 } else if note.octave > 255 { 255 } else { note.octave as u8 };
                m.events.push(MxlEvent::Note { pitch: note.pitch, octave, divisions: n, accidental: shown });
                ms.push(m);
                proof {
                    assert(measure_views(ms@) =~= with_event(vb, MxlEvent::Note { pitch: note.pitch, octave, divisions: n, accidental: shown }));
                }
            },
            ContainerElement::Rest { duration, .. } => {
                let n = match mxl_duration(*duration, divisions) {
                    Ok(n) => n,
                    Err(e) => {
                        proof { lemma_fold_err(s, i as int + 1, m0, divisions); }
                        return Err(e);
                    },
                };
                let mut m = ms.pop().unwrap();
                m.events.push(MxlEvent::Rest { divisions: n });
                ms.push(m);
                proof {
                    assert(measure_views(ms@) =~= with_event(vb, MxlEvent::Rest { divisions: n }));
                }
            },
            ContainerElement::KeySignature(k) => {
                let last_off = ms[n_ms - 1].offset;
                proof { Duration::lemma_eq(off, last_off); }
                if off.numer() != last_off.numer() || off.denom() != last_off.denom() {
                    ms.push(MxlMeasure { offset: off, clef: None, key: *k, show_key: true, events: Vec::new() });
                    proof { assert(measure_views(ms@) =~= vb.push((off, None, *k, true, Seq::empty()))); }
                } else {
                    let mut m = ms.pop().unwrap();
                    m.key = *k;
                    m.show_key = true;
                    ms.push(m);
                    proof {
                        let l = vb.last();
                        assert(measure_views(ms@) =~= vb.update(vb.len() - 1, (l.0, l.1, *k, true, l.4)));
                    }
                }
            },
            ContainerElement::Clef(c) => {
                let last_off = ms[n_ms - 1].offset;
                let last_key = ms[n_ms - 1].key;
                proof { Duration::lemma_eq(off, last_off); }
                if off.numer() != last_off.numer() || off.denom() != last_off.denom() {
                    ms.push(MxlMeasure { offset: off, clef: Some(*c), key: last_key, show_key: false, events: Vec::new() });
                    proof { assert(measure_views(ms@) =~= vb.push((off, Some(*c), last_key, false, Seq::empty()))); }
                } else {
                    let mut m = ms.pop().unwrap();
                    m.clef = Some(*c);
                    ms.push(m);
                    proof {
                        let l = vb.last();
                        assert(measure_views(ms@) =~= vb.update(vb.len() - 1, (l.0, Some(*c), l.2, l.3, l.4)));
                    }
                }
            },
        }
        i = i + 1;
    }
    proof { assert(s.take(s.len() as int) =~= s); }
    Ok(ms)
}

} // verus!
