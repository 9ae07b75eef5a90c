//! Intervals: a quality together with a diatonic number.

use vstd::prelude::*;
use crate::interval::{
    base_semitones, inverted_number, inverted_quality, is_perfect_number, lemma_inverted_bounds,
    lemma_inverted_number_involutive, lemma_number_ext, lemma_number_mk, lemma_simple, octaves,
    quality_shorthand, sgn, simple_abs, steps, Number, Quality,
};
use crate::semitone::Semitones;

verus! {

/// Whether a quality and a number form an interval: perfect qualities go with
/// unisons, fourths, fifths and octaves, major and minor with the other numbers,
/// and augmented or diminished with any number.
pub open spec fn valid_interval(q: Quality, n: int) -> bool {
    &&& n != 0
    &&& i16::MIN < n <= i16::MAX
    &&& q.wf()
    &&& match q {
        Quality::Perfect => is_perfect_number(n),
        Quality::Major => !is_perfect_number(n),
        Quality::Minor => !is_perfect_number(n),
        _ => true,
    }
}

/// Semitones the quality adds to the major or perfect interval of number `n`.
pub open spec fn quality_adjust(q: Quality, n: int) -> int {
    match q {
        Quality::Perfect => 0,
        Quality::Major => 0,
        Quality::Minor => -1,
        Quality::Diminished(k) => if is_perfect_number(n) { -(k as int) } else { -(k as int) - 1 },
        Quality::Augmented(k) => k as int,
    }
}

/// Signed semitones spanned by the interval with quality `q` and number `n`.
pub open spec fn semitones_of(q: Quality, n: int) -> int {
    sgn(n) * (base_semitones(n) + quality_adjust(q, n))
}

/// Steps along the line of fifths of the major or perfect simple interval of number `n`.
pub open spec fn simple_fifths(n: int) -> int {
    let s = simple_abs(n);
    if s == 1 || s == 8 {
        0
    } else if s == 2 {
        2
    } else if s == 3 {
        4
    } else if s == 4 {
        -1
    } else if s == 5 {
        1
    } else if s == 6 {
        3
    } else {
        5
    }
}

/// Signed steps along the line of fifths that the interval moves a pitch.
pub open spec fn fifths_of(q: Quality, n: int) -> int {
    sgn(n) * (simple_fifths(n) + 7 * quality_adjust(q, n))
}

/// The quality that adds `d` semitones to a major (or perfect, when `perfect`) interval.
pub open spec fn quality_with_adjust(d: int, perfect: bool) -> Quality {
    if d == 0 {
        if perfect { Quality::Perfect } else { Quality::Major }
    } else if d > 0 {
        Quality::Augmented(d as u16)
    } else if perfect {
        Quality::Diminished((-d) as u16)
    } else if d == -1 {
        Quality::Minor
    } else {
        Quality::Diminished((-d - 1) as u16)
    }
}

/// Whether the quality adding `d` semitones has a count that fits a `u16`.
pub open spec fn adjust_fits(d: int, perfect: bool) -> bool {
    if d > 0 {
        d <= u16::MAX
    } else if perfect {
        -d <= u16::MAX
    } else {
        -d - 1 <= u16::MAX
    }
}

/// The interval number of the sum of intervals with numbers `ln` and `rn`:
/// letter steps add up, and a sum of zero steps is an ascending unison when the
/// numbers cancel.
pub open spec fn added_number(ln: int, rn: int) -> int {
    if ln + rn == 0 {
        1
    } else {
        steps(ln) + steps(rn) + sgn(ln + rn)
    }
}

/// The harmonic stability of an interval.
#[derive(Copy, Clone, Eq, PartialEq, Debug, Hash, Structural)]
pub enum Stability {
    PerfectConsonance,
    ImperfectConsonance,
    Dissonance,
}

impl Stability {
    /// Whether the stability is a (perfect or imperfect) consonance.
    pub open spec fn is_consonant_spec(self) -> bool {
        self is PerfectConsonance || self is ImperfectConsonance
    }

    /// Whether the stability is a (perfect or imperfect) consonance.
    pub fn is_consonant(self) -> (r: bool)
        ensures
            r == self.is_consonant_spec(),
    {
        match self {
            Stability::PerfectConsonance => true,
            Stability::ImperfectConsonance => true,
            Stability::Dissonance => false,
        }
    }
}

/// The stability of an interval: augmented and diminished intervals are dissonant;
/// otherwise unisons, fifths and octaves are perfect consonances, thirds and sixths
/// imperfect consonances, seconds and sevenths dissonances, and fourths have none.
pub open spec fn stability_of(q: Quality, n: int) -> Option<Stability> {
    if q is Diminished || q is Augmented {
        Some(Stability::Dissonance)
    } else {
        let s = simple_abs(n);
        if s == 1 || s == 5 || s == 8 {
            Some(Stability::PerfectConsonance)
        } else if s == 3 || s == 6 {
            Some(Stability::ImperfectConsonance)
        } else if s == 2 || s == 7 {
            Some(Stability::Dissonance)
        } else {
            None
        }
    }
}

/// A musical interval: a quality (major, minor, perfect, augmented, diminished)
/// and a number (unison, second, ...). Negative numbers are descending intervals.
#[derive(Copy, Clone, Eq, PartialEq, Debug, Hash, Structural)]
pub struct Interval {
    quality: Quality,
    number: Number,
}

/// Error returned when a string does not describe an interval.
#[derive(Copy, Clone, Eq, PartialEq, Debug, Structural)]
pub enum ParseIntervalError {
    InvalidFormat,
    InvalidInterval,
    QualityErr(crate::interval::ParseIntervalQualityErr),
    NumberErr(crate::interval::ParseNumberError),
}

impl Interval {
    /// An interval's quality always goes with its number.
    #[verifier::type_invariant]
    pub open spec fn inv(self) -> bool {
        valid_interval(self.qual(), self.num())
    }

    /// The quality of the interval.
    pub closed spec fn qual(self) -> Quality {
        self.quality
    }

    /// The value of the interval's number.
    pub closed spec fn num(self) -> int {
        self.number.value()
    }

    /// The interval with quality `q` and number `n`.
    pub closed spec fn mk(q: Quality, n: int) -> Interval {
        Interval { quality: q, number: Number::mk(n) }
    }

    /// Signed semitones spanned by the interval.
    pub open spec fn semis(self) -> int {
        semitones_of(self.qual(), self.num())
    }

    /// Signed steps along the line of fifths that the interval moves a pitch.
    pub open spec fn fifths(self) -> int {
        fifths_of(self.qual(), self.num())
    }

    /// Whether the semitone count fits an `i16`.
    pub open spec fn semis_fit(self) -> bool {
        i16::MIN <= self.semis() <= i16::MAX
    }

    /// Whether the interval spans semitones against its own direction.
    pub open spec fn subzero(self) -> bool {
        self.semis() != 0 && sgn(self.semis()) != sgn(self.num())
    }

    /// The perfect unison.
    #[allow(non_snake_case)]
    pub fn PERFECT_UNISON() -> (r: Interval)
        ensures
            r.qual() == Quality::Perfect,
            r.num() == 1,
            r == Interval::mk(Quality::Perfect, 1),
    {
        proof { lemma_number_mk(1); }
        Interval { quality: Quality::Perfect, number: Number::UNISON() }
    }

    /// The diminished second.
    #[allow(non_snake_case)]
    pub fn DIMINISHED_SECOND() -> (r: Interval)
        ensures
            r.qual() == Quality::Diminished(1),
            r.num() == 2,
            r == Interval::mk(Quality::Diminished(1), 2),
    {
        proof { lemma_number_mk(2); }
        Interval { quality: Quality::Diminished(1), number: Number::SECOND() }
    }

    /// The minor second.
    #[allow(non_snake_case)]
    pub fn MINOR_SECOND() -> (r: Interval)
        ensures
            r.qual() == Quality::Minor,
            r.num() == 2,
            r == Interval::mk(Quality::Minor, 2),
    {
        proof { lemma_number_mk(2); }
        Interval { quality: Quality::Minor, number: Number::SECOND() }
    }

    /// The augmented unison.
    #[allow(non_snake_case)]
    pub fn AUGMENTED_UNISON() -> (r: Interval)
        ensures
            r.qual() == Quality::Augmented(1),
            r.num() == 1,
            r == Interval::mk(Quality::Augmented(1), 1),
    {
        proof { lemma_number_mk(1); }
        Interval { quality: Quality::Augmented(1), number: Number::UNISON() }
    }

    /// The major second.
    #[allow(non_snake_case)]
    pub fn MAJOR_SECOND() -> (r: Interval)
        ensures
            r.qual() == Quality::Major,
            r.num() == 2,
            r == Interval::mk(Quality::Major, 2),
    {
        proof { lemma_number_mk(2); }
        Interval { quality: Quality::Major, number: Number::SECOND() }
    }

    /// The diminished third.
    #[allow(non_snake_case)]
    pub fn DIMINISHED_THIRD() -> (r: Interval)
        ensures
            r.qual() == Quality::Diminished(1),
            r.num() == 3,
            r == Interval::mk(Quality::Diminished(1), 3),
    {
        proof { lemma_number_mk(3); }
        Interval { quality: Quality::Diminished(1), number: Number::THIRD() }
    }

    /// The minor third.
    #[allow(non_snake_case)]
    pub fn MINOR_THIRD() -> (r: Interval)
        ensures
            r.qual() == Quality::Minor,
            r.num() == 3,
            r == Interval::mk(Quality::Minor, 3),
    {
        proof { lemma_number_mk(3); }
        Interval { quality: Quality::Minor, number: Number::THIRD() }
    }

    /// The augmented second.
    #[allow(non_snake_case)]
    pub fn AUGMENTED_SECOND() -> (r: Interval)
        ensures
            r.qual() == Quality::Augmented(1),
            r.num() == 2,
            r == Interval::mk(Quality::Augmented(1), 2),
    {
        proof { lemma_number_mk(2); }
        Interval { quality: Quality::Augmented(1), number: Number::SECOND() }
    }

    /// The major third.
    #[allow(non_snake_case)]
    pub fn MAJOR_THIRD() -> (r: Interval)
        ensures
            r.qual() == Quality::Major,
            r.num() == 3,
            r == Interval::mk(Quality::Major, 3),
    {
        proof { lemma_number_mk(3); }
        Interval { quality: Quality::Major, number: Number::THIRD() }
    }

    /// The diminished fourth.
    #[allow(non_snake_case)]
    pub fn DIMINISHED_FOURTH() -> (r: Interval)
        ensures
            r.qual() == Quality::Diminished(1),
            r.num() == 4,
            r == Interval::mk(Quality::Diminished(1), 4),
    {
        proof { lemma_number_mk(4); }
        Interval { quality: Quality::Diminished(1), number: Number::FOURTH() }
    }

    /// The perfect fourth.
    #[allow(non_snake_case)]
    pub fn PERFECT_FOURTH() -> (r: Interval)
        ensures
            r.qual() == Quality::Perfect,
            r.num() == 4,
            r == Interval::mk(Quality::Perfect, 4),
    {
        proof { lemma_number_mk(4); }
        Interval { quality: Quality::Perfect, number: Number::FOURTH() }
    }

    /// The augmented third.
    #[allow(non_snake_case)]
    pub fn AUGMENTED_THIRD() -> (r: Interval)
        ensures
            r.qual() == Quality::Augmented(1),
            r.num() == 3,
            r == Interval::mk(Quality::Augmented(1), 3),
    {
        proof { lemma_number_mk(3); }
        Interval { quality: Quality::Augmented(1), number: Number::THIRD() }
    }

    /// The diminished fifth.
    #[allow(non_snake_case)]
    pub fn DIMINISHED_FIFTH() -> (r: Interval)
        ensures
            r.qual() == Quality::Diminished(1),
            r.num() == 5,
            r == Interval::mk(Quality::Diminished(1), 5),
    {
        proof { lemma_number_mk(5); }
        Interval { quality: Quality::Diminished(1), number: Number::FIFTH() }
    }

    /// The augmented fourth.
    #[allow(non_snake_case)]
    pub fn AUGMENTED_FOURTH() -> (r: Interval)
        ensures
            r.qual() == Quality::Augmented(1),
            r.num() == 4,
            r == Interval::mk(Quality::Augmented(1), 4),
    {
        proof { lemma_number_mk(4); }
        Interval { quality: Quality::Augmented(1), number: Number::FOURTH() }
    }

    /// The perfect fifth.
    #[allow(non_snake_case)]
    pub fn PERFECT_FIFTH() -> (r: Interval)
        ensures
            r.qual() == Quality::Perfect,
            r.num() == 5,
            r == Interval::mk(Quality::Perfect, 5),
    {
        proof { lemma_number_mk(5); }
        Interval { quality: Quality::Perfect, number: Number::FIFTH() }
    }

    /// The diminished sixth.
    #[allow(non_snake_case)]
    pub fn DIMINISHED_SIXTH() -> (r: Interval)
        ensures
            r.qual() == Quality::Diminished(1),
            r.num() == 6,
            r == Interval::mk(Quality::Diminished(1), 6),
    {
        proof { lemma_number_mk(6); }
        Interval { quality: Quality::Diminished(1), number: Number::SIXTH() }
    }

    /// The minor sixth.
    #[allow(non_snake_case)]
    pub fn MINOR_SIXTH() -> (r: Interval)
        ensures
            r.qual() == Quality::Minor,
            r.num() == 6,
            r == Interval::mk(Quality::Minor, 6),
    {
        proof { lemma_number_mk(6); }
        Interval { quality: Quality::Minor, number: Number::SIXTH() }
    }

    /// The augmented fifth.
    #[allow(non_snake_case)]
    pub fn AUGMENTED_FIFTH() -> (r: Interval)
        ensures
            r.qual() == Quality::Augmented(1),
            r.num() == 5,
            r == Interval::mk(Quality::Augmented(1), 5),
    {
        proof { lemma_number_mk(5); }
        Interval { quality: Quality::Augmented(1), number: Number::FIFTH() }
    }

    /// The major sixth.
    #[allow(non_snake_case)]
    pub fn MAJOR_SIXTH() -> (r: Interval)
        ensures
            r.qual() == Quality::Major,
            r.num() == 6,
            r == Interval::mk(Quality::Major, 6),
    {
        proof { lemma_number_mk(6); }
        Interval { quality: Quality::Major, number: Number::SIXTH() }
    }

    /// The diminished seventh.
    #[allow(non_snake_case)]
    pub fn DIMINISHED_SEVENTH() -> (r: Interval)
        ensures
            r.qual() == Quality::Diminished(1),
            r.num() == 7,
            r == Interval::mk(Quality::Diminished(1), 7),
    {
        proof { lemma_number_mk(7); }
        Interval { quality: Quality::Diminished(1), number: Number::SEVENTH() }
    }

    /// The minor seventh.
    #[allow(non_snake_case)]
    pub fn MINOR_SEVENTH() -> (r: Interval)
        ensures
            r.qual() == Quality::Minor,
            r.num() == 7,
            r == Interval::mk(Quality::Minor, 7),
    {
        proof { lemma_number_mk(7); }
        Interval { quality: Quality::Minor, number: Number::SEVENTH() }
    }

    /// The augmented sixth.
    #[allow(non_snake_case)]
    pub fn AUGMENTED_SIXTH() -> (r: Interval)
        ensures
            r.qual() == Quality::Augmented(1),
            r.num() == 6,
            r == Interval::mk(Quality::Augmented(1), 6),
    {
        proof { lemma_number_mk(6); }
        Interval { quality: Quality::Augmented(1), number: Number::SIXTH() }
    }

    /// The major seventh.
    #[allow(non_snake_case)]
    pub fn MAJOR_SEVENTH() -> (r: Interval)
        ensures
            r.qual() == Quality::Major,
            r.num() == 7,
            r == Interval::mk(Quality::Major, 7),
    {
        proof { lemma_number_mk(7); }
        Interval { quality: Quality::Major, number: Number::SEVENTH() }
    }

    /// The diminished octave.
    #[allow(non_snake_case)]
    pub fn DIMINISHED_OCTAVE() -> (r: Interval)
        ensures
            r.qual() == Quality::Diminished(1),
            r.num() == 8,
            r == Interval::mk(Quality::Diminished(1), 8),
    {
        proof { lemma_number_mk(8); }
        Interval { quality: Quality::Diminished(1), number: Number::OCTAVE() }
    }

    /// The perfect octave.
    #[allow(non_snake_case)]
    pub fn PERFECT_OCTAVE() -> (r: Interval)
        ensures
            r.qual() == Quality::Perfect,
            r.num() == 8,
            r == Interval::mk(Quality::Perfect, 8),
    {
        proof { lemma_number_mk(8); }
        Interval { quality: Quality::Perfect, number: Number::OCTAVE() }
    }

    /// The augmented seventh.
    #[allow(non_snake_case)]
    pub fn AUGMENTED_SEVENTH() -> (r: Interval)
        ensures
            r.qual() == Quality::Augmented(1),
            r.num() == 7,
            r == Interval::mk(Quality::Augmented(1), 7),
    {
        proof { lemma_number_mk(7); }
        Interval { quality: Quality::Augmented(1), number: Number::SEVENTH() }
    }

    /// The diminished ninth.
    #[allow(non_snake_case)]
    pub fn DIMINISHED_NINTH() -> (r: Interval)
        ensures
            r.qual() == Quality::Diminished(1),
            r.num() == 9,
            r == Interval::mk(Quality::Diminished(1), 9),
    {
        proof { lemma_number_mk(9); }
        Interval { quality: Quality::Diminished(1), number: Number::NINTH() }
    }

    /// The minor ninth.
    #[allow(non_snake_case)]
    pub fn MINOR_NINTH() -> (r: Interval)
        ensures
            r.qual() == Quality::Minor,
            r.num() == 9,
            r == Interval::mk(Quality::Minor, 9),
    {
        proof { lemma_number_mk(9); }
        Interval { quality: Quality::Minor, number: Number::NINTH() }
    }

    /// The augmented octave.
    #[allow(non_snake_case)]
    pub fn AUGMENTED_OCTAVE() -> (r: Interval)
        ensures
            r.qual() == Quality::Augmented(1),
            r.num() == 8,
            r == Interval::mk(Quality::Augmented(1), 8),
    {
        proof { lemma_number_mk(8); }
        Interval { quality: Quality::Augmented(1), number: Number::OCTAVE() }
    }

    /// The major ninth.
    #[allow(non_snake_case)]
    pub fn MAJOR_NINTH() -> (r: Interval)
        ensures
            r.qual() == Quality::Major,
            r.num() == 9,
            r == Interval::mk(Quality::Major, 9),
    {
        proof { lemma_number_mk(9); }
        Interval { quality: Quality::Major, number: Number::NINTH() }
    }

    /// The diminished tenth.
    #[allow(non_snake_case)]
    pub fn DIMINISHED_TENTH() -> (r: Interval)
        ensures
            r.qual() == Quality::Diminished(1),
            r.num() == 10,
            r == Interval::mk(Quality::Diminished(1), 10),
    {
        proof { lemma_number_mk(10); }
        Interval { quality: Quality::Diminished(1), number: Number::TENTH() }
    }

    /// The minor tenth.
    #[allow(non_snake_case)]
    pub fn MINOR_TENTH() -> (r: Interval)
        ensures
            r.qual() == Quality::Minor,
            r.num() == 10,
            r == Interval::mk(Quality::Minor, 10),
    {
        proof { lemma_number_mk(10); }
        Interval { quality: Quality::Minor, number: Number::TENTH() }
    }

    /// The augmented ninth.
    #[allow(non_snake_case)]
    pub fn AUGMENTED_NINTH() -> (r: Interval)
        ensures
            r.qual() == Quality::Augmented(1),
            r.num() == 9,
            r == Interval::mk(Quality::Augmented(1), 9),
    {
        proof { lemma_number_mk(9); }
        Interval { quality: Quality::Augmented(1), number: Number::NINTH() }
    }

    /// The major tenth.
    #[allow(non_snake_case)]
    pub fn MAJOR_TENTH() -> (r: Interval)
        ensures
            r.qual() == Quality::Major,
            r.num() == 10,
            r == Interval::mk(Quality::Major, 10),
    {
        proof { lemma_number_mk(10); }
        Interval { quality: Quality::Major, number: Number::TENTH() }
    }

    /// The diminished eleventh.
    #[allow(non_snake_case)]
    pub fn DIMINISHED_ELEVENTH() -> (r: Interval)
        ensures
            r.qual() == Quality::Diminished(1),
            r.num() == 11,
            r == Interval::mk(Quality::Diminished(1), 11),
    {
        proof { lemma_number_mk(11); }
        Interval { quality: Quality::Diminished(1), number: Number::ELEVENTH() }
    }

    /// The perfect eleventh.
    #[allow(non_snake_case)]
    pub fn PERFECT_ELEVENTH() -> (r: Interval)
        ensures
            r.qual() == Quality::Perfect,
            r.num() == 11,
            r == Interval::mk(Quality::Perfect, 11),
    {
        proof { lemma_number_mk(11); }
        Interval { quality: Quality::Perfect, number: Number::ELEVENTH() }
    }

    /// The augmented tenth.
    #[allow(non_snake_case)]
    pub fn AUGMENTED_TENTH() -> (r: Interval)
        ensures
            r.qual() == Quality::Augmented(1),
            r.num() == 10,
            r == Interval::mk(Quality::Augmented(1), 10),
    {
        proof { lemma_number_mk(10); }
        Interval { quality: Quality::Augmented(1), number: Number::TENTH() }
    }

    /// The diminished twelfth.
    #[allow(non_snake_case)]
    pub fn DIMINISHED_TWELFTH() -> (r: Interval)
        ensures
            r.qual() == Quality::Diminished(1),
            r.num() == 12,
            r == Interval::mk(Quality::Diminished(1), 12),
    {
        proof { lemma_number_mk(12); }
        Interval { quality: Quality::Diminished(1), number: Number::TWELFTH() }
    }

    /// The augmented eleventh.
    #[allow(non_snake_case)]
    pub fn AUGMENTED_ELEVENTH() -> (r: Interval)
        ensures
            r.qual() == Quality::Augmented(1),
            r.num() == 11,
            r == Interval::mk(Quality::Augmented(1), 11),
    {
        proof { lemma_number_mk(11); }
        Interval { quality: Quality::Augmented(1), number: Number::ELEVENTH() }
    }

    /// The perfect twelfth.
    #[allow(non_snake_case)]
    pub fn PERFECT_TWELFTH() -> (r: Interval)
        ensures
            r.qual() == Quality::Perfect,
            r.num() == 12,
            r == Interval::mk(Quality::Perfect, 12),
    {
        proof { lemma_number_mk(12); }
        Interval { quality: Quality::Perfect, number: Number::TWELFTH() }
    }

    /// The diminished thirteenth.
    #[allow(non_snake_case)]
    pub fn DIMINISHED_THIRTEENTH() -> (r: Interval)
        ensures
            r.qual() == Quality::Diminished(1),
            r.num() == 13,
            r == Interval::mk(Quality::Diminished(1), 13),
    {
        proof { lemma_number_mk(13); }
        Interval { quality: Quality::Diminished(1), number: Number::THIRTEENTH() }
    }

    /// The minor thirteenth.
    #[allow(non_snake_case)]
    pub fn MINOR_THIRTEENTH() -> (r: Interval)
        ensures
            r.qual() == Quality::Minor,
            r.num() == 13,
            r == Interval::mk(Quality::Minor, 13),
    {
        proof { lemma_number_mk(13); }
        Interval { quality: Quality::Minor, number: Number::THIRTEENTH() }
    }

    /// The augmented twelfth.
    #[allow(non_snake_case)]
    pub fn AUGMENTED_TWELFTH() -> (r: Interval)
        ensures
            r.qual() == Quality::Augmented(1),
            r.num() == 12,
            r == Interval::mk(Quality::Augmented(1), 12),
    {
        proof { lemma_number_mk(12); }
        Interval { quality: Quality::Augmented(1), number: Number::TWELFTH() }
    }

    /// The major thirteenth.
    #[allow(non_snake_case)]
    pub fn MAJOR_THIRTEENTH() -> (r: Interval)
        ensures
            r.qual() == Quality::Major,
            r.num() == 13,
            r == Interval::mk(Quality::Major, 13),
    {
        proof { lemma_number_mk(13); }
        Interval { quality: Quality::Major, number: Number::THIRTEENTH() }
    }

    /// The diminished fourteenth.
    #[allow(non_snake_case)]
    pub fn DIMINISHED_FOURTEENTH() -> (r: Interval)
        ensures
            r.qual() == Quality::Diminished(1),
            r.num() == 14,
            r == Interval::mk(Quality::Diminished(1), 14),
    {
        proof { lemma_number_mk(14); }
        Interval { quality: Quality::Diminished(1), number: Number::FOURTEENTH() }
    }

    /// The minor fourteenth.
    #[allow(non_snake_case)]
    pub fn MINOR_FOURTEENTH() -> (r: Interval)
        ensures
            r.qual() == Quality::Minor,
            r.num() == 14,
            r == Interval::mk(Quality::Minor, 14),
    {
        proof { lemma_number_mk(14); }
        Interval { quality: Quality::Minor, number: Number::FOURTEENTH() }
    }

    /// The augmented thirteenth.
    #[allow(non_snake_case)]
    pub fn AUGMENTED_THIRTEENTH() -> (r: Interval)
        ensures
            r.qual() == Quality::Augmented(1),
            r.num() == 13,
            r == Interval::mk(Quality::Augmented(1), 13),
    {
        proof { lemma_number_mk(13); }
        Interval { quality: Quality::Augmented(1), number: Number::THIRTEENTH() }
    }

    /// The major fourteenth.
    #[allow(non_snake_case)]
    pub fn MAJOR_FOURTEENTH() -> (r: Interval)
        ensures
            r.qual() == Quality::Major,
            r.num() == 14,
            r == Interval::mk(Quality::Major, 14),
    {
        proof { lemma_number_mk(14); }
        Interval { quality: Quality::Major, number: Number::FOURTEENTH() }
    }

    /// The diminished fifteenth.
    #[allow(non_snake_case)]
    pub fn DIMINISHED_FIFTEENTH() -> (r: Interval)
        ensures
            r.qual() == Quality::Diminished(1),
            r.num() == 15,
            r == Interval::mk(Quality::Diminished(1), 15),
    {
        proof { lemma_number_mk(15); }
        Interval { quality: Quality::Diminished(1), number: Number::FIFTEENTH() }
    }

    /// The perfect fifteenth.
    #[allow(non_snake_case)]
    pub fn PERFECT_FIFTEENTH() -> (r: Interval)
        ensures
            r.qual() == Quality::Perfect,
            r.num() == 15,
            r == Interval::mk(Quality::Perfect, 15),
    {
        proof { lemma_number_mk(15); }
        Interval { quality: Quality::Perfect, number: Number::FIFTEENTH() }
    }

    /// The augmented fourteenth.
    #[allow(non_snake_case)]
    pub fn AUGMENTED_FOURTEENTH() -> (r: Interval)
        ensures
            r.qual() == Quality::Augmented(1),
            r.num() == 14,
            r == Interval::mk(Quality::Augmented(1), 14),
    {
        proof { lemma_number_mk(14); }
        Interval { quality: Quality::Augmented(1), number: Number::FOURTEENTH() }
    }


    /// Every named interval from a perfect unison to an augmented fourteenth.
    #[allow(non_snake_case)]
    pub fn ALL_CONSTS() -> (r: Vec<Interval>)
        ensures
            r@ == all_interval_consts(),
    {
        let mut v: Vec<Interval> = Vec::new();
        v.push(Interval::PERFECT_UNISON());
        v.push(Interval::DIMINISHED_SECOND());
        v.push(Interval::MINOR_SECOND());
        v.push(Interval::AUGMENTED_UNISON());
        v.push(Interval::MAJOR_SECOND());
        v.push(Interval::DIMINISHED_THIRD());
        v.push(Interval::MINOR_THIRD());
        v.push(Interval::AUGMENTED_SECOND());
        v.push(Interval::MAJOR_THIRD());
        v.push(Interval::DIMINISHED_FOURTH());
        v.push(Interval::PERFECT_FOURTH());
        v.push(Interval::AUGMENTED_THIRD());
        v.push(Interval::DIMINISHED_FIFTH());
        v.push(Interval::AUGMENTED_FOURTH());
        v.push(Interval::PERFECT_FIFTH());
        v.push(Interval::DIMINISHED_SIXTH());
        v.push(Interval::MINOR_SIXTH());
        v.push(Interval::AUGMENTED_FIFTH());
        v.push(Interval::MAJOR_SIXTH());
        v.push(Interval::DIMINISHED_SEVENTH());
        v.push(Interval::MINOR_SEVENTH());
        v.push(Interval::AUGMENTED_SIXTH());
        v.push(Interval::MAJOR_SEVENTH());
        v.push(Interval::DIMINISHED_OCTAVE());
        v.push(Interval::PERFECT_OCTAVE());
        v.push(Interval::AUGMENTED_SEVENTH());
        v.push(Interval::DIMINISHED_NINTH());
        v.push(Interval::MINOR_NINTH());
        v.push(Interval::AUGMENTED_OCTAVE());
        v.push(Interval::MAJOR_NINTH());
        v.push(Interval::DIMINISHED_TENTH());
        v.push(Interval::MINOR_TENTH());
        v.push(Interval::AUGMENTED_NINTH());
        v.push(Interval::MAJOR_TENTH());
        v.push(Interval::DIMINISHED_ELEVENTH());
        v.push(Interval::PERFECT_ELEVENTH());
        v.push(Interval::AUGMENTED_TENTH());
        v.push(Interval::DIMINISHED_TWELFTH());
        v.push(Interval::AUGMENTED_ELEVENTH());
        v.push(Interval::PERFECT_TWELFTH());
        v.push(Interval::DIMINISHED_THIRTEENTH());
        v.push(Interval::MINOR_THIRTEENTH());
        v.push(Interval::AUGMENTED_TWELFTH());
        v.push(Interval::MAJOR_THIRTEENTH());
        v.push(Interval::DIMINISHED_FOURTEENTH());
        v.push(Interval::MINOR_FOURTEENTH());
        v.push(Interval::AUGMENTED_THIRTEENTH());
        v.push(Interval::MAJOR_FOURTEENTH());
        v.push(Interval::DIMINISHED_FIFTEENTH());
        v.push(Interval::PERFECT_FIFTEENTH());
        v.push(Interval::AUGMENTED_FOURTEENTH());
        v
    }

    /// Creates an interval, or `None` when the quality does not go with the number
    /// (a perfect third, a major fifth, ...).
    pub fn new(quality: Quality, number: Number) -> (r: Option<Interval>)
        requires
            quality.wf(),
            number.value() != i16::MIN,
        ensures
            r is Some <==> valid_interval(quality, number.value()),
            r matches Some(i) ==> i.qual() == quality && i.num() == number.value(),
    {
        proof {
            use_type_invariant(&number);
            crate::interval::lemma_value_range(number);
        }
        let perfect = number.is_perfect();
        let ok = match quality {
            Quality::Diminished(_) => true,
            Quality::Augmented(_) => true,
            Quality::Perfect => perfect,
            Quality::Major => !perfect,
            Quality::Minor => !perfect,
        };
        if ok {
            Some(Interval { quality, number })
        } else {
            None
        }
    }

    /// The perfect interval for unisons, fourths, fifths and octaves, and the major
    /// interval for the other numbers.
    pub fn new_maj_or_perfect(number: Number) -> (r: Interval)
        requires
            number.value() != i16::MIN,
        ensures
            r.num() == number.value(),
            r.qual() == (if is_perfect_number(number.value()) { Quality::Perfect } else { Quality::Major }),
    {
        proof {
            use_type_invariant(&number);
            crate::interval::lemma_value_range(number);
        }
        let quality = if number.is_perfect() { Quality::Perfect } else { Quality::Major };
        Interval { quality, number }
    }

    /// The quality of the interval.
    pub fn quality(self) -> (r: Quality)
        ensures
            r == self.qual(),
            valid_interval(r, self.num()),
    {
        proof { use_type_invariant(&self); }
        self.quality
    }

    /// The number of the interval.
    pub fn number(self) -> (r: Number)
        ensures
            r.value() == self.num(),
            valid_interval(self.qual(), self.num()),
    {
        proof { use_type_invariant(&self); }
        self.number
    }

    /// Semitones the quality adds to the major or perfect interval.
    fn adjust(self) -> (r: i64)
        ensures
            r == quality_adjust(self.qual(), self.num()),
            -65537 <= r <= 65535,
    {
        proof { use_type_invariant(&self); }
        match self.quality {
            Quality::Perfect => 0,
            Quality::Major => 0,
            Quality::Minor => -1,
            Quality::Diminished(k) => if self.number.is_perfect() { -(k as i64) } else { -(k as i64) - 1 },
            Quality::Augmented(k) => k as i64,
        }
    }

    /// Signed semitones spanned by the interval, computed without overflow.
    pub fn semitones_wide(self) -> (r: i64)
        ensures
            r == self.semis(),
            -200_000 <= r <= 200_000,
    {
        proof { use_type_invariant(&self); lemma_simple(self.num()); }
        let base = self.number.base_semitones_with_octave_unsigned() as i64;
        let unsigned = base + self.adjust();
        if self.number.get() > 0 {
            unsigned
        } else {
            -unsigned
        }
    }

    /// Signed semitones spanned by the interval (negative when descending).
    pub fn semitones(self) -> (r: Semitones)
        requires
            self.semis_fit(),
        ensures
            r.0 == self.semis(),
    {
        Semitones(self.semitones_wide() as i16)
    }

    /// Signed steps along the line of fifths that the interval moves a pitch.
    pub fn fifths_wide(self) -> (r: i64)
        ensures
            r == self.fifths(),
            -500_000 <= r <= 500_000,
    {
        proof { use_type_invariant(&self); lemma_simple(self.num()); }
        let s = self.number.as_simple().get();
        let s = if s < 0 { -s } else { s };
        let f: i64 = if s == 1 || s == 8 {
            0
        } else if s == 2 {
            2
        } else if s == 3 {
            4
        } else if s == 4 {
            -1
        } else if s == 5 {
            1
        } else if s == 6 {
            3
        } else {
            5
        };
        assert(f == simple_fifths(self.num()));
        let unsigned = f + 7 * self.adjust();
        if self.number.get() > 0 {
            unsigned
        } else {
            -unsigned
        }
    }

    /// Whether the interval spans semitones against its own direction, like a
    /// diminished unison (ascending, but one semitone down).
    pub fn is_subzero(self) -> (r: bool)
        ensures
            r == self.subzero(),
    {
        let s = self.semitones_wide();
        let n = self.number().get();
        s != 0 && ((s < 0) != (n < 0))
    }

    /// Creates an interval, or `None` when it is invalid or subzero.
    pub fn strict_non_subzero(quality: Quality, number: Number) -> (r: Option<Interval>)
        requires
            quality.wf(),
            number.value() != i16::MIN,
        ensures
            r is Some <==> valid_interval(quality, number.value()) && !Interval::mk(quality, number.value()).subzero(),
            r matches Some(i) ==> i.qual() == quality && i.num() == number.value(),
    {
        match Interval::new(quality, number) {
            Some(i) => {
                proof { lemma_mk(quality, number.value()); lemma_interval_ext(i, Interval::mk(quality, number.value())); }
                if i.is_subzero() { None } else { Some(i) }
            },
            None => None,
        }
    }

    /// Whether the interval is ascending.
    pub fn is_ascending(self) -> (r: bool)
        ensures
            r == (self.num() > 0),
    {
        self.number().is_ascending()
    }

    /// The interval with the requested direction.
    pub fn with_direction(self, ascending: bool) -> (r: Interval)
        ensures
            r.qual() == self.qual(),
            r.num() == (if ascending { crate::interval::abs(self.num()) } else { -crate::interval::abs(self.num()) }),
    {
        proof { use_type_invariant(&self); }
        let number = self.number.with_direction(ascending);
        proof { lemma_perfect_sign(self.num()); }
        Interval { quality: self.quality, number }
    }

    /// The ascending form of the interval.
    pub fn abs(self) -> (r: Interval)
        ensures
            r.qual() == self.qual(),
            r.num() == crate::interval::abs(self.num()),
    {
        self.with_direction(true)
    }

    /// The simple form of the interval: compound intervals lose whole octaves
    /// (octaves and their multiples reduce to an octave), keeping direction.
    pub fn as_simple(self) -> (r: Interval)
        ensures
            r.qual() == self.qual(),
            r.num() == sgn(self.num()) * simple_abs(self.num()),
    {
        proof { use_type_invariant(&self); lemma_simple(self.num()); }
        let number = self.number.as_simple();
        proof {
            lemma_simple(number.value());
        }
        Interval { quality: self.quality, number }
    }

    /// The inverted interval: the quality and the number are both inverted.
    pub fn inverted(self) -> (r: Interval)
        ensures
            r.qual() == inverted_quality(self.qual()),
            r.num() == inverted_number(self.num()),
    {
        proof {
            use_type_invariant(&self);
            lemma_inverted_bounds(self.num());
            lemma_inverted_number_involutive(self.num());
        }
        Interval { quality: self.quality.inverted(), number: self.number.inverted() }
    }

    /// The inverted interval, unless it is subzero.
    pub fn inverted_strict_non_subzero(self) -> (r: Option<Interval>)
        ensures
            r is Some <==> !Interval::mk(inverted_quality(self.qual()), inverted_number(self.num())).subzero(),
            r matches Some(i) ==> i.qual() == inverted_quality(self.qual()) && i.num() == inverted_number(self.num()),
    {
        let i = self.inverted();
        proof { lemma_interval_ext(i, Interval::mk(inverted_quality(self.qual()), inverted_number(self.num()))); lemma_mk_of(i); }
        if i.is_subzero() { None } else { Some(i) }
    }

    /// The interval reversed in direction.
    pub fn negated(self) -> (r: Interval)
        ensures
            r.qual() == self.qual(),
            r.num() == -self.num(),
            r.semis() == -self.semis(),
            r.fifths() == -self.fifths(),
    {
        proof { use_type_invariant(&self); lemma_perfect_sign(self.num()); lemma_simple(self.num()); }
        Interval { quality: self.quality, number: Number::mk_neg(self.number) }
    }

    /// The inverted interval in the opposite direction.
    pub fn swap_direction_invert(self) -> (r: Interval)
        ensures
            r.qual() == inverted_quality(self.qual()),
            r.num() == -inverted_number(self.num()),
    {
        self.inverted().negated()
    }

    /// The negated interval, except that a perfect unison stays ascending.
    pub fn neg_preserve_perfect_unison(self) -> (r: Interval)
        ensures
            (self.qual() == Quality::Perfect && crate::interval::abs(self.num()) == 1) ==> r == self,
            !(self.qual() == Quality::Perfect && crate::interval::abs(self.num()) == 1) ==> r.qual() == self.qual() && r.num() == -self.num(),
    {
        let a = self.abs();
        let q = a.quality();
        let n = a.number().get();
        if n == 1 && q == Quality::Perfect {
            self
        } else {
            self.negated()
        }
    }

    /// The harmonic stability of the interval; `None` for fourths, which are
    /// consonant melodically but dissonant harmonically.
    pub fn stability(self) -> (r: Option<Stability>)
        ensures
            r == stability_of(self.qual(), self.num()),
    {
        proof { use_type_invariant(&self); lemma_simple(self.num()); }
        match self.quality {
            Quality::Diminished(_) => Some(Stability::Dissonance),
            Quality::Augmented(_) => Some(Stability::Dissonance),
            _ => {
                let s = self.number.as_simple().get();
                let s = if s < 0 { -s } else { s };
                if s == 1 || s == 5 || s == 8 {
                    Some(Stability::PerfectConsonance)
                } else if s == 3 || s == 6 {
                    Some(Stability::ImperfectConsonance)
                } else if s == 2 || s == 7 {
                    Some(Stability::Dissonance)
                } else {
                    None
                }
            },
        }
    }

    /// The interval spanning `semitones`, spelled as major, minor or perfect,
    /// except a tritone (and its compounds), which is a diminished fifth.
    pub fn from_semitones_preferred(semitones: Semitones) -> (r: Interval)
        requires
            semitones.0 != i16::MIN,
        ensures
            r.semis() == semitones.0,
            r == preferred_interval(semitones.0 as int),
    {
        let semi = semitones.0;
        if semi == 0 {
            let r = Interval::PERFECT_UNISON();
            proof { lemma_mk(Quality::Perfect, 1); }
            return r;
        }
        let a: i32 = if semi < 0 { -(semi as i32) } else { semi as i32 };
        let adj = (a - 1) % 12 + 1;
        let oct = (a - 1) / 12;
        let (quality, base_num): (Quality, i32) = if adj == 1 {
            (Quality::Minor, 2)
        } else if adj == 2 {
            (Quality::Major, 2)
        } else if adj == 3 {
            (Quality::Minor, 3)
        } else if adj == 4 {
            (Quality::Major, 3)
        } else if adj == 5 {
            (Quality::Perfect, 4)
        } else if adj == 6 {
            (Quality::Diminished(1), 5)
        } else if adj == 7 {
            (Quality::Perfect, 5)
        } else if adj == 8 {
            (Quality::Minor, 6)
        } else if adj == 9 {
            (Quality::Major, 6)
        } else if adj == 10 {
            (Quality::Minor, 7)
        } else if adj == 11 {
            (Quality::Major, 7)
        } else {
            (Quality::Perfect, 8)
        };
        let unsigned = base_num + oct * 7;
        assert(0 <= oct <= 2730);
        assert(2 <= unsigned <= 19118);
        let n: i16 = if semi < 0 { -(unsigned as i16) } else { unsigned as i16 };
        proof {
            lemma_compound(base_num as int, oct as int, n as int);
            lemma_number_mk(n as int);
            lemma_mk(quality, n as int);
            assert(a == 12 * oct + adj);
            assert(base_semitones(n as int) + quality_adjust(quality, n as int) == a);
            assert(crate::interval::abs(semi as int) == a);
            assert((a - 1) % 12 + 1 == adj && (a - 1) / 12 == oct);
            assert(preferred_interval(semi as int) == Interval::mk(quality, n as int));
        }
        Interval { quality, number: Number::mk_exec(n) }
    }

    /// The interval moving `steps` letters and `semitones` semitones, with
    /// `ascending` choosing the direction of a unison.
    pub(crate) fn from_parts(number: Number, semis: i64) -> (r: Interval)
        requires
            number.value() != i16::MIN,
            adjust_fits(sgn(number.value()) * semis - base_semitones(number.value()), is_perfect_number(number.value())),
        ensures
            r.num() == number.value(),
            r.qual() == quality_with_adjust(sgn(number.value()) * semis - base_semitones(number.value()), is_perfect_number(number.value())),
            r.semis() == semis,
    {
        proof { use_type_invariant(&number); }
        let n = number.get();
        let base = number.base_semitones_with_octave_unsigned() as i64;
        let d = if n > 0 { semis - base } else { -semis - base };
        let perfect = number.is_perfect();
        proof {
            lemma_quality_with_adjust(d as int, number.value());
        }
        let quality = quality_from_adjust(d, perfect);
        Interval { quality, number }
    }

    /// The sum of two intervals: letter steps and semitones both add up.
    pub fn add_interval(self, rhs: Interval) -> (r: Interval)
        requires
            addable(self, rhs),
        ensures
            r == sum_interval(self, rhs),
            r.num() == added_number(self.num(), rhs.num()),
            r.semis() == self.semis() + rhs.semis(),
            steps(r.num()) == steps(self.num()) + steps(rhs.num()),
            r.fifths() == self.fifths() + rhs.fifths(),
    {
        let ln = self.number().get() as i32;
        let rn = rhs.number().get() as i32;
        let total = ln + rn;
        let num: i32 = if total == 0 {
            1
        } else {
            let sl = if ln > 0 { ln - 1 } else { ln + 1 };
            let sr = if rn > 0 { rn - 1 } else { rn + 1 };
            if total > 0 { sl + sr + 1 } else { sl + sr - 1 }
        };
        proof { lemma_added_number(self.num(), rhs.num()); lemma_number_mk(num as int); }
        let number = Number::mk_exec(num as i16);
        let r = Interval::from_parts(number, self.semitones_wide() + rhs.semitones_wide());
        proof {
            use_type_invariant(&self);
            use_type_invariant(&rhs);
            use_type_invariant(&r);
            lemma_mk_of(r);
            lemma_fifths_semis(self.qual(), self.num());
            lemma_fifths_semis(rhs.qual(), rhs.num());
            lemma_fifths_semis(r.qual(), r.num());
        }
        r
    }

    /// Enharmonic equality: both intervals span the same number of semitones.
    pub fn eq_enharmonic(&self, other: &Interval) -> (r: bool)
        ensures
            r == (self.semis() == other.semis()),
    {
        self.semitones_wide() == other.semitones_wide()
    }

    /// Enharmonic ordering: by the number of semitones spanned.
    pub fn cmp_enharmonic(&self, other: &Interval) -> (r: core::cmp::Ordering)
        ensures
            (r == core::cmp::Ordering::Less) == (self.semis() < other.semis()),
            (r == core::cmp::Ordering::Equal) == (self.semis() == other.semis()),
            (r == core::cmp::Ordering::Greater) == (self.semis() > other.semis()),
    {
        let a = self.semitones_wide();
        let b = other.semitones_wide();
        if a < b {
            core::cmp::Ordering::Less
        } else if a == b {
            core::cmp::Ordering::Equal
        } else {
            core::cmp::Ordering::Greater
        }
    }

    /// The shorthand, such as `P5`, `m7`, `dd3` or `M-10`.
    pub fn shorthand(self) -> (r: String)
        ensures
            r@ == quality_shorthand(self.qual()) + crate::parse::int_text(self.num()),
    {
        let mut s = self.quality().shorthand();
        let t = crate::parse::i16_to_string(self.number().get());
        s.append(t.as_str());
        s
    }

    /// The same text as [`Self::shorthand`].
    pub fn to_string(self) -> (r: String)
        ensures
            r@ == quality_shorthand(self.qual()) + crate::parse::int_text(self.num()),
    {
        self.shorthand()
    }
}

impl Interval {
    /// Adds octaves to a subzero interval until it spans in its own direction
    /// (a diminished unison becomes a diminished octave); other intervals are
    /// returned unchanged.
    pub fn expand_subzero(self) -> (r: Interval)
        requires
            expandable(self),
        ensures
            r == expanded_interval(self),
            !r.subzero(),
            r.semis() == (if self.subzero() { self.semis() % 12 } else { self.semis() }),
    {
        proof { use_type_invariant(&self); lemma_mk_of(self); }
        if !self.is_subzero() {
            return self;
        }
        let semis = self.semitones_wide();
        let octaves: i64 = -crate::arith::div_euclid_12(semis);
        let n = self.number().get() as i64 + octaves * 7;
        proof {
            lemma_simple(self.num());
            lemma_shift_octaves(self.qual(), self.num(), octaves as int);
        }
        let number = Number::mk_exec(n as i16);
        let r = Interval::new(self.quality(), number);
        match r {
            Some(i) => {
                proof { lemma_mk_of(i); }
                i
            },
            None => self,
        }
    }

    /// The sum of a list of intervals, adding from the first one on; a perfect
    /// unison for an empty list.
    pub fn sum_all(intervals: &Vec<Interval>) -> (r: Interval)
        requires
            summable(intervals@),
        ensures
            r == sum_seq(intervals@),
    {
        if intervals.len() == 0 {
            let r = Interval::PERFECT_UNISON();
            return r;
        }
        let mut acc = intervals[0];
        let mut i: usize = 1;
        assert(intervals@.take(1).drop_last() =~= Seq::<Interval>::empty());
        assert(sum_seq(intervals@.take(1)) == intervals@[0]);
        while i < intervals.len()
            invariant
                1 <= i <= intervals.len(),
                summable(intervals@),
                acc == sum_seq(intervals@.take(i as int)),
            decreases intervals.len() - i,
        {
            let next = intervals[i];
            assert(addable(sum_seq(intervals@.take(i as int)), intervals@[i as int]));
            acc = acc.add_interval(next);
            assert(intervals@.take(i + 1).drop_last() =~= intervals@.take(i as int));
            i = i + 1;
        }
        assert(intervals@.take(intervals.len() as int) =~= intervals@);
        acc
    }
}

impl core::ops::Neg for Interval {
    type Output = Interval;

    /// The interval in the opposite direction.
    fn neg(self) -> (r: Interval) {
        let r = self.negated();
        proof { lemma_mk_of(r); }
        r
    }
}

impl vstd::std_specs::ops::NegSpecImpl for Interval {
    open spec fn obeys_neg_spec() -> bool {
        true
    }

    open spec fn neg_req(self) -> bool {
        true
    }

    open spec fn neg_spec(self) -> Interval {
        negated_interval(self)
    }
}

impl core::ops::Add for Interval {
    type Output = Interval;

    /// The sum of two intervals.
    fn add(self, rhs: Interval) -> (r: Interval) {
        self.add_interval(rhs)
    }
}

impl vstd::std_specs::ops::AddSpecImpl for Interval {
    open spec fn obeys_add_spec() -> bool {
        true
    }

    open spec fn add_req(self, rhs: Interval) -> bool {
        addable(self, rhs)
    }

    open spec fn add_spec(self, rhs: Interval) -> Interval {
        sum_interval(self, rhs)
    }
}

impl core::ops::Sub for Interval {
    type Output = Interval;

    /// The sum of `self` and the negated `rhs`.
    fn sub(self, rhs: Interval) -> (r: Interval) {
        let n = rhs.negated();
        proof { lemma_mk_of(n); }
        self.add_interval(n)
    }
}

impl vstd::std_specs::ops::SubSpecImpl for Interval {
    open spec fn obeys_sub_spec() -> bool {
        true
    }

    open spec fn sub_req(self, rhs: Interval) -> bool {
        addable(self, negated_interval(rhs))
    }

    open spec fn sub_spec(self, rhs: Interval) -> Interval {
        sum_interval(self, negated_interval(rhs))
    }
}

impl Default for Interval {
    /// The perfect unison.
    fn default() -> (r: Interval)
        ensures
            r == Interval::mk(Quality::Perfect, 1),
    {
        Interval::PERFECT_UNISON()
    }
}

impl Number {
    /// The number with value `v`.
    pub fn mk_exec(v: i16) -> (r: Number)
        requires
            v != 0,
        ensures
            r.value() == v,
            r == Number::mk(v as int),
    {
        proof { lemma_number_mk(v as int); }
        match Number::new(v) {
            Some(n) => n,
            None => Number::UNISON(),
        }
    }

    /// The negated number.
    pub fn mk_neg(n: Number) -> (r: Number)
        requires
            n.value() != i16::MIN,
        ensures
            r.value() == -n.value(),
    {
        let v = n.get();
        Number::mk_exec(-v)
    }
}

fn quality_from_adjust(d: i64, perfect: bool) -> (r: Quality)
    requires
        adjust_fits(d as int, perfect),
    ensures
        r == quality_with_adjust(d as int, perfect),
{
    if d == 0 {
        if perfect { Quality::Perfect } else { Quality::Major }
    } else if d > 0 {
        Quality::Augmented(d as u16)
    } else if perfect {
        Quality::Diminished((-d) as u16)
    } else if d == -1 {
        Quality::Minor
    } else {
        Quality::Diminished((-d - 1) as u16)
    }
}

/// The interval with the same quality in the opposite direction.
pub open spec fn negated_interval(i: Interval) -> Interval {
    Interval::mk(i.qual(), -i.num())
}

/// Whether two intervals can be added: the number and the quality count of the
/// sum fit their types.
pub open spec fn addable(a: Interval, b: Interval) -> bool {
    let n = added_number(a.num(), b.num());
    &&& i16::MIN < n <= i16::MAX
    &&& adjust_fits(sgn(n) * (a.semis() + b.semis()) - base_semitones(n), is_perfect_number(n))
}

/// The sum of two intervals: letter steps add up and so do semitones, and the
/// quality is whatever makes the sum span those semitones.
pub open spec fn sum_interval(a: Interval, b: Interval) -> Interval {
    let n = added_number(a.num(), b.num());
    Interval::mk(
        quality_with_adjust(sgn(n) * (a.semis() + b.semis()) - base_semitones(n), is_perfect_number(n)),
        n,
    )
}

/// The running sum of a sequence of intervals, from the first one on; a perfect
/// unison for no intervals.
pub open spec fn sum_seq(s: Seq<Interval>) -> Interval
    decreases s.len(),
{
    if s.len() == 0 {
        Interval::mk(Quality::Perfect, 1)
    } else if s.len() == 1 {
        s[0]
    } else {
        sum_interval(sum_seq(s.drop_last()), s.last())
    }
}

/// Whether every partial sum of `s` can take the next interval.
pub open spec fn summable(s: Seq<Interval>) -> bool {
    forall|k: int| 1 <= k < s.len() ==> addable(#[trigger] sum_seq(s.take(k)), s[k])
}

/// The interval that [`Interval::expand_subzero`] gives: octaves are added to a
/// subzero interval until it spans in its own direction.
pub open spec fn expanded_interval(i: Interval) -> Interval {
    if i.subzero() {
        Interval::mk(i.qual(), i.num() - 7 * (i.semis() / 12))
    } else {
        i
    }
}

/// Whether [`Interval::expand_subzero`] can expand `i`: the new number fits an
/// `i16`, and a descending subzero interval spans whole octaves.
pub open spec fn expandable(i: Interval) -> bool {
    i.subzero() ==> {
        &&& i16::MIN < i.num() - 7 * (i.semis() / 12) <= i16::MAX
        &&& (i.num() > 0 || i.semis() % 12 == 0)
    }
}

/// Every named interval, in the order of [`Interval::ALL_CONSTS`].
pub open spec fn all_interval_consts() -> Seq<Interval> {
    seq![
        Interval::mk(Quality::Perfect, 1),
        Interval::mk(Quality::Diminished(1), 2),
        Interval::mk(Quality::Minor, 2),
        Interval::mk(Quality::Augmented(1), 1),
        Interval::mk(Quality::Major, 2),
        Interval::mk(Quality::Diminished(1), 3),
        Interval::mk(Quality::Minor, 3),
        Interval::mk(Quality::Augmented(1), 2),
        Interval::mk(Quality::Major, 3),
        Interval::mk(Quality::Diminished(1), 4),
        Interval::mk(Quality::Perfect, 4),
        Interval::mk(Quality::Augmented(1), 3),
        Interval::mk(Quality::Diminished(1), 5),
        Interval::mk(Quality::Augmented(1), 4),
        Interval::mk(Quality::Perfect, 5),
        Interval::mk(Quality::Diminished(1), 6),
        Interval::mk(Quality::Minor, 6),
        Interval::mk(Quality::Augmented(1), 5),
        Interval::mk(Quality::Major, 6),
        Interval::mk(Quality::Diminished(1), 7),
        Interval::mk(Quality::Minor, 7),
        Interval::mk(Quality::Augmented(1), 6),
        Interval::mk(Quality::Major, 7),
        Interval::mk(Quality::Diminished(1), 8),
        Interval::mk(Quality::Perfect, 8),
        Interval::mk(Quality::Augmented(1), 7),
        Interval::mk(Quality::Diminished(1), 9),
        Interval::mk(Quality::Minor, 9),
        Interval::mk(Quality::Augmented(1), 8),
        Interval::mk(Quality::Major, 9),
        Interval::mk(Quality::Diminished(1), 10),
        Interval::mk(Quality::Minor, 10),
        Interval::mk(Quality::Augmented(1), 9),
        Interval::mk(Quality::Major, 10),
        Interval::mk(Quality::Diminished(1), 11),
        Interval::mk(Quality::Perfect, 11),
        Interval::mk(Quality::Augmented(1), 10),
        Interval::mk(Quality::Diminished(1), 12),
        Interval::mk(Quality::Augmented(1), 11),
        Interval::mk(Quality::Perfect, 12),
        Interval::mk(Quality::Diminished(1), 13),
        Interval::mk(Quality::Minor, 13),
        Interval::mk(Quality::Augmented(1), 12),
        Interval::mk(Quality::Major, 13),
        Interval::mk(Quality::Diminished(1), 14),
        Interval::mk(Quality::Minor, 14),
        Interval::mk(Quality::Augmented(1), 13),
        Interval::mk(Quality::Major, 14),
        Interval::mk(Quality::Diminished(1), 15),
        Interval::mk(Quality::Perfect, 15),
        Interval::mk(Quality::Augmented(1), 14),
    ]
}

/// The interval [`Interval::from_semitones_preferred`] gives for `s` semitones.
pub open spec fn preferred_interval(s: int) -> Interval {
    if s == 0 {
        Interval::mk(Quality::Perfect, 1)
    } else {
        let a = crate::interval::abs(s);
        let adj = (a - 1) % 12 + 1;
        let oct = (a - 1) / 12;
        let q = if adj == 1 || adj == 3 || adj == 8 || adj == 10 {
            Quality::Minor
        } else if adj == 2 || adj == 4 || adj == 9 || adj == 11 {
            Quality::Major
        } else if adj == 6 {
            Quality::Diminished(1)
        } else {
            Quality::Perfect
        };
        let base: int = if adj <= 2 {
            2
        } else if adj <= 4 {
            3
        } else if adj == 5 {
            4
        } else if adj <= 7 {
            5
        } else if adj <= 9 {
            6
        } else if adj <= 11 {
            7
        } else {
            8
        };
        Interval::mk(q, if s < 0 { -(base + 7 * oct) } else { base + 7 * oct })
    }
}

/// The preferred interval for `s` semitones: a perfect unison for none; otherwise
/// ascending exactly for a positive count, and perfect, major or minor, except
/// that a tritone or a compound of one is a diminished fifth.
pub proof fn law_preferred_interval(s: int)
    requires
        i16::MIN < s <= i16::MAX,
    ensures
        s == 0 ==> preferred_interval(s) == Interval::mk(Quality::Perfect, 1),
        s != 0 ==> (preferred_interval(s).num() > 0 <==> s > 0),
        crate::interval::abs(s) % 12 == 6 ==> preferred_interval(s).qual() == Quality::Diminished(1)
            && simple_abs(preferred_interval(s).num()) == 5,
        crate::interval::abs(s) % 12 != 6 ==> (preferred_interval(s).qual() == Quality::Perfect
            || preferred_interval(s).qual() == Quality::Major || preferred_interval(s).qual() == Quality::Minor),
{
    if s != 0 {
        let a = crate::interval::abs(s);
        let adj = (a - 1) % 12 + 1;
        let oct = (a - 1) / 12;
        let base: int = if adj <= 2 { 2 } else if adj <= 4 { 3 } else if adj == 5 { 4 } else if adj <= 7 { 5 }
            else if adj <= 9 { 6 } else if adj <= 11 { 7 } else { 8 };
        let n = if s < 0 { -(base + 7 * oct) } else { base + 7 * oct };
        assert(0 <= oct <= 2730);
        assert(a % 12 == 6 <==> adj == 6);
        lemma_mk(preferred_interval(s).qual(), n);
        lemma_compound(base, oct, n);
    }
}

/// How stable an interval sounds, by its quality and its simple number: seconds and
/// sevenths (major or minor) and every augmented or diminished interval are
/// dissonances; perfect unisons, fifths and octaves are perfect consonances; major
/// and minor thirds and sixths are imperfect consonances; a perfect fourth has no
/// stability. Only unisons, fifths, octaves, thirds and sixths are consonant.
pub proof fn law_stability(q: Quality, n: int)
    requires
        valid_interval(q, n),
    ensures
        (q is Diminished || q is Augmented) ==> stability_of(q, n) == Some(Stability::Dissonance),
        (q is Major || q is Minor) && (simple_abs(n) == 2 || simple_abs(n) == 7)
            ==> stability_of(q, n) == Some(Stability::Dissonance),
        (q is Major || q is Minor) && (simple_abs(n) == 3 || simple_abs(n) == 6)
            ==> stability_of(q, n) == Some(Stability::ImperfectConsonance),
        q is Perfect && (simple_abs(n) == 1 || simple_abs(n) == 5 || simple_abs(n) == 8)
            ==> stability_of(q, n) == Some(Stability::PerfectConsonance),
        q is Perfect && simple_abs(n) == 4 ==> stability_of(q, n) is None,
        stability_of(q, n) matches Some(st) && st.is_consonant_spec() ==> {
            &&& q is Perfect || q is Major || q is Minor
            &&& simple_abs(n) == 1 || simple_abs(n) == 3 || simple_abs(n) == 5
                || simple_abs(n) == 6 || simple_abs(n) == 8
        },
{
    crate::interval::lemma_simple(n);
}

/// A number of `b + 7 * oct` (in either direction) has simple form `b`, and spans
/// `oct` octaves (one more for `b == 8`).
proof fn lemma_compound(b: int, oct: int, n: int)
    requires
        2 <= b <= 8,
        oct >= 0,
        n == b + 7 * oct || n == -(b + 7 * oct),
    ensures
        simple_abs(n) == b,
        octaves(n) == (if b == 8 { oct + 1 } else { oct }),
        n != 0,
{
    assert(crate::interval::abs(n) == b + 7 * oct);
    assert(b + 7 * oct - 1 == 7 * oct + (b - 1));
    if b == 8 {
        assert((7 * (oct + 1) + 0) % 7 == 0) by {
            vstd::arithmetic::div_mod::lemma_mod_multiples_vanish(oct + 1, 0, 7);
        }
        assert((7 * (oct + 1) + 0) / 7 == oct + 1) by {
            vstd::arithmetic::div_mod::lemma_div_multiples_vanish_fancy(oct + 1, 0, 7);
        }
    } else {
        assert((7 * oct + (b - 1)) % 7 == b - 1) by {
            vstd::arithmetic::div_mod::lemma_mod_multiples_vanish(oct, b - 1, 7);
        }
        assert((7 * oct + (b - 1)) / 7 == oct) by {
            vstd::arithmetic::div_mod::lemma_div_multiples_vanish_fancy(oct, b - 1, 7);
        }
    }
}

/// Moving a number `k` octaves further in its own direction keeps its kind and
/// shifts its semitones by `12 * k`.
pub proof fn lemma_shift_octaves(q: Quality, n: int, k: int)
    requires
        valid_interval(q, n),
        n > 0 ==> n + 7 * k > 0,
        n < 0 ==> n + 7 * k < 0,
        i16::MIN < n + 7 * k <= i16::MAX,
    ensures
        valid_interval(q, n + 7 * k),
        semitones_of(q, n + 7 * k) == semitones_of(q, n) + 12 * k,
{
    lemma_simple(n);
    lemma_simple(n + 7 * k);
    let a = crate::interval::abs(n);
    let b = crate::interval::abs(n + 7 * k);
    let d = if n > 0 { k } else { -k };
    assert(b == a + 7 * d);
    assert((b - 1) == (a - 1) + 7 * d);
    let q0 = (a - 1) / 7;
    let r0 = (a - 1) % 7;
    assert(b - 1 == 7 * (q0 + d) + r0);
    assert((b - 1) % 7 == r0 && (b - 1) / 7 == q0 + d) by {
        vstd::arithmetic::div_mod::lemma_mod_multiples_vanish(q0 + d, r0, 7);
        vstd::arithmetic::div_mod::lemma_div_multiples_vanish_fancy(q0 + d, r0, 7);
    }
    assert(base_semitones(n + 7 * k) == base_semitones(n) + 12 * d);
    assert(quality_adjust(q, n + 7 * k) == quality_adjust(q, n));
    if n > 0 {
        assert(semitones_of(q, n) == base_semitones(n) + quality_adjust(q, n));
        assert(semitones_of(q, n + 7 * k) == base_semitones(n + 7 * k) + quality_adjust(q, n + 7 * k));
    } else {
        assert(semitones_of(q, n) == -(base_semitones(n) + quality_adjust(q, n)));
        assert(semitones_of(q, n + 7 * k) == -(base_semitones(n + 7 * k) + quality_adjust(q, n + 7 * k)));
    }
}

/// The sum of two intervals has the added number and spans the added semitones
/// and steps along the line of fifths.
pub proof fn lemma_sum_interval(a: Interval, b: Interval)
    requires
        valid_interval(a.qual(), a.num()),
        valid_interval(b.qual(), b.num()),
        addable(a, b),
    ensures
        sum_interval(a, b).num() == added_number(a.num(), b.num()),
        sum_interval(a, b).semis() == a.semis() + b.semis(),
        sum_interval(a, b).fifths() == a.fifths() + b.fifths(),
        valid_interval(sum_interval(a, b).qual(), sum_interval(a, b).num()),
{
    let n = added_number(a.num(), b.num());
    let d = sgn(n) * (a.semis() + b.semis()) - base_semitones(n);
    lemma_added_number(a.num(), b.num());
    lemma_quality_with_adjust(d, n);
    let q = quality_with_adjust(d, is_perfect_number(n));
    lemma_mk(q, n);
    let s = sgn(n);
    let t = a.semis() + b.semis();
    assert(s * (s * t) == t) by (nonlinear_arith)
        requires
            s == 1 || s == -1,
    ;
    assert(semitones_of(q, n) == s * (base_semitones(n) + d));
    assert(s * (base_semitones(n) + d) == s * (s * t)) by (nonlinear_arith)
        requires
            d == s * t - base_semitones(n),
    ;
    lemma_fifths_semis(q, n);
    lemma_fifths_semis(a.qual(), a.num());
    lemma_fifths_semis(b.qual(), b.num());
}

/// The negated interval is valid and spans the opposite semitones and steps along
/// the line of fifths.
pub proof fn lemma_negated_interval(i: Interval)
    requires
        valid_interval(i.qual(), i.num()),
    ensures
        negated_interval(i).qual() == i.qual(),
        negated_interval(i).num() == -i.num(),
        valid_interval(negated_interval(i).qual(), negated_interval(i).num()),
        negated_interval(i).semis() == -i.semis(),
        negated_interval(i).fifths() == -i.fifths(),
{
    let n = i.num();
    let q = i.qual();
    lemma_mk(q, -n);
    lemma_perfect_sign(n);
    let x = base_semitones(n) + quality_adjust(q, n);
    let y = simple_fifths(n) + 7 * quality_adjust(q, n);
    assert(quality_adjust(q, -n) == quality_adjust(q, n));
    assert(sgn(-n) == -sgn(n));
    assert(sgn(-n) * x == -(sgn(n) * x)) by (nonlinear_arith)
        requires
            sgn(-n) == -sgn(n),
    ;
    assert(sgn(-n) * y == -(sgn(n) * y)) by (nonlinear_arith)
        requires
            sgn(-n) == -sgn(n),
    ;
}

/// Inverting an interval twice gives it back.
pub proof fn law_double_inversion(i: Interval)
    requires
        valid_interval(i.qual(), i.num()),
    ensures
        Interval::mk(inverted_quality(inverted_quality(i.qual())), inverted_number(inverted_number(i.num()))) == i,
{
    crate::interval::lemma_inverted_quality_involutive(i.qual());
    lemma_inverted_number_involutive(i.num());
    lemma_mk_of(i);
}

/// Negating an interval twice gives it back.
pub proof fn law_double_negation(i: Interval)
    requires
        valid_interval(i.qual(), i.num()),
    ensures
        negated_interval(negated_interval(i)) == i,
{
    lemma_negated_interval(i);
    lemma_mk_of(i);
}

/// `Interval::mk` builds the interval with the given quality and number.
pub proof fn lemma_mk(q: Quality, n: int)
    requires
        i16::MIN <= n <= i16::MAX,
    ensures
        Interval::mk(q, n).qual() == q,
        Interval::mk(q, n).num() == n,
{
    lemma_number_mk(n);
}

/// An interval is `Interval::mk` of its quality and number.
pub proof fn lemma_mk_of(i: Interval)
    ensures
        i == Interval::mk(i.qual(), i.num()),
{
    crate::interval::lemma_value_range(i.number);
    lemma_number_mk(i.num());
    lemma_number_ext(i.number, Number::mk(i.num()));
}

/// Intervals with the same quality and number are equal.
pub proof fn lemma_interval_ext(a: Interval, b: Interval)
    ensures
        (a.qual() == b.qual() && a.num() == b.num()) ==> a == b,
{
    lemma_number_ext(a.number, b.number);
}

/// Perfectness and the simple form do not depend on direction.
pub proof fn lemma_perfect_sign(n: int)
    ensures
        is_perfect_number(n) == is_perfect_number(-n),
        simple_abs(n) == simple_abs(-n),
        octaves(n) == octaves(-n),
        base_semitones(n) == base_semitones(-n),
        simple_fifths(n) == simple_fifths(-n),
{
}

/// The quality adding `d` semitones adds `d` semitones, and forms an interval with
/// any number of the matching kind.
pub proof fn lemma_quality_with_adjust(d: int, n: int)
    requires
        n != 0,
        i16::MIN < n <= i16::MAX,
        adjust_fits(d, is_perfect_number(n)),
    ensures
        quality_adjust(quality_with_adjust(d, is_perfect_number(n)), n) == d,
        valid_interval(quality_with_adjust(d, is_perfect_number(n)), n),
{
}

/// The quality of a valid interval is the one adding its adjustment.
pub proof fn lemma_adjust_roundtrip(q: Quality, n: int)
    requires
        valid_interval(q, n),
    ensures
        quality_with_adjust(quality_adjust(q, n), is_perfect_number(n)) == q,
        adjust_fits(quality_adjust(q, n), is_perfect_number(n)),
{
}

/// The number of a sum of intervals moves the summed letter steps.
pub proof fn lemma_added_number(ln: int, rn: int)
    requires
        ln != 0,
        rn != 0,
    ensures
        added_number(ln, rn) != 0,
        steps(added_number(ln, rn)) == steps(ln) + steps(rn),
{
}

/// Steps along the line of fifths are seven times the semitones minus twelve
/// times the letter steps.
pub proof fn lemma_fifths_semis(q: Quality, n: int)
    requires
        valid_interval(q, n),
    ensures
        fifths_of(q, n) == 7 * semitones_of(q, n) - 12 * steps(n),
{
    lemma_simple(n);
}

} // verus!
