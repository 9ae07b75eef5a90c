//! Intervals between pitches, and pitches moved by intervals.

use vstd::prelude::*;
use crate::interval::{
    base_semitones, is_perfect_number, lemma_adjust_roundtrip, lemma_fifths_semis, lemma_interval_ext,
    lemma_mk, lemma_mk_of, lemma_quality_with_adjust, quality_adjust, quality_with_adjust, sgn, steps,
    valid_interval, Interval, Number,
};
use crate::pitch::{lemma_fifths_roundtrip, lemma_from_fifths, Letter, Pitch};

verus! {

/// The pitch reached from `p` by the interval `i`: positions on the line of fifths add up.
pub open spec fn transposed(p: Pitch, i: Interval) -> Pitch {
    Pitch::from_fifths(p.fifths() + i.fifths())
}

/// Letter steps upwards from the letter of `p` to the letter of `q`, in `[0, 6]`.
pub open spec fn letter_offset(p: Pitch, q: Pitch) -> int {
    (q.letter.idx() - p.letter.idx()) % 7
}

/// Whether going up from `p` to `q` passes the next C: `q`'s letter lies below
/// `p`'s, or it is the same letter with a lower accidental.
pub open spec fn wraps(p: Pitch, q: Pitch) -> bool {
    q.letter.idx() < p.letter.idx()
        || (q.letter.idx() == p.letter.idx() && q.accidental.offset < p.accidental.offset)
}

/// Semitones from `p` up to `q` when following the letters upwards.
pub open spec fn letter_span(p: Pitch, q: Pitch) -> int {
    q.semis() - p.semis() + if wraps(p, q) { 12int } else { 0int }
}

/// The number of the ascending simple interval from `p` to `q`: one more than the
/// letter offset, or an octave for the same letter with a lower accidental.
pub open spec fn between_number(p: Pitch, q: Pitch) -> int {
    if letter_offset(p, q) == 0 && p.accidental.offset > q.accidental.offset {
        8
    } else {
        letter_offset(p, q) + 1
    }
}

/// The semitones of the ascending simple interval from `p` to `q`: the upward
/// distance of their pitch classes, except that a seventh spanning none spans an octave.
pub open spec fn between_semis(p: Pitch, q: Pitch) -> int {
    let base = (q.semis() - p.semis()) % 12;
    if letter_offset(p, q) == 6 && base == 0 { 12 } else { base }
}

/// The interval [`Interval::between_pitches`] gives: its number from the letters,
/// its quality from the semitones.
pub open spec fn between_spec(p: Pitch, q: Pitch) -> Interval {
    let n = between_number(p, q);
    Interval::mk(quality_with_adjust(between_semis(p, q) - base_semitones(n), is_perfect_number(n)), n)
}

/// Whether the span from `p` to `q` along the letters is one that an ascending
/// simple interval of that letter offset reports: within an octave, and at least a
/// semitone for a seventh.
pub open spec fn span_fits(p: Pitch, q: Pitch) -> bool {
    if letter_offset(p, q) == 6 {
        1 <= letter_span(p, q) <= 12
    } else {
        0 <= letter_span(p, q) <= 11
    }
}

/// Whether an interval is one that [`Interval::between_pitches`] can report: an
/// ascending interval from a unison to an octave spanning less than an octave (a
/// seventh: at least one semitone and at most an octave).
pub open spec fn simple_ascending(i: Interval) -> bool {
    &&& 1 <= i.num() <= 8
    &&& if i.num() == 7 { 1 <= i.semis() <= 12 } else { 0 <= i.semis() <= 11 }
}

impl Interval {
    /// The ascending simple interval from `lhs` up to `rhs`.
    pub fn between_pitches(lhs: Pitch, rhs: Pitch) -> (r: Interval)
        ensures
            r == between_spec(lhs, rhs),
            r.num() == between_number(lhs, rhs),
            r.semis() == between_semis(lhs, rhs),
            1 <= r.num() <= 8,
            0 <= r.semis() <= 12,
    {
        proof { lemma_between_parts(lhs, rhs); }
        let off = lhs.letter.offset_between(rhs.letter);
        let number: i16 = if off == 0 && lhs.accidental.offset > rhs.accidental.offset {
            8
        } else {
            off as i16 + 1
        };
        let base = lhs.semitones_to(rhs).0;
        let semis: i64 = if off == 6 && base == 0 { 12 } else { base as i64 };
        let num = Number::mk_exec(number);
        let r = Interval::from_parts(num, semis);
        proof { lemma_mk_of(r); }
        r
    }
}

impl Pitch {
    /// The pitch reached by moving up (or down, for a descending interval) by `interval`.
    pub fn transpose(&self, interval: Interval) -> (r: Pitch)
        requires
            Pitch::fifths_ok(self.fifths() + interval.fifths()),
        ensures
            r == transposed(*self, interval),
            r.fifths() == self.fifths() + interval.fifths(),
    {
        Pitch::from_fifths_i64(self.fifths_i64() + interval.fifths_wide())
    }

    /// The ascending simple interval from `self` up to `other`.
    pub fn distance_to(&self, other: Pitch) -> (r: Interval)
        ensures
            r == between_spec(*self, other),
    {
        Interval::between_pitches(*self, other)
    }
}

impl core::ops::Add<Interval> for Pitch {
    type Output = Pitch;

    /// The pitch transposed by `rhs`.
    fn add(self, rhs: Interval) -> (r: Pitch) {
        self.transpose(rhs)
    }
}

impl vstd::std_specs::ops::AddSpecImpl<Interval> for Pitch {
    open spec fn obeys_add_spec() -> bool {
        true
    }

    open spec fn add_req(self, rhs: Interval) -> bool {
        Pitch::fifths_ok(self.fifths() + rhs.fifths())
    }

    open spec fn add_spec(self, rhs: Interval) -> Pitch {
        transposed(self, rhs)
    }
}

/// A letter's place on the line of fifths is seven times its semitones above C
/// less twelve times its steps above C.
pub proof fn lemma_letter_fifths(l: Letter)
    ensures
        l.fifths() == 7 * l.semis() - 12 * l.idx(),
{
}

/// Steps along the line of fifths between two pitches are seven times their
/// semitones less twelve times their letter steps.
pub proof fn lemma_pitch_fifths(p: Pitch, q: Pitch)
    ensures
        q.fifths() - p.fifths() == 7 * (q.semis() - p.semis()) - 12 * (q.letter.idx() - p.letter.idx()),
{
    lemma_letter_fifths(p.letter);
    lemma_letter_fifths(q.letter);
}

/// The interval between two pitches counts the letter steps upwards, wrapping an
/// octave when `q` lies below `p`, and spans the letter span when it fits.
pub proof fn lemma_between_parts(p: Pitch, q: Pitch)
    ensures
        steps(between_number(p, q)) == q.letter.idx() - p.letter.idx() + if wraps(p, q) { 7int } else { 0int },
        1 <= between_number(p, q) <= 8,
        span_fits(p, q) ==> between_semis(p, q) == letter_span(p, q),
        0 <= between_semis(p, q) <= 12,
        between_spec(p, q).num() == between_number(p, q),
        between_spec(p, q).semis() == between_semis(p, q),
        valid_interval(between_spec(p, q).qual(), between_spec(p, q).num()),
{
    let n = between_number(p, q);
    let d = between_semis(p, q) - base_semitones(n);
    lemma_quality_with_adjust(d, n);
    lemma_mk(quality_with_adjust(d, is_perfect_number(n)), n);
    assert(sgn(n) == 1);
    let d = q.semis() - p.semis();
    let w: int = if wraps(p, q) { 1 } else { 0 };
    if span_fits(p, q) {
        let s = letter_span(p, q);
        assert(d == s - 12 * w);
        if s == 12 {
            assert(d % 12 == 0);
        } else {
            assert((s - 12 * w) % 12 == s);
        }
    }
}

/// Transposing `p` by the interval between `p` and `q` reaches `q`, whenever the
/// span from `p` to `q` along the letters fits that interval.
pub proof fn law_transpose_between(p: Pitch, q: Pitch)
    requires
        span_fits(p, q),
    ensures
        Pitch::fifths_ok(p.fifths() + between_spec(p, q).fifths()),
        transposed(p, between_spec(p, q)) == q,
{
    let n = between_number(p, q);
    let sb = between_semis(p, q);
    let d = sb - base_semitones(n);
    lemma_between_parts(p, q);
    lemma_quality_with_adjust(d, n);
    let qb = quality_with_adjust(d, is_perfect_number(n));
    lemma_mk(qb, n);
    let b = between_spec(p, q);
    assert(b.qual() == qb && b.num() == n);
    assert(b.semis() == sb) by {
        assert(sgn(n) == 1);
    }
    lemma_fifths_semis(qb, n);
    lemma_pitch_fifths(p, q);
    assert(b.fifths() == q.fifths() - p.fifths());
    lemma_fifths_roundtrip(q);
}

/// The interval from `p` to `p` transposed by `i` is `i` again, for an ascending
/// interval up to an octave that spans less than an octave (a seventh: at least a
/// semitone, at most an octave).
#[verifier::spinoff_prover]
#[verifier::rlimit(40)]
pub proof fn law_between_transpose(p: Pitch, i: Interval)
    requires
        valid_interval(i.qual(), i.num()),
        simple_ascending(i),
        Pitch::fifths_ok(p.fifths() + i.fifths()),
    ensures
        between_spec(p, transposed(p, i)) == i,
{
    let q = transposed(p, i);
    lemma_from_fifths(p.fifths() + i.fifths());
    assert(q.fifths() == p.fifths() + i.fifths());
    lemma_mk_of(i);
    let n = i.num();
    lemma_fifths_semis(i.qual(), n);
    lemma_pitch_fifths(p, q);
    let y = q.letter.idx() - p.letter.idx() - (n - 1);
    let x = q.semis() - p.semis() - i.semis();
    assert(7 * x == 12 * y);
    assert(-13 <= y <= 6);
    assert(y == 0 || y == -7);
    lemma_between_parts(p, q);
    if n == 8 {
        assert(y == -7);
        assert(q.letter.idx() == p.letter.idx());
        assert(x == -12);
        assert(wraps(p, q));
    } else if y == 0 {
        assert(x == 0);
        if n == 1 {
            assert(q.letter.idx() == p.letter.idx());
            assert(!wraps(p, q));
        } else {
            assert(!wraps(p, q));
        }
    } else {
        assert(x == -12);
        assert(wraps(p, q));
    }
    assert(letter_span(p, q) == i.semis());
    assert(letter_offset(p, q) == (n - 1) % 7);
    assert(between_number(p, q) == n);
    assert(between_semis(p, q) == i.semis());
    lemma_adjust_roundtrip(i.qual(), n);
    assert(i.semis() - base_semitones(n) == quality_adjust(i.qual(), n)) by {
        assert(sgn(n) == 1);
    }
    lemma_mk(i.qual(), n);
    lemma_interval_ext(between_spec(p, q), i);
}

} // verus!
