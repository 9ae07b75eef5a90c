//! Notes: a spelled pitch in a given octave.

use vstd::prelude::*;
use crate::interval::{
    between_number, between_semis, between_spec, simple_ascending, lemma_fifths_semis, lemma_mk_of, lemma_shift_octaves,
    negated_interval, sum_interval, addable, transposed, valid_interval, Interval, Number, Quality,
};
use crate::pitch::{
    enharmonic_spec, lemma_from_fifths, lemma_pc_fifths, lemma_spellings, respelled_with,
    sharp_spelling, simplified_spec, Pitch, PitchClass, Spelling,
};
use crate::semitone::Semitones;

verus! {

/// A note: a spelled pitch in an octave, with middle C in octave 4.
///
/// Notes are ordered by octave first and by pitch (letter, then accidental) second.
#[derive(Copy, Clone, Eq, PartialEq, Debug, Hash, PartialOrd, Ord, Structural)]
pub struct Note {
    pub octave: i16,
    pub pitch: Pitch,
}

/// The note spelled `p` that lies `s` semitones above C in octave 0.
pub open spec fn note_at(p: Pitch, s: int) -> Note {
    Note { octave: ((s - p.semis()) / 12) as i16, pitch: p }
}

/// Whether the note spelled `p` at `s` semitones above C0 has an octave that fits an `i16`.
pub open spec fn octave_fits(p: Pitch, s: int) -> bool {
    i16::MIN <= (s - p.semis()) / 12 <= i16::MAX
}

/// The note reached from `n` by the interval `i`: its pitch moves along the line
/// of fifths and it lies `i`'s semitones away.
pub open spec fn transposed_note(n: Note, i: Interval) -> Note {
    note_at(transposed(n.pitch, i), n.abs() + i.semis())
}

/// Whether [`Note::transpose`] can move `n` by `i`: the accidental and the octave
/// of the result fit an `i16`.
pub open spec fn can_transpose(n: Note, i: Interval) -> bool {
    &&& Pitch::fifths_ok(n.pitch.fifths() + i.fifths())
    &&& octave_fits(transposed(n.pitch, i), n.abs() + i.semis())
}

/// The MIDI number of a note (C-1 is 0), when it fits a byte.
pub open spec fn midi_of(n: Note) -> Option<u8> {
    if 0 <= n.abs() + 12 <= 255 {
        Some((n.abs() + 12) as u8)
    } else {
        None
    }
}

/// The note of a MIDI number, spelled with sharps.
pub open spec fn note_of_midi(m: u8) -> Note {
    Note { octave: (m / 12 - 1) as i16, pitch: sharp_spelling((m % 12) as int) }
}

impl Note {
    /// Semitones above C in octave 0 (middle C is 48).
    pub open spec fn abs(self) -> int {
        self.pitch.semis() + 12 * self.octave
    }

    /// Middle C, C4.
    #[allow(non_snake_case)]
    pub fn MIDDLE_C() -> (r: Note)
        ensures
            r == (Note { octave: 4, pitch: sharp_spelling(0) }),
    {
        Note { octave: 4, pitch: Pitch::C() }
    }

    /// A4, the usual tuning reference.
    #[allow(non_snake_case)]
    pub fn A4() -> (r: Note)
        ensures
            r == (Note { octave: 4, pitch: sharp_spelling(9) }),
    {
        Note { octave: 4, pitch: Pitch::A() }
    }

    /// Creates a note.
    pub fn new(pitch: Pitch, octave: i16) -> (r: Note)
        ensures
            r == (Note { octave, pitch }),
    {
        Note { octave, pitch }
    }

    /// Semitones above C in octave 0, computed without overflow.
    pub fn abs_i64(&self) -> (r: i64)
        ensures
            r == self.abs(),
            -500_000 <= r <= 500_000,
    {
        self.pitch.semis_i64() + 12 * (self.octave as i64)
    }

    /// Signed semitones from `self` to `other`.
    pub fn semitones_to(self, other: Note) -> (r: Semitones)
        requires
            i16::MIN <= other.abs() - self.abs() <= i16::MAX,
        ensures
            r.0 == other.abs() - self.abs(),
    {
        Semitones((other.abs_i64() - self.abs_i64()) as i16)
    }

    /// The note spelled `respelled` at the same height as `self`.
    pub(crate) fn respelled_as(self, respelled: Pitch) -> (r: Note)
        requires
            respelled.pc() == self.pitch.pc(),
            octave_fits(respelled, self.abs()),
        ensures
            r == note_at(respelled, self.abs()),
            r.abs() == self.abs(),
    {
        let s = self.abs_i64();
        let d = s - respelled.semis_i64();
        proof { lemma_same_pc(self.pitch, respelled, self.octave as int); }
        let octave = crate::arith::div_euclid_12(d);
        Note { octave: octave as i16, pitch: respelled }
    }

    /// The same note spelled with sharps or flats (see [`Pitch::respell_with`]).
    pub fn respell_with(self, spelling: Spelling) -> (r: Note)
        requires
            octave_fits(respelled_with(self.pitch, spelling), self.abs()),
        ensures
            r == note_at(respelled_with(self.pitch, spelling), self.abs()),
    {
        self.respelled_as(self.pitch.respell_with(spelling))
    }

    /// The same note with fewer accidentals (see [`Pitch::simplified`]).
    pub fn simplified(self) -> (r: Note)
        requires
            octave_fits(simplified_spec(self.pitch), self.abs()),
        ensures
            r == note_at(simplified_spec(self.pitch), self.abs()),
    {
        self.respelled_as(self.pitch.simplified())
    }

    /// The same note with its enharmonic spelling (see [`Pitch::enharmonic`]).
    pub fn enharmonic(self) -> (r: Note)
        requires
            octave_fits(enharmonic_spec(self.pitch), self.abs()),
        ensures
            r == note_at(enharmonic_spec(self.pitch), self.abs()),
    {
        self.respelled_as(self.pitch.enharmonic())
    }

    /// The note moved by `interval`.
    pub fn transpose(self, interval: Interval) -> (r: Note)
        requires
            can_transpose(self, interval),
        ensures
            r == transposed_note(self, interval),
            r.abs() == self.abs() + interval.semis(),
            r.pitch == transposed(self.pitch, interval),
    {
        proof { use_type_invariant(&interval); }
        let p = self.pitch.transpose(interval);
        let target = self.abs_i64() + interval.semitones_wide();
        proof { lemma_transposed_semis(self.pitch, interval); }
        let octave = crate::arith::div_euclid_12(target - p.semis_i64());
        Note { octave: octave as i16, pitch: p }
    }

    /// The note moved `fifths` steps along the line of fifths, `7 * fifths` semitones up.
    pub fn transpose_fifths(self, fifths: i16) -> (r: Note)
        requires
            i16::MIN <= 7 * fifths <= i16::MAX,
            Pitch::fifths_ok(self.pitch.fifths() + fifths),
            octave_fits(Pitch::from_fifths(self.pitch.fifths() + fifths), self.abs() + 7 * fifths),
        ensures
            r == note_at(Pitch::from_fifths(self.pitch.fifths() + fifths), self.abs() + 7 * fifths),
            r.abs() == self.abs() + 7 * fifths,
    {
        let p = self.pitch.transpose_fifths(fifths);
        let target = self.abs_i64() + 7 * (fifths as i64);
        proof {
            lemma_from_fifths(self.pitch.fifths() + fifths);
            lemma_pc_fifths(self.pitch);
            lemma_pc_fifths(p);
            let k = 4 * p.accidental.offset + crate::pitch::letter_octaves(p.letter)
                - 4 * self.pitch.accidental.offset - crate::pitch::letter_octaves(self.pitch.letter);
            assert(target - p.semis() == 12 * self.octave + 12 * k);
        }
        let octave = crate::arith::div_euclid_12(target - p.semis_i64());
        proof {
            let k = 4 * p.accidental.offset + crate::pitch::letter_octaves(p.letter)
                - 4 * self.pitch.accidental.offset - crate::pitch::letter_octaves(self.pitch.letter);
            vstd::arithmetic::div_mod::lemma_div_multiples_vanish(self.octave + k, 12);
        }
        Note { octave: octave as i16, pitch: p }
    }

    /// The MIDI number of the note (C-1 is 0), or `None` outside `0..=255`.
    pub fn as_midi(self) -> (r: Option<u8>)
        ensures
            r == midi_of(self),
    {
        let v = self.abs_i64() + 12;
        if 0 <= v && v <= 255 {
            Some(v as u8)
        } else {
            None
        }
    }

    /// The MIDI number of the note, or `None` outside `0..=127`.
    pub fn as_midi_strict(self) -> (r: Option<u8>)
        ensures
            r == (match midi_of(self) {
                Some(m) => if m < 128 { Some(m) } else { None },
                None => None,
            }),
    {
        match self.as_midi() {
            Some(m) => if m < 128 { Some(m) } else { None },
            None => None,
        }
    }

    /// The note spelled with sharps that lies `semitones` semitones above C0: the
    /// step that turns a count of equal-tempered semitones into a note.
    pub fn from_semitones_above_c0(semitones: i16) -> (r: Note)
        ensures
            r.octave == semitones as int / 12,
            r.pitch == sharp_spelling(semitones as int % 12),
            r.abs() == semitones,
    {
        let c = crate::arith::rem_euclid_12(semitones as i64);
        let q = crate::arith::div_euclid_12(semitones as i64);
        let pc = match PitchClass::from_chroma(c as u8) {
            Some(pc) => pc,
            None => PitchClass::C,
        };
        let pitch = Pitch::from_pitch_class(pc);
        proof {
            vstd::arithmetic::div_mod::lemma_fundamental_div_mod(semitones as int, 12);
            assert(pitch.semis() == c);
        }
        Note { octave: q as i16, pitch }
    }

    /// The note of a MIDI number, spelled with sharps.
    pub fn from_midi(midi: u8) -> (r: Note)
        ensures
            r == note_of_midi(midi),
    {
        let pc = match PitchClass::from_chroma(midi % 12) {
            Some(pc) => pc,
            None => PitchClass::C,
        };
        let oct = (midi / 12) as i16 - 1;
        Note { octave: oct, pitch: Pitch::from_pitch_class(pc) }
    }

    /// Whether both notes sound the same (C sharp 4 and D flat 4, B sharp 3 and C 4).
    pub fn eq_enharmonic(&self, rhs: &Note) -> (r: bool)
        ensures
            r == (self.abs() == rhs.abs()),
    {
        self.abs_i64() == rhs.abs_i64()
    }

    /// Orders notes by how high they sound.
    pub fn cmp_enharmonic(&self, rhs: &Note) -> (r: core::cmp::Ordering)
        requires
            octave_fits(simplified_spec(self.pitch), self.abs()),
            octave_fits(simplified_spec(rhs.pitch), rhs.abs()),
        ensures
            (r == core::cmp::Ordering::Less) == (self.abs() < rhs.abs()),
            (r == core::cmp::Ordering::Equal) == (self.abs() == rhs.abs()),
            (r == core::cmp::Ordering::Greater) == (self.abs() > rhs.abs()),
    {
        let l = self.simplified();
        let r = rhs.simplified();
        proof {
            lemma_simplified_semis(self.pitch);
            lemma_simplified_semis(rhs.pitch);
        }
        let lc = l.pitch.as_pitch_class().chroma();
        let rc = r.pitch.as_pitch_class().chroma();
        if l.octave < r.octave {
            core::cmp::Ordering::Less
        } else if l.octave > r.octave {
            core::cmp::Ordering::Greater
        } else if lc < rc {
            core::cmp::Ordering::Less
        } else if lc > rc {
            core::cmp::Ordering::Greater
        } else {
            core::cmp::Ordering::Equal
        }
    }
}

/// Whether `a` comes before `b`: by octave, then letter, then accidental.
pub open spec fn note_lt(a: Note, b: Note) -> bool {
    ||| a.octave < b.octave
    ||| (a.octave == b.octave && a.pitch.letter.idx() < b.pitch.letter.idx())
    ||| (a.octave == b.octave && a.pitch.letter.idx() == b.pitch.letter.idx()
        && a.pitch.accidental.offset < b.pitch.accidental.offset)
}

/// Whole octaves between `hi` and `lo` beyond the simple interval between their pitches.
pub open spec fn octaves_between(lo: Note, hi: Note) -> int {
    (hi.abs() - lo.abs() - between_semis(lo.pitch, hi.pitch)) / 12
}

/// The ascending interval from `lo` up to `hi`: the simple interval between their
/// pitches, widened by the whole octaves between them.
pub open spec fn ascending_between(lo: Note, hi: Note) -> Interval {
    Interval::mk(
        between_spec(lo.pitch, hi.pitch).qual(),
        between_number(lo.pitch, hi.pitch) + 7 * octaves_between(lo, hi),
    )
}

/// Whether `hi` lies at least the simple interval between the pitches above `lo`,
/// and the widened number fits an `i16`.
pub open spec fn ascending_ok(lo: Note, hi: Note) -> bool {
    &&& hi.abs() - lo.abs() >= between_semis(lo.pitch, hi.pitch)
    &&& between_number(lo.pitch, hi.pitch) + 7 * octaves_between(lo, hi) <= i16::MAX
}

/// The interval [`Interval::between_notes`] gives: a perfect unison for equal
/// notes, ascending from the earlier note to the later one, descending otherwise.
pub open spec fn between_notes_spec(l: Note, r: Note) -> Interval {
    if l == r {
        Interval::mk(Quality::Perfect, 1)
    } else if note_lt(l, r) {
        ascending_between(l, r)
    } else {
        negated_interval(ascending_between(r, l))
    }
}

/// Whether [`Interval::between_notes`] can measure from `l` to `r`: the later note
/// lies at least the simple interval between the pitches above the earlier one.
pub open spec fn between_notes_ok(l: Note, r: Note) -> bool {
    ||| l == r
    ||| (note_lt(l, r) && ascending_ok(l, r))
    ||| (!note_lt(l, r) && ascending_ok(r, l))
}

/// The ascending interval from `lo` up to `hi`.
fn ascending_interval(lo: Note, hi: Note) -> (r: Interval)
    requires
        ascending_ok(lo, hi),
    ensures
        r == ascending_between(lo, hi),
{
    let base = Interval::between_pitches(lo.pitch, hi.pitch);
    let diff = hi.abs_i64() - lo.abs_i64() - base.semitones_wide();
    let octs = diff / 12;
    let n = base.number().get() as i64 + 7 * octs;
    proof {
        use_type_invariant(&base);
        lemma_shift_octaves(base.qual(), base.num(), octs as int);
    }
    let number = Number::mk_exec(n as i16);
    match Interval::new(base.quality(), number) {
        Some(i) => {
            proof { lemma_mk_of(i); }
            i
        },
        None => base,
    }
}

impl Interval {
    /// The interval from `lhs` to `rhs`: ascending when `lhs` comes first (by
    /// octave, letter and accidental), descending otherwise, and a perfect unison
    /// between equal notes.
    pub fn between_notes(lhs: Note, rhs: Note) -> (r: Interval)
        requires
            between_notes_ok(lhs, rhs),
        ensures
            r == between_notes_spec(lhs, rhs),
    {
        if lhs == rhs {
            let r = Interval::PERFECT_UNISON();
            return r;
        }
        let ls = lhs.pitch.letter.step();
        let rs = rhs.pitch.letter.step();
        let less = lhs.octave < rhs.octave
            || (lhs.octave == rhs.octave && ls < rs)
            || (lhs.octave == rhs.octave && ls == rs && lhs.pitch.accidental.offset < rhs.pitch.accidental.offset);
        if less {
            ascending_interval(lhs, rhs)
        } else {
            let up = ascending_interval(rhs, lhs);
            let r = up.negated();
            proof { lemma_mk_of(r); }
            r
        }
    }
}

impl Note {
    /// The interval from `self` to `other` (see [`Interval::between_notes`]).
    pub fn distance_to(self, other: Note) -> (r: Interval)
        requires
            between_notes_ok(self, other),
        ensures
            r == between_notes_spec(self, other),
    {
        Interval::between_notes(self, other)
    }
}

/// Transposing by one interval and then another reaches the same note as
/// transposing by their sum.
pub proof fn law_transpose_add(n: Note, a: Interval, b: Interval)
    requires
        valid_interval(a.qual(), a.num()),
        valid_interval(b.qual(), b.num()),
        addable(a, b),
        can_transpose(n, a),
        can_transpose(transposed_note(n, a), b),
    ensures
        can_transpose(n, sum_interval(a, b)),
        transposed_note(transposed_note(n, a), b) == transposed_note(n, sum_interval(a, b)),
{
    crate::interval::lemma_sum_interval(a, b);
    let m = transposed_note(n, a);
    lemma_transposed_semis(n.pitch, a);
    assert(m.abs() == n.abs() + a.semis());
    lemma_from_fifths(n.pitch.fifths() + a.fifths());
    assert(m.pitch.fifths() == n.pitch.fifths() + a.fifths());
}

/// The interval `i` moved down by `k` octaves, keeping its quality.
pub open spec fn reduced(i: Interval, k: int) -> Interval {
    Interval::mk(i.qual(), i.num() - 7 * k)
}

/// Whether some number of octaves brings `i` down to an interval that
/// [`Interval::between_pitches`] can report.
pub open spec fn reducible(i: Interval) -> bool {
    exists|k: int| 0 <= k && 7 * k < i.num() && #[trigger] simple_ascending(reduced(i, k))
}

/// Position of a note's letter counted in letter steps from C in octave 0.
pub open spec fn letter_position(n: Note) -> int {
    7 * n.octave + n.pitch.letter.idx()
}

/// Transposing moves a note's letter by the interval's steps.
proof fn lemma_letter_position(n: Note, i: Interval)
    requires
        valid_interval(i.qual(), i.num()),
        can_transpose(n, i),
    ensures
        letter_position(transposed_note(n, i)) == letter_position(n) + crate::interval::steps(i.num()),
        transposed_note(n, i).abs() == n.abs() + i.semis(),
        transposed_note(n, i).pitch.fifths() == n.pitch.fifths() + i.fifths(),
{
    let p = n.pitch;
    let q = transposed_note(n, i);
    lemma_transposed_semis(p, i);
    lemma_from_fifths(p.fifths() + i.fifths());
    crate::interval::lemma_pitch_fifths(p, q.pitch);
    lemma_fifths_semis(i.qual(), i.num());
    assert(q.abs() == n.abs() + i.semis());
    let doct = q.octave - n.octave;
    let didx = q.pitch.letter.idx() - p.letter.idx();
    assert(12 * doct == i.semis() - (q.pitch.semis() - p.semis()));
    assert(7 * doct == crate::interval::steps(i.num()) - didx);
}

/// The semitones between notes (see [`Note::semitones_to`], which gives
/// `other.abs() - self.abs()`): none from a note to itself, reversed when the notes
/// swap, and adding up along a chain of notes.
pub proof fn law_semitones_between(a: Note, b: Note, c: Note)
    ensures
        a.abs() - a.abs() == 0,
        b.abs() - a.abs() == -(a.abs() - b.abs()),
        (b.abs() - a.abs()) + (c.abs() - b.abs()) == c.abs() - a.abs(),
{
}

/// Transposing two notes by the same interval keeps their order: a note that
/// comes before another (by octave, letter, then accidental) still does after.
pub proof fn law_transpose_keeps_order(a: Note, b: Note, i: Interval)
    requires
        valid_interval(i.qual(), i.num()),
        can_transpose(a, i),
        can_transpose(b, i),
        note_lt(a, b),
    ensures
        note_lt(transposed_note(a, i), transposed_note(b, i)),
{
    let a2 = transposed_note(a, i);
    let b2 = transposed_note(b, i);
    lemma_letter_position(a, i);
    lemma_letter_position(b, i);
    if letter_position(a) == letter_position(b) {
        assert(a.octave == b.octave && a.pitch.letter.idx() == b.pitch.letter.idx());
        assert(a.pitch.letter == b.pitch.letter);
        assert(a2.octave == b2.octave && a2.pitch.letter.idx() == b2.pitch.letter.idx());
        assert(a2.pitch.letter == b2.pitch.letter);
        assert(a2.pitch.fifths() - b2.pitch.fifths() == a.pitch.fifths() - b.pitch.fifths());
    }
}

/// The interval from a note to that note transposed by an ascending interval `i` is
/// `i` again, whenever some number of octaves brings `i` down to an interval
/// between pitches within an octave.
pub proof fn law_between_transposed(n: Note, i: Interval)
    requires
        valid_interval(i.qual(), i.num()),
        reducible(i),
        can_transpose(n, i),
    ensures
        between_notes_ok(n, transposed_note(n, i)),
        between_notes_spec(n, transposed_note(n, i)) == i,
        i != Interval::mk(Quality::Perfect, 1) ==> note_lt(n, transposed_note(n, i)),
{
    let k = choose|k: int| 0 <= k && 7 * k < i.num() && #[trigger] simple_ascending(reduced(i, k));
    let j = reduced(i, k);
    let q = transposed_note(n, i);
    let p = n.pitch;
    lemma_mk_of(i);
    crate::interval::lemma_mk(i.qual(), i.num() - 7 * k);
    assert(j.qual() == i.qual() && j.num() == i.num() - 7 * k);
    assert(i.num() >= 1);
    lemma_shift_octaves(i.qual(), i.num(), -k);
    assert(j.semis() == i.semis() - 12 * k);
    lemma_fifths_semis(i.qual(), i.num());
    lemma_fifths_semis(j.qual(), j.num());
    assert(j.fifths() == i.fifths());
    lemma_letter_position(n, i);
    crate::interval::law_between_transpose(p, j);
    assert(transposed(p, j) == q.pitch);
    crate::interval::lemma_between_parts(p, q.pitch);
    assert(between_number(p, q.pitch) == j.num());
    assert(between_semis(p, q.pitch) == j.semis());
    assert(octaves_between(n, q) == k) by {
        assert(q.abs() - n.abs() - between_semis(p, q.pitch) == 12 * k);
        vstd::arithmetic::div_mod::lemma_div_multiples_vanish(k, 12);
    }
    if i.num() == 1 {
        assert(k == 0);
        assert(q.octave == n.octave);
        assert(q.pitch.letter == p.letter);
        lemma_transposed_semis(p, i);
        if i.semis() == 0 {
            assert(i.qual() == Quality::Perfect);
            assert(q.pitch.accidental == p.accidental);
            assert(q == n);
        } else {
            assert(note_lt(n, q));
        }
    } else {
        assert(note_lt(n, q));
    }
    assert(ascending_between(n, q) == Interval::mk(i.qual(), i.num()));
}

/// The interval from a note to that note transposed down by `i` is `i` descending,
/// under the same conditions as [`law_between_transposed`].
pub proof fn law_between_transposed_down(n: Note, i: Interval)
    requires
        valid_interval(i.qual(), i.num()),
        reducible(i),
        i != Interval::mk(Quality::Perfect, 1),
        can_transpose(n, negated_interval(i)),
    ensures
        between_notes_ok(n, transposed_note(n, negated_interval(i))),
        between_notes_spec(n, transposed_note(n, negated_interval(i))) == negated_interval(i),
{
    let d = negated_interval(i);
    crate::interval::lemma_negated_interval(i);
    let q = transposed_note(n, d);
    lemma_letter_position(n, d);
    crate::pitch::lemma_fifths_roundtrip(n.pitch);
    lemma_from_fifths(q.pitch.fifths() + i.fifths());
    assert(transposed(q.pitch, i) == n.pitch);
    assert(can_transpose(q, i));
    lemma_transposed_semis(q.pitch, i);
    assert(transposed_note(q, i) == n);
    law_between_transposed(q, i);
    assert(note_lt(q, n));
    assert(n != q);
    assert(!note_lt(n, q));
}

/// The MIDI number of the note of a MIDI number is that number.
pub proof fn law_midi_roundtrip(m: u8)
    ensures
        midi_of(note_of_midi(m)) == Some(m),
{
    lemma_spellings((m % 12) as int);
}

impl core::ops::Add<Interval> for Note {
    type Output = Note;

    /// The note transposed by `rhs`.
    fn add(self, rhs: Interval) -> (r: Note) {
        self.transpose(rhs)
    }
}

impl vstd::std_specs::ops::AddSpecImpl<Interval> for Note {
    open spec fn obeys_add_spec() -> bool {
        true
    }

    open spec fn add_req(self, rhs: Interval) -> bool {
        can_transpose(self, rhs)
    }

    open spec fn add_spec(self, rhs: Interval) -> Note {
        transposed_note(self, rhs)
    }
}

impl core::ops::Sub<Interval> for Note {
    type Output = Note;

    /// The note transposed by the negated `rhs`.
    fn sub(self, rhs: Interval) -> (r: Note) {
        let n = rhs.negated();
        proof { crate::interval::lemma_mk_of(n); }
        self.transpose(n)
    }
}

impl vstd::std_specs::ops::SubSpecImpl<Interval> for Note {
    open spec fn obeys_sub_spec() -> bool {
        true
    }

    open spec fn sub_req(self, rhs: Interval) -> bool {
        can_transpose(self, crate::interval::negated_interval(rhs))
    }

    open spec fn sub_spec(self, rhs: Interval) -> Note {
        transposed_note(self, crate::interval::negated_interval(rhs))
    }
}

impl From<Note> for Pitch {
    /// The pitch of a note, without its octave.
    fn from(note: Note) -> (r: Pitch) {
        note.pitch
    }
}

impl vstd::std_specs::convert::FromSpecImpl<Note> for Pitch {
    open spec fn obeys_from_spec() -> bool {
        true
    }

    open spec fn from_spec(note: Note) -> Pitch {
        note.pitch
    }
}

/// Pitches of the same pitch class differ by whole octaves.
proof fn lemma_same_pc(p: Pitch, q: Pitch, octave: int)
    requires
        p.pc() == q.pc(),
    ensures
        (p.semis() + 12 * octave - q.semis()) % 12 == 0,
        (p.semis() + 12 * octave - q.semis()) / 12 * 12 == p.semis() + 12 * octave - q.semis(),
{
    let a = p.semis();
    let b = q.semis();
    let k = a / 12 - b / 12 + octave;
    assert(a + 12 * octave - b == 12 * k);
    vstd::arithmetic::div_mod::lemma_mod_multiples_vanish(k, 0, 12);
    vstd::arithmetic::div_mod::lemma_div_multiples_vanish(k, 12);
}

/// Transposing a pitch moves it by the interval's semitones, up to whole octaves.
pub proof fn lemma_transposed_semis(p: Pitch, i: Interval)
    requires
        valid_interval(i.qual(), i.num()),
        Pitch::fifths_ok(p.fifths() + i.fifths()),
    ensures
        (p.semis() + i.semis() - transposed(p, i).semis()) % 12 == 0,
        (p.semis() + i.semis() - transposed(p, i).semis()) / 12 * 12
            == p.semis() + i.semis() - transposed(p, i).semis(),
{
    let q = transposed(p, i);
    lemma_from_fifths(p.fifths() + i.fifths());
    lemma_pc_fifths(p);
    lemma_pc_fifths(q);
    lemma_fifths_semis(i.qual(), i.num());
    let kp = 4 * p.accidental.offset + crate::pitch::letter_octaves(p.letter);
    let kq = 4 * q.accidental.offset + crate::pitch::letter_octaves(q.letter);
    let m = 7 * crate::interval::steps(i.num()) - 4 * i.semis() + kq - kp;
    assert(p.semis() + i.semis() - q.semis() == 12 * m);
    vstd::arithmetic::div_mod::lemma_mod_multiples_vanish(m, 0, 12);
    vstd::arithmetic::div_mod::lemma_div_multiples_vanish(m, 12);
}

/// Transposing a pitch moves its pitch class by the interval's semitones.
pub proof fn law_transpose_semitones(p: Pitch, i: Interval)
    requires
        valid_interval(i.qual(), i.num()),
        Pitch::fifths_ok(p.fifths() + i.fifths()),
    ensures
        (transposed(p, i).semis() - p.semis()) % 12 == i.semis() % 12,
{
    lemma_transposed_semis(p, i);
    let q = transposed(p, i);
    let m = (p.semis() + i.semis() - q.semis()) / 12;
    assert(q.semis() - p.semis() == i.semis() - 12 * m);
    vstd::arithmetic::div_mod::lemma_mod_multiples_vanish(-m, i.semis(), 12);
}

/// A simplified pitch lies within the octave above C: its semitones are its chroma.
pub proof fn lemma_simplified_semis(p: Pitch)
    ensures
        simplified_spec(p).semis() == p.pc(),
        simplified_spec(p).pc() == p.pc(),
{
    lemma_spellings(p.pc());
}

} // verus!
