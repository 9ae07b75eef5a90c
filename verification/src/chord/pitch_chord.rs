//! Chords of pitches: a root, a shape above it, and a bass pitch.

use vstd::prelude::*;
use crate::chord::known::{first_known, KnownChord};
use crate::chord::parse::has_number;
use crate::chord::shape::{
    interval_with_number, ivl, ivls_sorted, repeated_step, any_repeated_step, consonant_shape, sort_intervals, ChordShape,
};
use crate::enharmonic::EnharmonicEq;
use crate::harmony::{key_fits, key_sharps, respelled_in_key, Key};
use crate::interval::{between_spec, lemma_mk_of, negated_interval, transposed, Interval, Number, Quality};
use crate::pcset::PitchClassSet;
use crate::note::Note;
use crate::pitch::{respelled_with, Pitch, PitchClass, Spelling};

verus! {

/// Whether `p` transposed by `i` is a pitch the library can spell.
pub open spec fn transposable(p: Pitch, i: Interval) -> bool {
    Pitch::fifths_ok(p.fifths() + i.fifths())
}

/// Whether the root transposed by each interval of `s` can be spelled.
pub open spec fn tones_fit(root: Pitch, s: Seq<Interval>) -> bool {
    forall|k: int| 0 <= k < s.len() ==> transposable(root, #[trigger] s[k])
}

/// The chord tones: the root transposed by each interval of the shape.
pub open spec fn chord_tones(root: Pitch, s: Seq<Interval>) -> Seq<Pitch> {
    Seq::new(s.len(), |k: int| transposed(root, s[k]))
}

/// The position of the first pitch of `ps` equal to `x`, or the length.
pub open spec fn position_in(ps: Seq<Pitch>, x: Pitch) -> int
    decreases ps.len(),
{
    if ps.len() == 0 {
        0
    } else if ps[0] == x {
        0
    } else {
        1 + position_in(ps.drop_first(), x)
    }
}

/// The pitches of a chord from the bass up: the chord tones turned so that the
/// bass comes first, or the bass before the chord tones when it is not one of them.
pub open spec fn voiced_pitches(root: Pitch, s: Seq<Interval>, bass: Pitch) -> Seq<Pitch> {
    let t = chord_tones(root, s);
    let k = position_in(t, bass);
    if k < t.len() {
        t.subrange(k, t.len() as int) + t.subrange(0, k)
    } else {
        seq![bass] + t
    }
}

/// A chord made with chord tone `n` in the bass (see [`PitchChord::with_inversion`])
/// is in inversion `n` (see [`PitchChord::inversion`]), when its chord tones are
/// distinct pitches.
pub proof fn law_inversion_roundtrip(root: Pitch, s: Seq<Interval>, n: int)
    requires
        0 <= n < s.len(),
        chord_tones(root, s).no_duplicates(),
    ensures
        position_in(chord_tones(root, s), transposed(root, s[n])) == n,
{
    let t = chord_tones(root, s);
    let x = transposed(root, s[n]);
    lemma_position_in(t, x);
    assert(t[n] == x);
    assert(t.contains(x));
    let p = position_in(t, x);
    if p > n {
        assert(t[n] != x);
    }
    if p < n {
        assert(t[p] == t[n]);
    }
}

/// Whether pitch `a` comes no later than `b`: by letter, then by accidental.
pub open spec fn pitch_le(a: Pitch, b: Pitch) -> bool {
    a.letter.idx() < b.letter.idx() || (a.letter.idx() == b.letter.idx() && a.accidental.offset <= b.accidental.offset)
}

/// The octave of the `i`-th of the pitches `ps` stacked from `bass_octave`: each
/// pitch that does not come after the one below it starts a new octave.
pub open spec fn stacked_octave(ps: Seq<Pitch>, bass_octave: int, i: int) -> int
    decreases i,
{
    if i <= 0 {
        bass_octave
    } else {
        stacked_octave(ps, bass_octave, i - 1) + if pitch_le(ps[i], ps[i - 1]) { 1int } else { 0int }
    }
}

/// The first pitch equal to `x` is at the position `position_in` gives.
pub proof fn lemma_position_in(ps: Seq<Pitch>, x: Pitch)
    ensures
        0 <= position_in(ps, x) <= ps.len(),
        position_in(ps, x) < ps.len() <==> ps.contains(x),
        position_in(ps, x) < ps.len() ==> ps[position_in(ps, x)] == x,
        forall|j: int| 0 <= j < position_in(ps, x) ==> ps[j] != x,
    decreases ps.len(),
{
    if ps.len() > 0 && ps[0] != x {
        let t = ps.drop_first();
        lemma_position_in(t, x);
        assert forall|j: int| 0 <= j < position_in(ps, x) implies ps[j] != x by {
            if j > 0 {
                assert(ps[j] == t[j - 1]);
            }
        }
        if ps.contains(x) {
            let k = choose|k: int| 0 <= k < ps.len() && ps[k] == x;
            assert(t[k - 1] == ps[k]);
        }
        if t.contains(x) {
            let k = choose|k: int| 0 <= k < t.len() && t[k] == x;
            assert(ps[k + 1] == t[k]);
        }
    } else if ps.len() > 0 {
        assert(ps[0] == x);
    }
}

/// Whether pitch `a` comes no later than `b`: by letter, then by accidental.
fn pitch_not_after(a: Pitch, b: Pitch) -> (r: bool)
    ensures
        r == pitch_le(a, b),
{
    let la = a.letter().step();
    let lb = b.letter().step();
    la < lb || (la == lb && a.accidental.offset <= b.accidental.offset)
}

/// Octaves never go down as the pitches are stacked.
proof fn lemma_stacked_octave_grows(ps: Seq<Pitch>, bass_octave: int, i: int, j: int)
    requires
        i <= j,
    ensures
        stacked_octave(ps, bass_octave, i) <= stacked_octave(ps, bass_octave, j),
    decreases j - i,
{
    if i < j {
        lemma_stacked_octave_grows(ps, bass_octave, i, j - 1);
    }
}

/// A chord of pitches: a root, the shape of the chord above it, and the pitch in
/// the bass (the root, another chord tone, or a pitch outside the chord).
#[derive(Debug, Eq, PartialEq, Hash)]
pub struct PitchChord {
    root: Pitch,
    shape: ChordShape,
    bass: Pitch,
}

impl Clone for PitchChord {
    fn clone(&self) -> (r: PitchChord)
        ensures
            r.root_spec() == self.root_spec(),
            r.shape_spec() == self.shape_spec(),
            r.bass_spec() == self.bass_spec(),
    {
        PitchChord { root: self.root, shape: self.shape.clone(), bass: self.bass }
    }
}

impl PitchChord {
    /// The root.
    pub closed spec fn root_spec(self) -> Pitch {
        self.root
    }

    /// The intervals of the shape.
    pub closed spec fn shape_spec(self) -> Seq<Interval> {
        self.shape.ivls()
    }

    /// The bass.
    pub closed spec fn bass_spec(self) -> Pitch {
        self.bass
    }

    /// The chord of `shape` on `root`, with the root in the bass.
    pub fn new(root: Pitch, shape: ChordShape) -> (r: PitchChord)
        ensures
            r.root_spec() == root,
            r.shape_spec() == shape.ivls(),
            r.bass_spec() == root,
    {
        PitchChord::with_bass(root, shape, root)
    }

    /// The chord of `shape` on `root` with the chord tone `inversion` (0 for the
    /// root) in the bass, or `None` when the shape has no such tone.
    pub fn with_inversion(root: Pitch, shape: ChordShape, inversion: u8) -> (r: Option<PitchChord>)
        requires
            inversion < shape.ivls().len() ==> transposable(root, shape.ivls()[inversion as int]),
        ensures
            r is Some <==> inversion < shape.ivls().len(),
            r matches Some(c) ==> c.root_spec() == root && c.shape_spec() == shape.ivls()
                && c.bass_spec() == transposed(root, shape.ivls()[inversion as int]),
    {
        let ivls = shape.intervals();
        if (inversion as usize) < ivls.len() {
            let bass_interval = ivls[inversion as usize];
            let bass = root.transpose(bass_interval);
            Some(PitchChord::with_bass(root, shape, bass))
        } else {
            None
        }
    }

    /// The chord of `shape` on `root` with `bass` in the bass.
    pub fn with_bass(root: Pitch, shape: ChordShape, bass: Pitch) -> (r: PitchChord)
        ensures
            r.root_spec() == root,
            r.shape_spec() == shape.ivls(),
            r.bass_spec() == bass,
    {
        PitchChord { root, shape, bass }
    }

    /// The root.
    pub fn root(&self) -> (r: Pitch)
        ensures
            r == self.root_spec(),
    {
        self.root
    }

    /// The shape.
    pub fn shape(&self) -> (r: &ChordShape)
        ensures
            r.ivls() == self.shape_spec(),
    {
        &self.shape
    }

    /// The bass.
    pub fn bass(&self) -> (r: Pitch)
        ensures
            r == self.bass_spec(),
    {
        self.bass
    }

    /// The chord tones, in the order of the shape.
    fn tones(&self) -> (r: Vec<Pitch>)
        requires
            tones_fit(self.root_spec(), self.shape_spec()),
        ensures
            r@ == chord_tones(self.root_spec(), self.shape_spec()),
    {
        let ivls = self.shape.intervals();
        let mut tones: Vec<Pitch> = Vec::new();
        let mut k: usize = 0;
        while k < ivls.len()
            invariant
                k <= ivls@.len(),
                ivls@ == self.shape_spec(),
                tones_fit(self.root_spec(), self.shape_spec()),
                tones@ == chord_tones(self.root_spec(), ivls@.take(k as int)),
            decreases ivls@.len() - k,
        {
            let p = self.root.transpose(ivls[k]);
            tones.push(p);
            k = k + 1;
            proof {
                assert(tones@ =~= chord_tones(self.root_spec(), ivls@.take(k as int)));
            }
        }
        proof { assert(ivls@.take(k as int) =~= ivls@); }
        tones
    }

    /// The pitches of the chord from the bass up: the chord tones turned so that
    /// the bass comes first, or the bass before them when it is not a chord tone.
    pub fn pitches(&self) -> (r: Vec<Pitch>)
        requires
            tones_fit(self.root_spec(), self.shape_spec()),
        ensures
            r@ == voiced_pitches(self.root_spec(), self.shape_spec(), self.bass_spec()),
    {
        let tones = self.tones();
        let ghost t = tones@;
        let n = tones.len();
        let mut idx: usize = 0;
        proof { lemma_position_in(t, self.bass); }
        while idx < n && tones[idx] != self.bass
            invariant
                idx <= n,
                n == t.len(),
                t == tones@,
                forall|j: int| 0 <= j < idx ==> t[j] != self.bass,
                0 <= position_in(t, self.bass) <= t.len(),
                position_in(t, self.bass) < t.len() ==> t[position_in(t, self.bass)] == self.bass,
                forall|j: int| 0 <= j < position_in(t, self.bass) ==> t[j] != self.bass,
            decreases n - idx,
        {
            idx = idx + 1;
        }
        let mut out: Vec<Pitch> = Vec::new();
        if idx < n {
            proof {
                assert(idx == position_in(t, self.bass));
            }
            let mut j: usize = idx;
            while j < n
                invariant
                    idx <= j <= n,
                    n == t.len(),
                    t == tones@,
                    out@ == t.subrange(idx as int, j as int),
                decreases n - j,
            {
                out.push(tones[j]);
                j = j + 1;
                proof { assert(out@ =~= t.subrange(idx as int, j as int)); }
            }
            let mut j: usize = 0;
            while j < idx
                invariant
                    j <= idx < n,
                    n == t.len(),
                    t == tones@,
                    out@ == t.subrange(idx as int, n as int) + t.subrange(0, j as int),
                decreases idx - j,
            {
                out.push(tones[j]);
                j = j + 1;
                proof { assert(out@ =~= t.subrange(idx as int, n as int) + t.subrange(0, j as int)); }
            }
        } else {
            proof {
                assert(position_in(t, self.bass) == n);
            }
            out.push(self.bass);
            let mut j: usize = 0;
            while j < n
                invariant
                    j <= n,
                    n == t.len(),
                    t == tones@,
                    out@ == seq![self.bass] + t.subrange(0, j as int),
                decreases n - j,
            {
                out.push(tones[j]);
                j = j + 1;
                proof { assert(out@ =~= seq![self.bass] + t.subrange(0, j as int)); }
            }
            proof { assert(t.subrange(0, n as int) =~= t); }
        }
        out
    }

    /// The notes of the chord from the bass up, with the bass in `bass_octave`: a
    /// pitch that does not come after the one below it starts the next octave.
    pub fn notes(&self, bass_octave: i16) -> (r: Vec<Note>)
        requires
            tones_fit(self.root_spec(), self.shape_spec()),
            stacked_octave(
                voiced_pitches(self.root_spec(), self.shape_spec(), self.bass_spec()),
                bass_octave as int,
                voiced_pitches(self.root_spec(), self.shape_spec(), self.bass_spec()).len() - 1,
            ) <= i16::MAX,
        ensures
            r@.len() == voiced_pitches(self.root_spec(), self.shape_spec(), self.bass_spec()).len(),
            forall|i: int| 0 <= i < r@.len() ==> #[trigger] r@[i] == (Note {
                pitch: voiced_pitches(self.root_spec(), self.shape_spec(), self.bass_spec())[i],
                octave: stacked_octave(
                    voiced_pitches(self.root_spec(), self.shape_spec(), self.bass_spec()),
                    bass_octave as int,
                    i,
                ) as i16,
            }),
    {
        let ps = self.pitches();
        let ghost v = ps@;
        let n = ps.len();
        let mut out: Vec<Note> = Vec::new();
        let mut octave = bass_octave;
        let mut k: usize = 0;
        while k < n
            invariant
                k <= n,
                n == v.len(),
                v == ps@,
                stacked_octave(v, bass_octave as int, n - 1) <= i16::MAX,
                out@.len() == k,
                forall|i: int| 0 <= i < k ==> #[trigger] out@[i] == (Note {
                    pitch: v[i],
                    octave: stacked_octave(v, bass_octave as int, i) as i16,
                }),
                k == 0 ==> octave == bass_octave,
                k > 0 ==> octave == stacked_octave(v, bass_octave as int, k - 1),
            decreases n - k,
        {
            let p = ps[k];
            if k > 0 {
                let below = ps[k - 1];
                proof { lemma_stacked_octave_grows(v, bass_octave as int, k as int, n - 1); }
                if pitch_not_after(p, below) {
                    octave = octave + 1;
                }
            }
            out.push(Note::new(p, octave));
            k = k + 1;
        }
        out
    }

    /// The chord transposed by `interval`.
    pub fn transpose(&self, interval: Interval) -> (r: PitchChord)
        requires
            transposable(self.root_spec(), interval),
            transposable(self.bass_spec(), interval),
        ensures
            r.root_spec() == transposed(self.root_spec(), interval),
            r.shape_spec() == self.shape_spec(),
            r.bass_spec() == transposed(self.bass_spec(), interval),
    {
        PitchChord {
            root: self.root.transpose(interval),
            shape: self.shape.clone(),
            bass: self.bass.transpose(interval),
        }
    }

    /// The chord moved so that its root is spelled with `spelling`.
    pub fn respell_with(&self, spelling: Spelling) -> (r: PitchChord)
        requires
            transposable(self.root_spec(), between_spec(self.root_spec(), respelled_with(self.root_spec(), spelling))),
            transposable(self.bass_spec(), between_spec(self.root_spec(), respelled_with(self.root_spec(), spelling))),
        ensures
            r.root_spec() == transposed(self.root_spec(), between_spec(self.root_spec(), respelled_with(self.root_spec(), spelling))),
            r.shape_spec() == self.shape_spec(),
            r.bass_spec() == transposed(self.bass_spec(), between_spec(self.root_spec(), respelled_with(self.root_spec(), spelling))),
    {
        let root = self.root.respell_with(spelling);
        let transposition = self.root.distance_to(root);
        self.transpose(transposition)
    }

    /// The chord moved so that its root is spelled as in `key`.
    pub fn respell_in_key(&self, key: Key) -> (r: PitchChord)
        requires
            key_fits(key_sharps(key)),
            transposable(self.root_spec(), between_spec(self.root_spec(), respelled_in_key(self.root_spec(), key_sharps(key)))),
            transposable(self.bass_spec(), between_spec(self.root_spec(), respelled_in_key(self.root_spec(), key_sharps(key)))),
        ensures
            r.root_spec() == transposed(self.root_spec(), between_spec(self.root_spec(), respelled_in_key(self.root_spec(), key_sharps(key)))),
            r.shape_spec() == self.shape_spec(),
            r.bass_spec() == transposed(self.bass_spec(), between_spec(self.root_spec(), respelled_in_key(self.root_spec(), key_sharps(key)))),
    {
        let root = self.root.respell_in_key(key);
        let transposition = self.root.distance_to(root);
        self.transpose(transposition)
    }

    /// Which chord tone, counted from the root as 0, is in the bass; 0 when the
    /// bass is not a chord tone.
    pub fn inversion(&self) -> (r: u8)
        requires
            tones_fit(self.root_spec(), self.shape_spec()),
        ensures
            r == (if position_in(chord_tones(self.root_spec(), self.shape_spec()), self.bass_spec())
                < self.shape_spec().len() {
                position_in(chord_tones(self.root_spec(), self.shape_spec()), self.bass_spec()) % 256
            } else {
                0
            }),
    {
        let tones = self.tones();
        let ghost t = tones@;
        proof { lemma_position_in(t, self.bass); }
        let mut idx: usize = 0;
        while idx < tones.len() && tones[idx] != self.bass
            invariant
                idx <= t.len(),
                t == tones@,
                forall|j: int| 0 <= j < idx ==> t[j] != self.bass,
            decreases t.len() - idx,
        {
            idx = idx + 1;
        }
        if idx < tones.len() {
            proof { assert(idx == position_in(t, self.bass)); }
            (idx % 256) as u8
        } else {
            0
        }
    }

    /// Whether the bass is a chord tone other than the root.
    pub fn in_inversion(&self) -> (r: bool)
        requires
            tones_fit(self.root_spec(), self.shape_spec()),
        ensures
            r == (position_in(chord_tones(self.root_spec(), self.shape_spec()), self.bass_spec())
                < self.shape_spec().len()
                && position_in(chord_tones(self.root_spec(), self.shape_spec()), self.bass_spec()) % 256 != 0),
    {
        self.inversion() != 0
    }

    /// Whether the bass is not a chord tone (a slash chord).
    pub fn is_slash(&self) -> (r: bool)
        requires
            tones_fit(self.root_spec(), self.shape_spec()),
        ensures
            r == !chord_tones(self.root_spec(), self.shape_spec()).contains(self.bass_spec()),
    {
        let tones = self.tones();
        let mut k: usize = 0;
        while k < tones.len()
            invariant
                k <= tones@.len(),
                tones@ == chord_tones(self.root_spec(), self.shape_spec()),
                forall|j: int| 0 <= j < k ==> tones@[j] != self.bass_spec(),
            decreases tones@.len() - k,
        {
            if tones[k] == self.bass {
                proof { assert(tones@[k as int] == self.bass_spec()); }
                return false;
            }
            k = k + 1;
        }
        true
    }

    /// The number of distinct places in the chord: the chord tones, and the bass
    /// when it is not one of them.
    pub fn len(&self) -> (r: usize)
        requires
            tones_fit(self.root_spec(), self.shape_spec()),
            self.shape_spec().len() < usize::MAX,
        ensures
            r == self.shape_spec().len() + if chord_tones(self.root_spec(), self.shape_spec()).contains(self.bass_spec()) { 0int } else { 1int },
    {
        let n = self.shape.len();
        if self.is_slash() { n + 1 } else { n }
    }

    /// The chord tone at `degree` (such as the third), if the shape has one.
    pub fn pitch_at(&self, degree: Number) -> (r: Option<Pitch>)
        requires
            tones_fit(self.root_spec(), self.shape_spec()),
        ensures
            r == (match interval_with_number(self.shape_spec(), degree.value()) {
                Some(i) => Some(transposed(self.root_spec(), i)),
                None => None,
            }),
    {
        match self.shape.interval_of(degree) {
            Some(i) => {
                proof {
                    crate::chord::shape::lemma_first_with_number(self.shape_spec(), degree.value());
                    let k = crate::chord::parse::first_with_number(self.shape_spec(), degree.value());
                    assert(transposable(self.root_spec(), self.shape_spec()[k]));
                }
                Some(self.root.transpose(i))
            },
            None => None,
        }
    }

    /// The third of the chord, if any.
    pub fn third(&self) -> (r: Option<Pitch>)
        requires
            tones_fit(self.root_spec(), self.shape_spec()),
        ensures
            r == (match interval_with_number(self.shape_spec(), 3) {
                Some(i) => Some(transposed(self.root_spec(), i)),
                None => None,
            }),
    {
        self.pitch_at(Number::THIRD())
    }

    /// The fifth of the chord, if any.
    pub fn fifth(&self) -> (r: Option<Pitch>)
        requires
            tones_fit(self.root_spec(), self.shape_spec()),
        ensures
            r == (match interval_with_number(self.shape_spec(), 5) {
                Some(i) => Some(transposed(self.root_spec(), i)),
                None => None,
            }),
    {
        self.pitch_at(Number::FIFTH())
    }

    /// The seventh of the chord, if any.
    pub fn seventh(&self) -> (r: Option<Pitch>)
        requires
            tones_fit(self.root_spec(), self.shape_spec()),
        ensures
            r == (match interval_with_number(self.shape_spec(), 7) {
                Some(i) => Some(transposed(self.root_spec(), i)),
                None => None,
            }),
    {
        self.pitch_at(Number::SEVENTH())
    }

    /// The ninth of the chord, if any.
    pub fn ninth(&self) -> (r: Option<Pitch>)
        requires
            tones_fit(self.root_spec(), self.shape_spec()),
        ensures
            r == (match interval_with_number(self.shape_spec(), 9) {
                Some(i) => Some(transposed(self.root_spec(), i)),
                None => None,
            }),
    {
        self.pitch_at(Number::NINTH())
    }

    /// The eleventh of the chord, if any.
    pub fn eleventh(&self) -> (r: Option<Pitch>)
        requires
            tones_fit(self.root_spec(), self.shape_spec()),
        ensures
            r == (match interval_with_number(self.shape_spec(), 11) {
                Some(i) => Some(transposed(self.root_spec(), i)),
                None => None,
            }),
    {
        self.pitch_at(Number::ELEVENTH())
    }

    /// The thirteenth of the chord, if any.
    pub fn thirteenth(&self) -> (r: Option<Pitch>)
        requires
            tones_fit(self.root_spec(), self.shape_spec()),
        ensures
            r == (match interval_with_number(self.shape_spec(), 13) {
                Some(i) => Some(transposed(self.root_spec(), i)),
                None => None,
            }),
    {
        self.pitch_at(Number::THIRTEENTH())
    }

    /// Whether the shape has three tones.
    pub fn is_triad(&self) -> (r: bool)
        ensures
            r == (self.shape_spec().len() == 3),
    {
        self.shape.is_triad()
    }

    /// Whether the shape has a seventh.
    pub fn is_seventh(&self) -> (r: bool)
        ensures
            r == has_number(self.shape_spec(), 7),
    {
        self.shape.is_seventh()
    }

    /// Whether the shape has a ninth, an eleventh or a thirteenth.
    pub fn is_extended(&self) -> (r: bool)
        ensures
            r == (has_number(self.shape_spec(), 9) || has_number(self.shape_spec(), 11) || has_number(self.shape_spec(), 13)),
    {
        self.shape.is_extended()
    }

    /// Whether the shape has a third and a fifth.
    pub fn contains_triad(&self) -> (r: bool)
        ensures
            r == (has_number(self.shape_spec(), 3) && has_number(self.shape_spec(), 5)),
    {
        self.shape.contains_triad()
    }

    /// Whether the shape has a major third and a perfect fifth.
    pub fn is_major(&self) -> (r: bool)
        ensures
            r == (self.shape_spec().contains(ivl(Quality::Major, 3)) && self.shape_spec().contains(ivl(Quality::Perfect, 5))),
    {
        self.shape.is_major()
    }

    /// Whether the shape has a minor third and a perfect fifth.
    pub fn is_minor(&self) -> (r: bool)
        ensures
            r == (self.shape_spec().contains(ivl(Quality::Minor, 3)) && self.shape_spec().contains(ivl(Quality::Perfect, 5))),
    {
        self.shape.is_minor()
    }

    /// Whether the shape has a minor third and a diminished fifth.
    pub fn is_diminished(&self) -> (r: bool)
        ensures
            r == (self.shape_spec().contains(ivl(Quality::Minor, 3)) && self.shape_spec().contains(ivl(Quality::Diminished(1), 5))),
    {
        self.shape.is_diminished()
    }

    /// Whether the shape has a major third and an augmented fifth.
    pub fn is_augmented(&self) -> (r: bool)
        ensures
            r == (self.shape_spec().contains(ivl(Quality::Major, 3)) && self.shape_spec().contains(ivl(Quality::Augmented(1), 5))),
    {
        self.shape.is_augmented()
    }

    /// Whether the shape has no third, but a major second or a perfect fourth.
    pub fn is_suspended(&self) -> (r: bool)
        ensures
            r == (!has_number(self.shape_spec(), 3) && (self.shape_spec().contains(ivl(Quality::Major, 2))
                || self.shape_spec().contains(ivl(Quality::Perfect, 4)))),
    {
        self.shape.is_suspended()
    }

    /// Whether the shape has a major third and a minor seventh.
    pub fn is_dominant(&self) -> (r: bool)
        ensures
            r == (self.shape_spec().contains(ivl(Quality::Major, 3)) && self.shape_spec().contains(ivl(Quality::Minor, 7))),
    {
        self.shape.is_dominant()
    }

    /// Whether the shape has a major third, a perfect fifth and a minor seventh.
    pub fn is_dominant_seventh(&self) -> (r: bool)
        ensures
            r == (self.shape_spec().contains(ivl(Quality::Major, 3)) && self.shape_spec().contains(ivl(Quality::Perfect, 5))
                && self.shape_spec().contains(ivl(Quality::Minor, 7))),
    {
        self.shape.is_dominant_seventh()
    }

    /// Whether the shape has a minor third, a diminished fifth and a minor seventh.
    pub fn is_half_diminished(&self) -> (r: bool)
        ensures
            r == (self.shape_spec().contains(ivl(Quality::Minor, 3)) && self.shape_spec().contains(ivl(Quality::Diminished(1), 5))
                && self.shape_spec().contains(ivl(Quality::Minor, 7))),
    {
        self.shape.is_half_diminished()
    }

    /// Whether the shape has a minor third, a diminished fifth and a diminished seventh.
    pub fn is_diminished_seventh(&self) -> (r: bool)
        ensures
            r == (self.shape_spec().contains(ivl(Quality::Minor, 3)) && self.shape_spec().contains(ivl(Quality::Diminished(1), 5))
                && self.shape_spec().contains(ivl(Quality::Diminished(1), 7))),
    {
        self.shape.is_diminished_seventh()
    }

    /// Whether the chord's shape is consonant.
    pub fn is_consonant(&self) -> (r: bool)
        ensures
            r == consonant_shape(self.shape_spec()),
    {
        self.shape.is_consonant()
    }

    /// Whether the degree `number` occurs twice in a row in the shape.
    pub fn has_repeated_chord_step(&self, number: Number) -> (r: bool)
        ensures
            r == (number.value() > 0 && repeated_step(self.shape_spec(), number.value())),
    {
        self.shape.has_repeated_chord_step(number)
    }

    /// Whether any degree occurs twice in a row in the shape.
    pub fn has_any_repeated_diatonic_note(&self) -> (r: bool)
        ensures
            r == any_repeated_step(self.shape_spec()),
    {
        self.shape.has_any_repeated_diatonic_note()
    }

    /// Whether `pitch` is a chord tone or the bass.
    pub fn contains(&self, pitch: Pitch) -> (r: bool)
        requires
            tones_fit(self.root_spec(), self.shape_spec()),
        ensures
            r == (chord_tones(self.root_spec(), self.shape_spec()).contains(pitch) || pitch == self.bass_spec()),
    {
        let tones = self.tones();
        let mut k: usize = 0;
        while k < tones.len()
            invariant
                k <= tones@.len(),
                tones@ == chord_tones(self.root_spec(), self.shape_spec()),
                forall|j: int| 0 <= j < k ==> tones@[j] != pitch,
            decreases tones@.len() - k,
        {
            if tones[k] == pitch {
                proof { assert(tones@[k as int] == pitch); }
                return true;
            }
            k = k + 1;
        }
        self.bass == pitch
    }

    /// The pitch classes of the chord tones and the bass.
    pub fn pitch_class_set(&self) -> (r: PitchClassSet)
        requires
            tones_fit(self.root_spec(), self.shape_spec()),
        ensures
            forall|c: int| #[trigger] r.has(c) <==> (self.bass_spec().pc() == c
                || exists|k: int| 0 <= k < self.shape_spec().len()
                    && (#[trigger] chord_tones(self.root_spec(), self.shape_spec())[k]).pc() == c),
    {
        let tones = self.tones();
        let ghost t = tones@;
        let mut classes: Vec<PitchClass> = Vec::new();
        let mut k: usize = 0;
        while k < tones.len()
            invariant
                k <= t.len(),
                t == tones@,
                classes@.len() == k,
                forall|j: int| 0 <= j < k ==> (#[trigger] classes@[j]).ch() == t[j].pc(),
            decreases t.len() - k,
        {
            classes.push(tones[k].as_pitch_class());
            k = k + 1;
        }
        classes.push(self.bass.as_pitch_class());
        let r = PitchClassSet::from_pitch_classes(classes.as_slice());
        proof {
            assert forall|c: int| #[trigger] r.has(c) <==> (self.bass_spec().pc() == c
                || exists|k: int| 0 <= k < self.shape_spec().len()
                    && (#[trigger] chord_tones(self.root_spec(), self.shape_spec())[k]).pc() == c) by {
                if r.has(c) {
                    let i = choose|i: int| 0 <= i < classes@.len() && classes@[i].ch() == c;
                    if i < t.len() {
                        assert(t[i].pc() == c);
                    }
                }
                if self.bass_spec().pc() == c {
                    assert(classes@[t.len() as int].ch() == c);
                }
                if exists|k: int| 0 <= k < self.shape_spec().len()
                    && (#[trigger] chord_tones(self.root_spec(), self.shape_spec())[k]).pc() == c {
                    let k = choose|k: int| 0 <= k < self.shape_spec().len()
                        && (#[trigger] chord_tones(self.root_spec(), self.shape_spec())[k]).pc() == c;
                    assert(classes@[k].ch() == c);
                }
            }
        }
        r
    }

    /// The known chord with this chord's shape, if any.
    pub fn known(&self) -> (r: Option<KnownChord>)
        ensures
            r == first_known(self.shape_spec(), 0),
    {
        self.shape.known()
    }
}

impl EnharmonicEq for PitchChord {
    open spec fn sounds_like(&self, other: &PitchChord) -> bool {
        &&& self.root_spec().pc() == other.root_spec().pc()
        &&& self.bass_spec().pc() == other.bass_spec().pc()
        &&& self.shape_spec().len() == other.shape_spec().len()
        &&& forall|i: int| 0 <= i < self.shape_spec().len()
            ==> (#[trigger] self.shape_spec()[i]).semis() == other.shape_spec()[i].semis()
    }

    fn eq_enharmonic(&self, other: &PitchChord) -> (r: bool) {
        self.root.eq_enharmonic(&other.root) && self.bass.eq_enharmonic(&other.bass)
            && self.shape.eq_enharmonic(&other.shape)
    }
}

/// The intervals from the root to the pitches of a chord, before ordering: the
/// shape when the root is the bass; else, when the bass is the chord tone `k`, the
/// tones from `k` on are taken below the root (the descending interval from the
/// root down to each); else the descending interval down to the bass is added.
pub open spec fn root_intervals_unsorted(root: Pitch, s: Seq<Interval>, bass: Pitch) -> Seq<Interval> {
    if root == bass {
        s
    } else {
        let t = chord_tones(root, s);
        let k = position_in(t, bass);
        if k < s.len() {
            Seq::new(s.len(), |i: int| if i < k { s[i] } else { negated_interval(between_spec(t[i], root)) })
        } else {
            s.push(negated_interval(between_spec(bass, root)))
        }
    }
}

impl PitchChord {
    /// The intervals from the root to each pitch of the chord as voiced: the shape
    /// when the root is in the bass; otherwise the chord tones from the bass on are
    /// taken below the root (or the bass, when no chord tone, is added below it),
    /// and the intervals are put in order (see [`ivl_le`]).
    pub fn intervals_from_root(&self) -> (r: Vec<Interval>)
        requires
            tones_fit(self.root_spec(), self.shape_spec()),
        ensures
            self.root_spec() == self.bass_spec() ==> r@ == self.shape_spec(),
            self.root_spec() != self.bass_spec() ==> {
                &&& ivls_sorted(r@)
                &&& r@.to_multiset()
                    == root_intervals_unsorted(self.root_spec(), self.shape_spec(), self.bass_spec()).to_multiset()
            },
    {
        let ivls = self.shape.intervals();
        let ghost sh = ivls@;
        let n = ivls.len();
        let mut v: Vec<Interval> = Vec::new();
        let mut i: usize = 0;
        while i < n
            invariant
                sh == ivls@,
                n == sh.len(),
                i <= n,
                v@ == sh.take(i as int),
            decreases n - i,
        {
            v.push(ivls[i]);
            proof { assert(v@ =~= sh.take(i as int + 1)); }
            i = i + 1;
        }
        proof { assert(v@ =~= sh); }
        if self.root == self.bass {
            return v;
        }
        let tones = self.tones();
        let ghost t = tones@;
        proof { lemma_position_in(t, self.bass); }
        let mut k: usize = 0;
        while k < n && tones[k] != self.bass
            invariant
                t == tones@,
                t.len() == n,
                k <= n,
                forall|j: int| 0 <= j < k ==> t[j] != self.bass,
            decreases n - k,
        {
            k = k + 1;
        }
        let ghost target = root_intervals_unsorted(self.root, sh, self.bass);
        if k < n {
            proof { assert(k == position_in(t, self.bass)); }
            let mut j: usize = k;
            while j < n
                invariant
                    t == tones@,
                    t.len() == n,
                    n == sh.len(),
                    k <= j <= n,
                    k == position_in(t, self.bass),
                    t == chord_tones(self.root, sh),
                    target == root_intervals_unsorted(self.root, sh, self.bass),
                    self.root != self.bass,
                    v@.len() == n,
                    forall|q: int| 0 <= q < j ==> v@[q] == target[q],
                    forall|q: int| j <= q < n ==> v@[q] == sh[q],
                decreases n - j,
            {
                let d = tones[j].distance_to(self.root).negated();
                proof { lemma_mk_of(d); }
                v.set(j, d);
                j = j + 1;
            }
            proof {
                assert forall|q: int| 0 <= q < k implies v@[q] == target[q] by {}
                assert(v@ =~= target);
            }
        } else {
            proof { assert(k == position_in(t, self.bass)); }
            let d = self.bass.distance_to(self.root).negated();
            proof { lemma_mk_of(d); }
            v.push(d);
            proof { assert(v@ =~= target); }
        }
        sort_intervals(v.as_slice())
    }
}

} // verus!
