//! Keys: a tonic together with a diatonic mode.
//!
//! A key signature of `s` sharps (negative for flats) holds the seven pitches whose
//! places on the line of fifths lie in `[s - 1, s + 5]`: for C major (no sharps)
//! these are F, C, G, D, A, E and B.

use vstd::prelude::*;
use crate::harmony::{mode_of_offset, DiatonicMode, ScaleDegree};
use crate::interval::{transposed, Interval};
use crate::note::{note_at, octave_fits, Note};
use crate::pitch::{lemma_from_fifths, AccidentalSign, Letter, Pitch, Spelling};

verus! {

/// A key: a tonic pitch and one of the seven diatonic modes.
#[derive(Copy, Clone, Eq, PartialEq, Debug, Hash, Structural)]
pub struct Key {
    pub tonic: Pitch,
    pub mode: DiatonicMode,
}

/// The key signature of a key: the number of sharps, negative for flats.
pub open spec fn key_sharps(k: Key) -> int {
    k.tonic.fifths() - k.mode.offset()
}

/// The pitch on letter `l` in a key signature of `s` sharps: the one whose place on
/// the line of fifths lies in `[s - 1, s + 5]`.
pub open spec fn key_pitch(s: int, l: Letter) -> Pitch {
    Pitch { letter: l, accidental: AccidentalSign { offset: ((s + 5 - l.fifths()) / 7) as i16 } }
}

/// Whether every pitch of a key signature of `s` sharps has an accidental that fits an `i16`.
pub open spec fn key_fits(s: int) -> bool {
    Pitch::fifths_ok(s - 1) && Pitch::fifths_ok(s + 5)
}

/// Whether pitch `p` belongs to the key signature of `s` sharps.
pub open spec fn in_key(s: int, p: Pitch) -> bool {
    s - 1 <= p.fifths() <= s + 5
}

/// The pitch at degree `d` (1 for the tonic) of key `k`.
pub open spec fn key_scale(k: Key, d: int) -> Pitch {
    key_pitch(key_sharps(k), Letter::from_idx(k.tonic.letter.idx() + d - 1))
}

/// How many letters a key signature of `s` sharps alters: `|s|`, at most seven.
pub open spec fn alteration_count(s: int) -> int {
    if s >= 0 {
        if s <= 7 { s } else { 7 }
    } else {
        if s >= -7 { -s } else { 7 }
    }
}

/// The altered pitches of a key signature of `s` sharps, in the order a signature
/// writes them: sharps going up the line of fifths (F sharp, C sharp, ...), flats
/// going down (B flat, E flat, ...).
pub open spec fn alterations_spec(s: int) -> Seq<Pitch> {
    let c = alteration_count(s);
    if s >= 0 {
        Seq::new(c as nat, |k: int| Pitch::from_fifths(s + 6 - c + k))
    } else {
        Seq::new(c as nat, |k: int| Pitch::from_fifths(s + c - 2 - k))
    }
}

/// The sum of the accidentals of a list of pitches, in semitones.
pub open spec fn sum_offsets(ps: Seq<Pitch>) -> int
    decreases ps.len(),
{
    if ps.len() == 0 {
        0
    } else {
        sum_offsets(ps.drop_last()) + ps.last().accidental.offset
    }
}

/// The key from the relative mode change of `k` to `mode`: the tonic moves so that
/// the signature stays.
pub open spec fn relative_spec(k: Key, mode: DiatonicMode) -> Key {
    Key { tonic: Pitch::from_fifths(k.tonic.fifths() + mode.offset() - k.mode.offset()), mode }
}

/// The key in `mode` whose degree `d` is `p`.
pub open spec fn from_pitch_degree_spec(d: ScaleDegree, p: Pitch, mode: DiatonicMode) -> Key {
    let letter = Letter::from_idx(p.letter.idx() + 7 - (d.num() - 1));
    let expect = key_pitch(letter.fifths() - mode.offset(), p.letter);
    Key {
        tonic: Pitch { letter, accidental: AccidentalSign { offset: (p.accidental.offset - expect.accidental.offset) as i16 } },
        mode,
    }
}

/// The pitch of the key signature of `s` sharps that is enharmonic to `p`, looking
/// at the letters from `i` on; `p` itself when there is none.
pub open spec fn respell_from(p: Pitch, s: int, i: int) -> Pitch
    decreases 7 - i,
{
    if i >= 7 || i < 0 {
        p
    } else if key_pitch(s, Letter::from_idx(i)).pc() == p.pc() {
        key_pitch(s, Letter::from_idx(i))
    } else {
        respell_from(p, s, i + 1)
    }
}

/// `p` spelled as in a key signature of `s` sharps, when one of its pitches is
/// enharmonic to `p`; `p` unchanged otherwise.
pub open spec fn respelled_in_key(p: Pitch, s: int) -> Pitch {
    respell_from(p, s, 0)
}

/// The pitch on `letter` in the key signature of `s` sharps.
fn pitch_in_signature(s: i64, letter: Letter) -> (r: Pitch)
    requires
        key_fits(s as int),
    ensures
        r == key_pitch(s as int, letter),
        in_key(s as int, r),
{
    let lf = letter.fifths_from_c() as i64;
    let acc = crate::arith::div_euclid_7(s + 5 - lf);
    proof {
        lemma_from_fifths(s - 1);
        lemma_from_fifths(s + 5);
    }
    Pitch { letter, accidental: AccidentalSign { offset: acc as i16 } }
}

impl Key {
    /// Creates a key.
    pub fn new(tonic: Pitch, mode: DiatonicMode) -> (r: Key)
        ensures
            r == (Key { tonic, mode }),
    {
        Key { tonic, mode }
    }

    /// The major key on `tonic`.
    pub fn major(tonic: Pitch) -> (r: Key)
        ensures
            r == (Key { tonic, mode: DiatonicMode::Ionian }),
    {
        Key { tonic, mode: DiatonicMode::Ionian }
    }

    /// The natural minor key on `tonic`.
    pub fn minor(tonic: Pitch) -> (r: Key)
        ensures
            r == (Key { tonic, mode: DiatonicMode::Aeolian }),
    {
        Key { tonic, mode: DiatonicMode::Aeolian }
    }

    /// The key with another tonic and the same mode.
    pub fn with_tonic(self, tonic: Pitch) -> (r: Key)
        ensures
            r == (Key { tonic, mode: self.mode }),
    {
        Key { tonic, mode: self.mode }
    }

    /// The key in `mode` with `sharps` sharps (negative for flats).
    pub fn from_sharps(sharps: i16, mode: DiatonicMode) -> (r: Key)
        requires
            i16::MIN <= sharps + mode.offset() <= i16::MAX,
        ensures
            r == (Key { tonic: Pitch::from_fifths(sharps + mode.offset()), mode }),
            key_sharps(r) == sharps,
    {
        let f = sharps + mode.fifths_offset();
        let tonic = Pitch::from_fifths_from_c(f);
        Key { tonic, mode }
    }

    /// The key signature computed without overflow.
    fn sharps_wide(self) -> (r: i64)
        ensures
            r == key_sharps(self),
            -300_000 <= r <= 300_000,
    {
        self.tonic.fifths_i64() - self.mode.fifths_offset() as i64
    }

    /// The number of sharps in the key signature, negative for flats.
    pub fn sharps(self) -> (r: i16)
        requires
            i16::MIN <= self.tonic.fifths() <= i16::MAX,
            i16::MIN <= key_sharps(self) <= i16::MAX,
        ensures
            r == key_sharps(self),
    {
        self.sharps_wide() as i16
    }

    /// Whether the key signature holds sharps or flats; `None` when it holds neither.
    pub fn spelling(self) -> (r: Option<Spelling>)
        ensures
            r == (if key_sharps(self) < 0 {
                Some(Spelling::Flats)
            } else if key_sharps(self) == 0 {
                None
            } else {
                Some(Spelling::Sharps)
            }),
    {
        let s = self.sharps_wide();
        if s < 0 {
            Some(Spelling::Flats)
        } else if s == 0 {
            None
        } else {
            Some(Spelling::Sharps)
        }
    }

    /// The key on `tonic` whose signature has `sharps` sharps, or `None` when `tonic`
    /// is not in that signature.
    pub fn try_from_sharps_tonic(sharps: i16, tonic: Pitch) -> (r: Option<Key>)
        ensures
            r == (if in_key(sharps as int, tonic) {
                Some(Key { tonic, mode: mode_of_offset(tonic.fifths() - sharps) })
            } else {
                None
            }),
    {
        let o = tonic.fifths_i64() - sharps as i64;
        if o < -1 || o > 5 {
            return None;
        }
        let mode = if o == 0 {
            DiatonicMode::Ionian
        } else if o == 2 {
            DiatonicMode::Dorian
        } else if o == 4 {
            DiatonicMode::Phrygian
        } else if o == -1 {
            DiatonicMode::Lydian
        } else if o == 1 {
            DiatonicMode::Mixolydian
        } else if o == 3 {
            DiatonicMode::Aeolian
        } else {
            DiatonicMode::Locrian
        };
        Some(Key { tonic, mode })
    }

    /// The key with the same tonic in another mode.
    pub fn parallel(self, mode: DiatonicMode) -> (r: Key)
        ensures
            r == (Key { tonic: self.tonic, mode }),
    {
        Key { tonic: self.tonic, mode }
    }

    /// The key with the same signature in another mode.
    pub fn relative(self, mode: DiatonicMode) -> (r: Key)
        requires
            Pitch::fifths_ok(self.tonic.fifths() + mode.offset() - self.mode.offset()),
        ensures
            r == relative_spec(self, mode),
    {
        let diff = mode.fifths_offset() - self.mode.fifths_offset();
        let tonic = self.tonic.transpose_fifths(diff);
        Key { tonic, mode }
    }

    /// The key in `mode` in which `pitch` is degree `degree`.
    pub fn from_pitch_degree(degree: ScaleDegree, pitch: Pitch, mode: DiatonicMode) -> (r: Key)
        requires
            i16::MIN <= pitch.accidental.offset
                - key_pitch(
                    Letter::from_idx(pitch.letter.idx() + 7 - (degree.num() - 1)).fifths() - mode.offset(),
                    pitch.letter,
                ).accidental.offset <= i16::MAX,
        ensures
            r == from_pitch_degree_spec(degree, pitch, mode),
    {
        let offset = degree.as_num() - 1;
        let step = (pitch.letter.step() + 7 - offset) % 7;
        let letter = match Letter::from_step(step) {
            Some(l) => l,
            None => Letter::C,
        };
        let s0 = letter.fifths_from_c() as i64 - mode.fifths_offset() as i64;
        let expect = pitch_in_signature(s0, pitch.letter);
        let acc = pitch.accidental.offset - expect.accidental.offset;
        Key { tonic: Pitch { letter, accidental: AccidentalSign { offset: acc } }, mode }
    }

    /// The key with its tonic moved by `interval`.
    pub fn transpose(&self, interval: Interval) -> (r: Key)
        requires
            Pitch::fifths_ok(self.tonic.fifths() + interval.fifths()),
        ensures
            r == (Key { tonic: transposed(self.tonic, interval), mode: self.mode }),
    {
        Key { tonic: self.tonic.transpose(interval), mode: self.mode }
    }

    /// The altered pitches of the key signature, in the order a signature writes them.
    pub fn alterations(&self) -> (r: Vec<Pitch>)
        requires
            key_fits(key_sharps(*self)),
        ensures
            r@ == alterations_spec(key_sharps(*self)),
    {
        let s = self.sharps_wide();
        let c: i64 = if s >= 0 {
            if s <= 7 { s } else { 7 }
        } else {
            if s >= -7 { -s } else { 7 }
        };
        let mut v: Vec<Pitch> = Vec::new();
        let mut k: i64 = 0;
        proof {
            lemma_from_fifths(s - 1);
            lemma_from_fifths(s + 5);
        }
        while k < c
            invariant
                0 <= k <= c,
                c == alteration_count(s as int),
                s == key_sharps(*self),
                -300_000 <= s <= 300_000,
                key_fits(s as int),
                v@ == alterations_spec(s as int).take(k as int),
            decreases c - k,
        {
            let f = if s >= 0 { s + 6 - c + k } else { s + c - 2 - k };
            assert(s - 1 <= f <= s + 5);
            assert(Pitch::fifths_ok(f as int)) by {
                assert((s - 1 + 1) / 7 <= (f + 1) / 7 <= (s + 5 + 1) / 7) by {
                    vstd::arithmetic::div_mod::lemma_div_is_ordered(s - 1 + 1, f + 1, 7);
                    vstd::arithmetic::div_mod::lemma_div_is_ordered(f + 1, s + 5 + 1, 7);
                }
            }
            let p = Pitch::from_fifths_i64(f);
            v.push(p);
            assert(alterations_spec(s as int).take(k + 1) =~= alterations_spec(s as int).take(k as int).push(p));
            k = k + 1;
        }
        assert(alterations_spec(s as int).take(c as int) =~= alterations_spec(s as int));
        v
    }

    /// The accidental that the key signature puts on `letter`.
    pub fn accidental_of(&self, letter: Letter) -> (r: AccidentalSign)
        requires
            key_fits(key_sharps(*self)),
        ensures
            r == key_pitch(key_sharps(*self), letter).accidental,
    {
        pitch_in_signature(self.sharps_wide(), letter).accidental
    }

    /// The pitch at `degree` of the key.
    pub fn relative_pitch(self, degree: ScaleDegree) -> (r: Pitch)
        requires
            key_fits(key_sharps(self)),
        ensures
            r == key_scale(self, degree.num()),
    {
        let step = (self.tonic.letter.step() + degree.as_num() - 1) % 7;
        let letter = match Letter::from_step(step) {
            Some(l) => l,
            None => Letter::C,
        };
        pitch_in_signature(self.sharps_wide(), letter)
    }

    /// The seven pitches of the key, from the tonic up.
    pub fn scale(&self) -> (r: Vec<Pitch>)
        requires
            key_fits(key_sharps(*self)),
        ensures
            r@ == Seq::new(7, |i: int| key_scale(*self, i + 1)),
    {
        let mut v: Vec<Pitch> = Vec::new();
        let mut d: u8 = 1;
        while d <= 7
            invariant
                1 <= d <= 8,
                key_fits(key_sharps(*self)),
                v@ == Seq::new((d - 1) as nat, |i: int| key_scale(*self, i + 1)),
            decreases 8 - d,
        {
            let degree = match ScaleDegree::from_num(d) {
                Some(x) => x,
                None => ScaleDegree::I,
            };
            let p = self.relative_pitch(degree);
            v.push(p);
            assert(v@ =~= Seq::new(d as nat, |i: int| key_scale(*self, i + 1)));
            d = d + 1;
        }
        v
    }

    /// The keys rooted on each degree of the key, each in the mode that keeps the
    /// key signature: the key's own mode first, then the next modes in turn.
    pub fn chord_scales(&self) -> (r: Vec<Key>)
        requires
            key_fits(key_sharps(*self)),
        ensures
            r@ == Seq::new(7, |i: int| Key {
                tonic: key_scale(*self, i + 1),
                mode: DiatonicMode::from_num_spec((self.mode.num() - 1 + i) % 7 + 1),
            }),
    {
        let mut v: Vec<Key> = Vec::new();
        let mut i: u8 = 0;
        while i < 7
            invariant
                i <= 7,
                key_fits(key_sharps(*self)),
                v@ == Seq::new(i as nat, |j: int| Key {
                    tonic: key_scale(*self, j + 1),
                    mode: DiatonicMode::from_num_spec((self.mode.num() - 1 + j) % 7 + 1),
                }),
            decreases 7 - i,
        {
            let degree = match ScaleDegree::from_num(i + 1) {
                Some(x) => x,
                None => ScaleDegree::I,
            };
            let tonic = self.relative_pitch(degree);
            let n = (self.mode.number() - 1 + i) % 7 + 1;
            let mode = match DiatonicMode::from_repr(n) {
                Some(m) => m,
                None => DiatonicMode::Ionian,
            };
            v.push(Key { tonic, mode });
            assert(v@ =~= Seq::new((i + 1) as nat, |j: int| Key {
                tonic: key_scale(*self, j + 1),
                mode: DiatonicMode::from_num_spec((self.mode.num() - 1 + j) % 7 + 1),
            }));
            i = i + 1;
        }
        v
    }
}

impl Letter {
    /// The pitch of this letter in `key`: the letter with the accidental that the
    /// key signature puts on it.
    pub fn to_pitch_in_key(self, key: Key) -> (r: Pitch)
        requires
            key_fits(key_sharps(key)),
        ensures
            r == key_pitch(key_sharps(key), self),
    {
        Pitch::from_letter_and_accidental(self, key.accidental_of(self))
    }
}

impl Pitch {
    /// The pitch spelled as in `key` when the key holds an enharmonic pitch (C in
    /// C sharp major is B sharp); otherwise the pitch unchanged.
    pub fn respell_in_key(&self, key: Key) -> (r: Pitch)
        requires
            key_fits(key_sharps(key)),
        ensures
            r == respelled_in_key(*self, key_sharps(key)),
            r.pc() == self.pc(),
    {
        let s = key.sharps_wide();
        let pc = self.as_pitch_class();
        proof { lemma_respell_from_pc(*self, s as int, 0); }
        let mut i: u8 = 0;
        while i < 7
            invariant
                i <= 7,
                key_fits(s as int),
                s == key_sharps(key),
                pc.ch() == self.pc(),
                respell_from(*self, s as int, 0) == respell_from(*self, s as int, i as int),
            decreases 7 - i,
        {
            let letter = match Letter::from_step(i) {
                Some(l) => l,
                None => Letter::C,
            };
            let candidate = pitch_in_signature(s, letter);
            if candidate.as_pitch_class() == pc {
                return candidate;
            }
            i = i + 1;
        }
        *self
    }
}

impl Note {
    /// The same note spelled as in `key` (see [`Pitch::respell_in_key`]).
    pub fn respell_in_key(self, key: Key) -> (r: Note)
        requires
            key_fits(key_sharps(key)),
            octave_fits(respelled_in_key(self.pitch, key_sharps(key)), self.abs()),
        ensures
            r == note_at(respelled_in_key(self.pitch, key_sharps(key)), self.abs()),
    {
        let p = self.pitch.respell_in_key(key);
        self.respelled_as(p)
    }
}

/// A key made from a signature has that signature.
pub proof fn law_from_sharps_sharps(sharps: int, mode: DiatonicMode)
    requires
        Pitch::fifths_ok(sharps + mode.offset()),
    ensures
        key_sharps(Key { tonic: Pitch::from_fifths(sharps + mode.offset()), mode }) == sharps,
{
    lemma_from_fifths(sharps + mode.offset());
}

/// A relative key keeps the key signature and takes the requested mode.
pub proof fn law_relative_keeps_sharps(k: Key, mode: DiatonicMode)
    requires
        Pitch::fifths_ok(k.tonic.fifths() + mode.offset() - k.mode.offset()),
    ensures
        key_sharps(relative_spec(k, mode)) == key_sharps(k),
        relative_spec(k, mode).mode == mode,
{
    lemma_from_fifths(k.tonic.fifths() + mode.offset() - k.mode.offset());
}

/// In the key made from a degree and a pitch, that degree is that pitch.
#[verifier::spinoff_prover]
#[verifier::rlimit(40)]
pub proof fn law_from_pitch_degree(d: ScaleDegree, p: Pitch, mode: DiatonicMode)
    requires
        i16::MIN <= p.accidental.offset
            - key_pitch(
                Letter::from_idx(p.letter.idx() + 7 - (d.num() - 1)).fifths() - mode.offset(),
                p.letter,
            ).accidental.offset <= i16::MAX,
    ensures
        key_scale(from_pitch_degree_spec(d, p, mode), d.num()) == p,
{
    let k = from_pitch_degree_spec(d, p, mode);
    let letter = k.tonic.letter;
    let s0 = letter.fifths() - mode.offset();
    let e = key_pitch(s0, p.letter);
    let a = p.accidental.offset - e.accidental.offset;
    assert(key_sharps(k) == s0 + 7 * a);
    assert(Letter::from_idx(letter.idx() + d.num() - 1) == p.letter);
    assert((s0 + 7 * a + 5 - p.letter.fifths()) / 7 == (s0 + 5 - p.letter.fifths()) / 7 + a) by {
        vstd::arithmetic::div_mod::lemma_div_multiples_vanish_fancy(
            a + (s0 + 5 - p.letter.fifths()) / 7,
            (s0 + 5 - p.letter.fifths()) % 7,
            7,
        );
    }
}

/// The accidentals of a key signature's altered pitches add up to its number of
/// sharps (negative for flats).
pub proof fn law_alterations_sum(s: int)
    requires
        key_fits(s),
    ensures
        sum_offsets(alterations_spec(s)) == s,
{
    let c = alteration_count(s);
    lemma_sum_prefix(s, c);
    assert(alterations_spec(s).take(c) =~= alterations_spec(s));
    if s > 7 {
        reveal_with_fuel(prefix_sum_up, 8);
        lemma_sevenths(s);
    } else if s >= 0 {
        lemma_single_sharps(s);
    } else if s >= -7 {
        lemma_single_flats(-s);
    } else {
        reveal_with_fuel(prefix_sum_down, 8);
        lemma_sevenths(s);
    }
}

/// The accidentals of the first `j` altered pitches of a signature of `s` sharps.
proof fn lemma_sum_prefix(s: int, j: int)
    requires
        key_fits(s),
        0 <= j <= alteration_count(s),
    ensures
        sum_offsets(alterations_spec(s).take(j)) == (if s >= 0 {
            prefix_sum_up(s + 6 - alteration_count(s), j)
        } else {
            -prefix_sum_down(s + alteration_count(s) - 2, j)
        }),
    decreases j,
{
    let a = alterations_spec(s);
    if j > 0 {
        lemma_sum_prefix(s, j - 1);
        assert(a.take(j).drop_last() =~= a.take(j - 1));
        let c = alteration_count(s);
        if s >= 0 {
            lemma_from_fifths(s + 6 - c + j - 1);
        } else {
            lemma_from_fifths(s + c - 2 - (j - 1));
        }
    }
}

/// The accidentals of the pitches at `lo`, `lo + 1`, ... on the line of fifths,
/// `j` of them.
pub open spec fn prefix_sum_up(lo: int, j: int) -> int
    decreases j,
{
    if j <= 0 { 0 } else { prefix_sum_up(lo, j - 1) + (lo + j - 1 + 1) / 7 }
}

/// Minus the accidentals of the pitches at `hi`, `hi - 1`, ... on the line of
/// fifths, `j` of them.
pub open spec fn prefix_sum_down(hi: int, j: int) -> int
    decreases j,
{
    if j <= 0 { 0 } else { prefix_sum_down(hi, j - 1) - (hi - (j - 1) + 1) / 7 }
}

/// Seven consecutive integers divided by seven (rounding down) add up to the first.
proof fn lemma_sevenths(t: int)
    ensures
        t / 7 + (t + 1) / 7 + (t + 2) / 7 + (t + 3) / 7 + (t + 4) / 7 + (t + 5) / 7 + (t + 6) / 7 == t,
{
    let q = t / 7;
    let r = t % 7;
    assert(t == 7 * q + r);
    lemma_seventh(q, r, 0);
    lemma_seventh(q, r, 1);
    lemma_seventh(q, r, 2);
    lemma_seventh(q, r, 3);
    lemma_seventh(q, r, 4);
    lemma_seventh(q, r, 5);
    lemma_seventh(q, r, 6);
    assert((t + 0) / 7 == t / 7);
}

/// Dividing `7 * q + r + k` by seven, for `r` and `k` in `[0, 6]`.
proof fn lemma_seventh(q: int, r: int, k: int)
    requires
        0 <= r < 7,
        0 <= k <= 6,
    ensures
        (7 * q + r + k) / 7 == q + (if r + k >= 7 { 1int } else { 0int }),
{
    if r + k >= 7 {
        assert(7 * q + r + k == 7 * (q + 1) + (r + k - 7));
        vstd::arithmetic::div_mod::lemma_div_multiples_vanish_fancy(q + 1, r + k - 7, 7);
    } else {
        vstd::arithmetic::div_mod::lemma_div_multiples_vanish_fancy(q, r + k, 7);
    }
}

/// With at most seven sharps, each altered pitch carries a single sharp.
proof fn lemma_single_sharps(j: int)
    requires
        0 <= j <= 7,
    ensures
        prefix_sum_up(6, j) == j,
    decreases j,
{
    if j > 0 {
        lemma_single_sharps(j - 1);
    }
}

/// With at most seven flats, each altered pitch carries a single flat.
proof fn lemma_single_flats(j: int)
    requires
        0 <= j <= 7,
    ensures
        prefix_sum_down(-2, j) == j,
    decreases j,
{
    if j > 0 {
        lemma_single_flats(j - 1);
        assert((-2 - (j - 1) + 1) / 7 == -1);
    }
}

/// The pitch found by looking through a key signature is enharmonic to the one
/// looked for.
proof fn lemma_respell_from_pc(p: Pitch, s: int, i: int)
    ensures
        respell_from(p, s, i).pc() == p.pc(),
    decreases 7 - i,
{
    if 0 <= i < 7 {
        lemma_respell_from_pc(p, s, i + 1);
    }
}

/// The accidental that a key gives a letter is that of the scale pitch on that
/// letter: the degree reached by counting letters up from the tonic's letter.
pub proof fn law_accidental_of_scale(k: Key, l: Letter)
    ensures
        key_scale(k, (l.idx() - k.tonic.letter.idx()) % 7 + 1).letter == l,
        key_scale(k, (l.idx() - k.tonic.letter.idx()) % 7 + 1).accidental == key_pitch(key_sharps(k), l).accidental,
{
    let t = k.tonic.letter.idx();
    let d = (l.idx() - t) % 7 + 1;
    assert((t + d - 1) % 7 == l.idx());
    assert(Letter::from_idx(t + d - 1) == l);
}

} // verus!
