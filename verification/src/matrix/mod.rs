//! Twelve-tone rows and the matrix of their transpositions, inversions and
//! retrogrades.

use vstd::prelude::*;
use crate::pcset::PitchClassSet;
use crate::pitch::{lemma_ch_injective, PitchClass};
use crate::semitone::Semitones;

mod label;
pub use label::{label_at, TwelveToneRowForm, TwelveToneRowLabel, TwelveToneRowNumber};

verus! {

/// The chromas of a sequence of pitch classes.
pub open spec fn chromas_of(s: Seq<PitchClass>) -> Seq<int> {
    Seq::new(s.len(), |i: int| s[i].ch())
}

/// Whether `s` holds each of the twelve chromas once.
pub open spec fn is_row(s: Seq<int>) -> bool {
    &&& s.len() == 12
    &&& forall|i: int| 0 <= i < 12 ==> 0 <= #[trigger] s[i] < 12
    &&& forall|i: int, j: int| 0 <= i < j < 12 ==> s[i] != s[j]
}

/// The chromas of `s` moved up `n` semitones.
pub open spec fn shifted(s: Seq<int>, n: int) -> Seq<int> {
    Seq::new(s.len(), |i: int| (s[i] + n) % 12)
}

/// `s` backwards.
pub open spec fn reversed(s: Seq<int>) -> Seq<int> {
    Seq::new(s.len(), |i: int| s[s.len() - 1 - i])
}

/// `s` mirrored around its first chroma.
pub open spec fn inverted(s: Seq<int>) -> Seq<int> {
    Seq::new(s.len(), |i: int| (2 * s[0] - s[i]) % 12)
}

/// `s` rotated left by `k` places.
pub open spec fn rotated(s: Seq<int>, k: int) -> Seq<int> {
    Seq::new(s.len(), |i: int| s[(i + k) % 12])
}

/// The semitones upwards from each chroma of `s` to the next, the last to the first.
pub open spec fn intervals_of(s: Seq<int>) -> Seq<int> {
    Seq::new(12, |i: int| (s[(i + 1) % 12] - s[i]) % 12)
}

/// Whether every interval from 1 to 11 semitones occurs in `ivls`.
pub open spec fn all_intervals(ivls: Seq<int>) -> bool {
    forall|v: int| 1 <= v < 12 ==> #[trigger] ivls.contains(v)
}

/// The row of a matrix whose first prime row is `p0`, under label `l`.
pub open spec fn row_of(p0: Seq<int>, l: TwelveToneRowLabel) -> Seq<int> {
    let n = l.1.0 as int;
    match l.0 {
        TwelveToneRowForm::Prime => shifted(p0, n),
        TwelveToneRowForm::Retrograde => reversed(shifted(p0, n)),
        TwelveToneRowForm::Inversion => inverted(shifted(p0, n)),
        TwelveToneRowForm::RetrogradeInversion => reversed(inverted(shifted(p0, n))),
    }
}

/// The first prime row of the matrix in which `r` is the row labelled `l`.
pub open spec fn from_row_spec(l: TwelveToneRowLabel, r: Seq<int>) -> Seq<int> {
    let u = (12 - l.1.0) % 12;
    match l.0 {
        TwelveToneRowForm::Prime => shifted(r, u),
        TwelveToneRowForm::Retrograde => shifted(reversed(r), u),
        TwelveToneRowForm::Inversion => inverted(shifted(r, u)),
        TwelveToneRowForm::RetrogradeInversion => inverted(shifted(reversed(r), u)),
    }
}

/// The chromas of the `i`-th group of `size` consecutive entries of `s`.
pub open spec fn group(s: Seq<int>, size: int, i: int) -> Seq<int> {
    s.subrange(size * i, size * i + size)
}

/// How many of the chromas below `n` occur in `h`.
pub open spec fn count_present(h: Seq<int>, n: int) -> nat
    decreases n,
{
    if n <= 0 {
        0
    } else {
        count_present(h, n - 1) + if h.contains(n - 1) { 1nat } else { 0nat }
    }
}

/// Whether `a` and `b` together hold all twelve chromas.
pub open spec fn covers(a: Seq<int>, b: Seq<int>) -> bool {
    forall|c: int| 0 <= c < 12 ==> a.contains(c) || b.contains(c)
}

/// The hexachords of the rows of the matrix with first prime row `p0` that
/// together with `t` hold all twelve chromas, as (label, hexachord index) pairs,
/// among the first `m` (label, index) pairs taken in label order.
pub open spec fn complements(p0: Seq<int>, t: Seq<int>, m: int) -> Seq<(TwelveToneRowLabel, u8)>
    decreases m,
{
    if m <= 0 {
        Seq::empty()
    } else {
        let k = (m - 1) / 2;
        let i = (m - 1) % 2;
        let rest = complements(p0, t, m - 1);
        if covers(group(row_of(p0, label_at(k)), 6, i), t) {
            rest.push((label_at(k), i as u8))
        } else {
            rest
        }
    }
}

/// The hexachords of the rows of the matrix with first prime row `p0` that
/// complete the hexachord `t` to all twelve chromas, as (label, hexachord index)
/// pairs in label order; none when `t` repeats a chroma.
pub open spec fn hexachord_complements(p0: Seq<int>, t: Seq<int>) -> Seq<(TwelveToneRowLabel, u8)> {
    if count_present(t, 12) == 6 {
        complements(p0, t, 96)
    } else {
        Seq::empty()
    }
}

/// Whether the first hexachord of `p0` is completed by a hexachord of a prime row
/// and by a hexachord of an inversion.
pub open spec fn all_combinatorial(p0: Seq<int>) -> bool {
    let comb = hexachord_complements(p0, group(p0, 6, 0));
    &&& exists|j: int| 0 <= j < comb.len() && (#[trigger] comb[j]).0.0 == TwelveToneRowForm::Prime
    &&& exists|j: int| 0 <= j < comb.len() && (#[trigger] comb[j]).0.0 == TwelveToneRowForm::Inversion
}

/// The first of the first `m` (label, hexachord index) pairs whose hexachord is `h`.
pub open spec fn find_hexachord(p0: Seq<int>, h: Seq<int>, m: int) -> Option<(TwelveToneRowLabel, u8)>
    decreases m,
{
    if m <= 0 {
        None
    } else {
        match find_hexachord(p0, h, m - 1) {
            Some(x) => Some(x),
            None => {
                let k = (m - 1) / 2;
                let i = (m - 1) % 2;
                if group(row_of(p0, label_at(k)), 6, i) == h {
                    Some((label_at(k), i as u8))
                } else {
                    None
                }
            },
        }
    }
}

/// A twelve-tone row: the twelve pitch classes, each once, in some order.
#[derive(Eq, PartialEq, Debug)]
pub struct TwelveToneRow([PitchClass; 12]);

/// Error returned when chromas do not make a twelve-tone row.
#[derive(Copy, Clone, Eq, PartialEq, Debug, Hash, Structural)]
pub enum TwelveToneRowFromChromasError {
    InvalidNums,
    MissingPitches,
}

/// The pitch class with chroma `c` in `[0, 11]`.
fn pc_of(c: u8) -> (r: PitchClass)
    requires
        c < 12,
    ensures
        r.ch() == c,
{
    match PitchClass::from_chroma(c) {
        Some(pc) => pc,
        None => PitchClass::C,
    }
}

/// The pitch classes `n` semitones above those of `a`.
fn shift_row(a: &[PitchClass; 12], n: u8) -> (r: [PitchClass; 12])
    ensures
        chromas_of(r@) == shifted(chromas_of(a@), n as int),
{
    let mut r = *a;
    let mut i: usize = 0;
    while i < 12
        invariant
            i <= 12,
            r@.len() == 12,
            a@.len() == 12,
            forall|j: int| 0 <= j < i ==> #[trigger] r@[j].ch() == (a@[j].ch() + n) % 12,
        decreases 12 - i,
    {
        r[i] = a[i].add_semitones(Semitones(n as i16));
        i = i + 1;
    }
    assert(chromas_of(r@) =~= shifted(chromas_of(a@), n as int));
    r
}

/// The pitch classes of `a` backwards.
fn reverse_row(a: &[PitchClass; 12]) -> (r: [PitchClass; 12])
    ensures
        chromas_of(r@) == reversed(chromas_of(a@)),
{
    let mut r = *a;
    let mut i: usize = 0;
    while i < 12
        invariant
            i <= 12,
            r@.len() == 12,
            a@.len() == 12,
            forall|j: int| 0 <= j < i ==> #[trigger] r@[j] == a@[11 - j],
        decreases 12 - i,
    {
        r[i] = a[11 - i];
        i = i + 1;
    }
    assert(chromas_of(r@) =~= reversed(chromas_of(a@)));
    r
}

/// The pitch classes of `a` mirrored around the first one.
fn invert_row(a: &[PitchClass; 12]) -> (r: [PitchClass; 12])
    ensures
        chromas_of(r@) == inverted(chromas_of(a@)),
{
    let first = a[0];
    let mut r = *a;
    let mut i: usize = 0;
    while i < 12
        invariant
            i <= 12,
            r@.len() == 12,
            a@.len() == 12,
            first == a@[0],
            forall|j: int| 0 <= j < i ==> #[trigger] r@[j].ch() == (2 * a@[0].ch() - a@[j].ch()) % 12,
        decreases 12 - i,
    {
        let d = first.semitones_to(a[i]);
        r[i] = first.sub_semitones(d);
        proof { lemma_invert_entry(a@[0].ch(), a@[i as int].ch()); }
        i = i + 1;
    }
    assert(chromas_of(r@) =~= inverted(chromas_of(a@)));
    r
}

/// Shifting keeps twelve different chromas different.
proof fn lemma_shifted_row(s: Seq<int>, n: int)
    requires
        is_row(s),
    ensures
        is_row(shifted(s, n)),
{
    let t = shifted(s, n);
    assert forall|i: int, j: int| 0 <= i < j < 12 implies t[i] != t[j] by {
        if t[i] == t[j] {
            assert((s[i] + n) % 12 == (s[j] + n) % 12);
            vstd::arithmetic::div_mod::lemma_fundamental_div_mod(s[i] + n, 12);
            vstd::arithmetic::div_mod::lemma_fundamental_div_mod(s[j] + n, 12);
            assert(s[i] - s[j] == 12 * ((s[i] + n) / 12 - (s[j] + n) / 12));
        }
    }
}

/// Mirroring keeps twelve different chromas different.
proof fn lemma_inverted_row(s: Seq<int>)
    requires
        is_row(s),
    ensures
        is_row(inverted(s)),
{
    let t = inverted(s);
    assert forall|i: int, j: int| 0 <= i < j < 12 implies t[i] != t[j] by {
        if t[i] == t[j] {
            vstd::arithmetic::div_mod::lemma_fundamental_div_mod(2 * s[0] - s[i], 12);
            vstd::arithmetic::div_mod::lemma_fundamental_div_mod(2 * s[0] - s[j], 12);
            assert(s[j] - s[i] == 12 * ((2 * s[0] - s[i]) / 12 - (2 * s[0] - s[j]) / 12));
        }
    }
}

/// Reversing keeps twelve different chromas different.
proof fn lemma_reversed_row(s: Seq<int>)
    requires
        is_row(s),
    ensures
        is_row(reversed(s)),
{
    let t = reversed(s);
    assert forall|i: int, j: int| 0 <= i < j < 12 implies t[i] != t[j] by {
        assert(t[i] == s[11 - i] && t[j] == s[11 - j]);
    }
}

impl TwelveToneRow {
    /// The chromas of the row, in order.
    pub closed spec fn chromas(self) -> Seq<int> {
        chromas_of(self.0@)
    }

    /// Each of the twelve pitch classes occurs once.
    #[verifier::type_invariant]
    pub open spec fn twelve_tones(self) -> bool {
        is_row(self.chromas())
    }

    /// The row of `prime_0`, or `None` when a pitch class occurs twice.
    pub fn new(prime_0: [PitchClass; 12]) -> (r: Option<TwelveToneRow>)
        ensures
            r is Some <==> is_row(chromas_of(prime_0@)),
            r matches Some(row) ==> row.chromas() == chromas_of(prime_0@),
    {
        let mut i: usize = 0;
        while i < 12
            invariant
                i <= 12,
                prime_0@.len() == 12,
                forall|a: int, b: int| 0 <= a < b < 12 && a < i ==> prime_0@[a].ch() != prime_0@[b].ch(),
            decreases 12 - i,
        {
            let mut j: usize = i + 1;
            while j < 12
                invariant
                    i < j <= 12,
                    prime_0@.len() == 12,
                    forall|a: int, b: int| 0 <= a < b < 12 && a < i ==> prime_0@[a].ch() != prime_0@[b].ch(),
                    forall|b: int| i < b < j ==> prime_0@[i as int].ch() != prime_0@[b].ch(),
                decreases 12 - j,
            {
                if prime_0[i] == prime_0[j] {
                    proof { lemma_ch_injective(prime_0@[i as int], prime_0@[j as int]); }
                    assert(chromas_of(prime_0@)[i as int] == chromas_of(prime_0@)[j as int]);
                    return None;
                }
                proof { lemma_ch_injective(prime_0@[i as int], prime_0@[j as int]); }
                j = j + 1;
            }
            i = i + 1;
        }
        proof {
            assert forall|k: int| 0 <= k < 12 implies 0 <= #[trigger] chromas_of(prime_0@)[k] < 12 by {
                lemma_ch_injective(prime_0@[k], prime_0@[k]);
            }
        }
        Some(TwelveToneRow(prime_0))
    }

    /// The row of the given chromas: an error when one is above 11, or when a
    /// chroma occurs twice.
    pub fn from_chromas(prime_0: [u8; 12]) -> (r: Result<TwelveToneRow, TwelveToneRowFromChromasError>)
        ensures
            (exists|i: int| 0 <= i < 12 && prime_0@[i] >= 12) ==> r == Err::<TwelveToneRow, TwelveToneRowFromChromasError>(TwelveToneRowFromChromasError::InvalidNums),
            (forall|i: int| 0 <= i < 12 ==> prime_0@[i] < 12) ==> {
                &&& r is Ok <==> is_row(Seq::new(12, |i: int| prime_0@[i] as int))
                &&& r matches Ok(row) ==> row.chromas() == Seq::new(12, |i: int| prime_0@[i] as int)
                &&& r is Err ==> r == Err::<TwelveToneRow, TwelveToneRowFromChromasError>(TwelveToneRowFromChromasError::MissingPitches)
            },
    {
        let mut i: usize = 0;
        while i < 12
            invariant
                i <= 12,
                prime_0@.len() == 12,
                forall|j: int| 0 <= j < i ==> prime_0@[j] < 12,
            decreases 12 - i,
        {
            if prime_0[i] >= 12 {
                return Err(TwelveToneRowFromChromasError::InvalidNums);
            }
            i = i + 1;
        }
        let mut pcs = [PitchClass::C; 12];
        let mut k: usize = 0;
        while k < 12
            invariant
                k <= 12,
                prime_0@.len() == 12,
                pcs@.len() == 12,
                forall|j: int| 0 <= j < 12 ==> prime_0@[j] < 12,
                forall|j: int| 0 <= j < k ==> #[trigger] pcs@[j].ch() == prime_0@[j],
            decreases 12 - k,
        {
            pcs[k] = pc_of(prime_0[k]);
            k = k + 1;
        }
        assert(chromas_of(pcs@) =~= Seq::new(12, |i: int| prime_0@[i] as int));
        match TwelveToneRow::new(pcs) {
            Some(row) => Ok(row),
            None => Err(TwelveToneRowFromChromasError::MissingPitches),
        }
    }

    /// The row backwards.
    pub fn reverse(&self) -> (r: TwelveToneRow)
        ensures
            r.chromas() == reversed(self.chromas()),
    {
        proof { use_type_invariant(self); lemma_reversed_row(self.chromas()); }
        TwelveToneRow(reverse_row(&self.0))
    }

    /// The pitch classes of the row.
    pub fn get(&self) -> (r: &[PitchClass; 12])
        ensures
            chromas_of(r@) == self.chromas(),
    {
        &self.0
    }

    /// The semitones upwards from each pitch class to the next, the last to the first.
    pub fn intervals(&self) -> (r: [u8; 12])
        ensures
            Seq::new(12, |i: int| r@[i] as int) == intervals_of(self.chromas()),
    {
        let mut r = [0u8; 12];
        let mut i: usize = 0;
        while i < 12
            invariant
                i <= 12,
                r@.len() == 12,
                self.0@.len() == 12,
                forall|j: int| 0 <= j < i ==> #[trigger] r@[j] as int == (self.0@[(j + 1) % 12].ch() - self.0@[j].ch()) % 12,
            decreases 12 - i,
        {
            let next = if i == 11 { 0 } else { i + 1 };
            r[i] = self.0[i].semitones_to(self.0[next]).0 as u8;
            i = i + 1;
        }
        assert(Seq::new(12, |i: int| r@[i] as int) =~= intervals_of(self.chromas()));
        r
    }

    /// Whether the intervals between consecutive pitch classes take every value
    /// from 1 to 11 semitones.
    pub fn has_all_intervals(&self) -> (r: bool)
        ensures
            r == all_intervals(intervals_of(self.chromas())),
    {
        let ivls = self.intervals();
        let ghost s = intervals_of(self.chromas());
        let mut v: u8 = 1;
        while v < 12
            invariant
                1 <= v <= 12,
                ivls@.len() == 12,
                s == intervals_of(self.chromas()),
                s == Seq::new(12, |i: int| ivls@[i] as int),
                forall|w: int| 1 <= w < v ==> #[trigger] s.contains(w),
            decreases 12 - v,
        {
            let mut found = false;
            let mut i: usize = 0;
            while i < 12
                invariant
                    i <= 12,
                    ivls@.len() == 12,
                    found == exists|j: int| 0 <= j < i && #[trigger] ivls@[j] == v,
                decreases 12 - i,
            {
                if ivls[i] == v {
                    found = true;
                }
                i = i + 1;
            }
            if !found {
                assert forall|k: int| 0 <= k < s.len() implies s[k] != v by {
                    assert(s[k] == ivls@[k] as int);
                }
                assert(!s.contains(v as int));
                return false;
            }
            proof {
                let j = choose|j: int| 0 <= j < 12 && #[trigger] ivls@[j] == v;
                assert(s[j] == v);
            }
            v = v + 1;
        }
        true
    }

    /// The row rotated left by `offset` places, or `None` when `offset > 12`.
    pub fn rotate(&self, offset: u8) -> (r: Option<TwelveToneRow>)
        ensures
            r is Some <==> offset <= 12,
            r matches Some(row) ==> row.chromas() == rotated(self.chromas(), offset as int % 12),
    {
        proof { use_type_invariant(self); }
        if offset > 12 {
            return None;
        }
        let k = (offset % 12) as usize;
        let mut r = self.0;
        let mut i: usize = 0;
        while i < 12
            invariant
                i <= 12,
                k < 12,
                r@.len() == 12,
                self.0@.len() == 12,
                forall|j: int| 0 <= j < i ==> #[trigger] r@[j] == self.0@[(j + k) % 12],
            decreases 12 - i,
        {
            r[i] = self.0[(i + k) % 12];
            i = i + 1;
        }
        let ghost s = self.chromas();
        assert(chromas_of(r@) =~= rotated(s, k as int));
        proof {
            let t = rotated(s, k as int);
            assert forall|a: int, b: int| 0 <= a < b < 12 implies t[a] != t[b] by {
                assert((a + k) % 12 != (b + k) % 12);
            }
        }
        Some(TwelveToneRow(r))
    }

    /// The four trichords of the row.
    pub fn trichords(&self) -> (r: [[PitchClass; 3]; 4])
        ensures
            forall|i: int| 0 <= i < 4 ==> chromas_of(#[trigger] r@[i]@) == group(self.chromas(), 3, i),
    {
        let a = &self.0;
        let r = [[a[0], a[1], a[2]], [a[3], a[4], a[5]], [a[6], a[7], a[8]], [a[9], a[10], a[11]]];
        assert forall|i: int| 0 <= i < 4 implies chromas_of(#[trigger] r@[i]@) == group(self.chromas(), 3, i) by {
            assert(chromas_of(r@[i]@) =~= group(self.chromas(), 3, i));
        }
        r
    }

    /// The three tetrachords of the row.
    pub fn tetrachords(&self) -> (r: [[PitchClass; 4]; 3])
        ensures
            forall|i: int| 0 <= i < 3 ==> chromas_of(#[trigger] r@[i]@) == group(self.chromas(), 4, i),
    {
        let a = &self.0;
        let r = [[a[0], a[1], a[2], a[3]], [a[4], a[5], a[6], a[7]], [a[8], a[9], a[10], a[11]]];
        assert forall|i: int| 0 <= i < 3 implies chromas_of(#[trigger] r@[i]@) == group(self.chromas(), 4, i) by {
            assert(chromas_of(r@[i]@) =~= group(self.chromas(), 4, i));
        }
        r
    }

    /// The two hexachords of the row.
    pub fn hexachords(&self) -> (r: [[PitchClass; 6]; 2])
        ensures
            forall|i: int| 0 <= i < 2 ==> chromas_of(#[trigger] r@[i]@) == group(self.chromas(), 6, i),
    {
        let a = &self.0;
        let r = [[a[0], a[1], a[2], a[3], a[4], a[5]], [a[6], a[7], a[8], a[9], a[10], a[11]]];
        assert forall|i: int| 0 <= i < 2 implies chromas_of(#[trigger] r@[i]@) == group(self.chromas(), 6, i) by {
            assert(chromas_of(r@[i]@) =~= group(self.chromas(), 6, i));
        }
        r
    }
}

impl Clone for TwelveToneRow {
    /// A copy of the row.
    fn clone(&self) -> (r: TwelveToneRow)
        ensures
            r.chromas() == self.chromas(),
    {
        proof { use_type_invariant(self); }
        TwelveToneRow(self.0)
    }
}

/// Error returned when chromas do not make the first row of a twelve-tone matrix.
pub type TwelveToneMatrixFromNumsError = TwelveToneRowFromChromasError;

/// A twelve-tone matrix, given by its first prime row P-0.
#[derive(Clone, Eq, PartialEq, Debug)]
pub struct TwelveToneMatrix {
    pub prime_0: TwelveToneRow,
}

impl TwelveToneMatrix {
    /// The matrix with first prime row `prime_0`.
    pub fn new(prime_0: TwelveToneRow) -> (r: TwelveToneMatrix)
        ensures
            r.prime_0 == prime_0,
    {
        TwelveToneMatrix { prime_0 }
    }

    /// The matrix of the row with the given chromas (see [`TwelveToneRow::from_chromas`]).
    pub fn from_chromas(prime_0: [u8; 12]) -> (r: Result<TwelveToneMatrix, TwelveToneRowFromChromasError>)
        ensures
            (exists|i: int| 0 <= i < 12 && prime_0@[i] >= 12) ==> r == Err::<TwelveToneMatrix, TwelveToneRowFromChromasError>(TwelveToneRowFromChromasError::InvalidNums),
            (forall|i: int| 0 <= i < 12 ==> prime_0@[i] < 12) ==> {
                &&& r is Ok <==> is_row(Seq::new(12, |i: int| prime_0@[i] as int))
                &&& r matches Ok(m) ==> m.prime_0.chromas() == Seq::new(12, |i: int| prime_0@[i] as int)
                &&& r is Err ==> r == Err::<TwelveToneMatrix, TwelveToneRowFromChromasError>(TwelveToneRowFromChromasError::MissingPitches)
            },
    {
        match TwelveToneRow::from_chromas(prime_0) {
            Ok(row) => Ok(TwelveToneMatrix { prime_0: row }),
            Err(e) => Err(e),
        }
    }

    /// The row labelled `label`.
    pub fn get_row(&self, label: TwelveToneRowLabel) -> (r: TwelveToneRow)
        requires
            label.1.0 < 12,
        ensures
            r.chromas() == row_of(self.prime_0.chromas(), label),
    {
        proof { use_type_invariant(&self.prime_0); }
        let p0 = &self.prime_0.0;
        let n = label.1.0;
        let shifted_row = shift_row(p0, n);
        proof { lemma_shifted_row(self.prime_0.chromas(), n as int); }
        match label.0 {
            TwelveToneRowForm::Prime => TwelveToneRow(shifted_row),
            TwelveToneRowForm::Retrograde => {
                proof { lemma_reversed_row(chromas_of(shifted_row@)); }
                TwelveToneRow(reverse_row(&shifted_row))
            },
            TwelveToneRowForm::Inversion => {
                proof { lemma_inverted_row(chromas_of(shifted_row@)); }
                TwelveToneRow(invert_row(&shifted_row))
            },
            TwelveToneRowForm::RetrogradeInversion => {
                let inv = invert_row(&shifted_row);
                proof {
                    lemma_inverted_row(chromas_of(shifted_row@));
                    lemma_reversed_row(chromas_of(inv@));
                }
                TwelveToneRow(reverse_row(&inv))
            },
        }
    }

    /// The matrix in which `row` is the row labelled `label`.
    pub fn from_row(label: TwelveToneRowLabel, row: TwelveToneRow) -> (r: TwelveToneMatrix)
        requires
            label.1.0 < 12,
        ensures
            r.prime_0.chromas() == from_row_spec(label, row.chromas()),
    {
        let undo = TwelveToneRowNumber((12 - label.1.0) % 12);
        match label.0 {
            TwelveToneRowForm::Prime => {
                let m = TwelveToneMatrix::new(row);
                TwelveToneMatrix::new(m.get_row(TwelveToneRowLabel(TwelveToneRowForm::Prime, undo)))
            },
            TwelveToneRowForm::Retrograde => {
                let m = TwelveToneMatrix::new(row.reverse());
                TwelveToneMatrix::new(m.get_row(TwelveToneRowLabel(TwelveToneRowForm::Prime, undo)))
            },
            TwelveToneRowForm::Inversion => {
                let m = TwelveToneMatrix::new(row);
                let inv = TwelveToneMatrix::new(m.get_row(TwelveToneRowLabel(TwelveToneRowForm::Prime, undo)));
                proof { use_type_invariant(&inv.prime_0); lemma_shift_zero(inv.prime_0.chromas()); }
                TwelveToneMatrix::new(inv.get_row(TwelveToneRowLabel::I0()))
            },
            TwelveToneRowForm::RetrogradeInversion => {
                let m = TwelveToneMatrix::new(row.reverse());
                let inv = TwelveToneMatrix::new(m.get_row(TwelveToneRowLabel(TwelveToneRowForm::Prime, undo)));
                proof { use_type_invariant(&inv.prime_0); lemma_shift_zero(inv.prime_0.chromas()); }
                TwelveToneMatrix::new(inv.get_row(TwelveToneRowLabel::I0()))
            },
        }
    }

    /// The semitones from the first pitch class of P-0 up to each of its pitch
    /// classes: the numbers of the inversions that start on each of them.
    pub fn order_inversions(&self) -> (r: [u8; 12])
        ensures
            forall|i: int| 0 <= i < 12 ==> #[trigger] r@[i] as int
                == (self.prime_0.chromas()[i] - self.prime_0.chromas()[0]) % 12,
    {
        let p0 = &self.prime_0.0;
        let first = p0[0];
        let mut r = [0u8; 12];
        let mut i: usize = 0;
        while i < 12
            invariant
                i <= 12,
                r@.len() == 12,
                p0@.len() == 12,
                first == p0@[0],
                *p0 == self.prime_0.0,
                forall|j: int| 0 <= j < i ==> #[trigger] r@[j] as int == (p0@[j].ch() - p0@[0].ch()) % 12,
            decreases 12 - i,
        {
            r[i] = first.semitones_to(p0[i]).0 as u8;
            i = i + 1;
        }
        r
    }

    /// The numbers of the prime rows, in the order their first pitch classes take
    /// in the first column of the matrix.
    pub fn order_primes(&self) -> (r: [u8; 12])
        ensures
            forall|i: int| 0 <= i < 12 ==> #[trigger] r@[i] as int
                == (12 - (self.prime_0.chromas()[i] - self.prime_0.chromas()[0]) % 12) % 12,
    {
        let inv = self.order_inversions();
        let mut r = [0u8; 12];
        let mut i: usize = 0;
        while i < 12
            invariant
                i <= 12,
                r@.len() == 12,
                inv@.len() == 12,
                forall|j: int| 0 <= j < 12 ==> #[trigger] inv@[j] as int
                    == (self.prime_0.chromas()[j] - self.prime_0.chromas()[0]) % 12,
                forall|j: int| 0 <= j < i ==> #[trigger] r@[j] as int == (12 - inv@[j]) % 12,
            decreases 12 - i,
        {
            r[i] = (12 - inv[i]) % 12;
            i = i + 1;
        }
        r
    }

    /// The intervals of P-0.
    pub fn prime_intervals(&self) -> (r: [u8; 12])
        ensures
            Seq::new(12, |i: int| r@[i] as int) == intervals_of(self.prime_0.chromas()),
    {
        self.prime_0.intervals()
    }

    /// The intervals of R-0.
    pub fn retrograde_intervals(&self) -> (r: [u8; 12])
        ensures
            Seq::new(12, |i: int| r@[i] as int) == intervals_of(row_of(self.prime_0.chromas(), TwelveToneRowLabel(TwelveToneRowForm::Retrograde, TwelveToneRowNumber(0)))),
    {
        self.get_row(TwelveToneRowLabel::R0()).intervals()
    }

    /// The intervals of I-0.
    pub fn inversion_intervals(&self) -> (r: [u8; 12])
        ensures
            Seq::new(12, |i: int| r@[i] as int) == intervals_of(row_of(self.prime_0.chromas(), TwelveToneRowLabel(TwelveToneRowForm::Inversion, TwelveToneRowNumber(0)))),
    {
        self.get_row(TwelveToneRowLabel::I0()).intervals()
    }

    /// The intervals of RI-0.
    pub fn retrograde_inversion_intervals(&self) -> (r: [u8; 12])
        ensures
            Seq::new(12, |i: int| r@[i] as int) == intervals_of(row_of(self.prime_0.chromas(), TwelveToneRowLabel(TwelveToneRowForm::RetrogradeInversion, TwelveToneRowNumber(0)))),
    {
        self.get_row(TwelveToneRowLabel::RI0()).intervals()
    }

    /// Whether P-0 holds every interval from 1 to 11 semitones.
    pub fn has_all_intervals(&self) -> (r: bool)
        ensures
            r == all_intervals(intervals_of(self.prime_0.chromas())),
    {
        self.prime_0.has_all_intervals()
    }

    /// The matrix of P-0 rotated left by `offset` places, or `None` when `offset > 12`.
    pub fn rotate(&self, offset: u8) -> (r: Option<TwelveToneMatrix>)
        ensures
            r is Some <==> offset <= 12,
            r matches Some(m) ==> m.prime_0.chromas() == rotated(self.prime_0.chromas(), offset as int % 12),
    {
        match self.prime_0.rotate(offset) {
            Some(row) => Some(TwelveToneMatrix { prime_0: row }),
            None => None,
        }
    }

    /// P-`n` as pitch classes, or `None` when `n > 11`.
    pub fn prime(&self, n: u8) -> (r: Option<[PitchClass; 12]>)
        ensures
            r is Some <==> n < 12,
            r matches Some(a) ==> chromas_of(a@) == row_of(self.prime_0.chromas(), TwelveToneRowLabel(TwelveToneRowForm::Prime, TwelveToneRowNumber(n))),
    {
        if n >= 12 {
            return None;
        }
        Some(self.get_row(TwelveToneRowLabel(TwelveToneRowForm::Prime, TwelveToneRowNumber(n))).0)
    }

    /// R-`n` as pitch classes, or `None` when `n > 11`.
    pub fn retrograde(&self, n: u8) -> (r: Option<[PitchClass; 12]>)
        ensures
            r is Some <==> n < 12,
            r matches Some(a) ==> chromas_of(a@) == row_of(self.prime_0.chromas(), TwelveToneRowLabel(TwelveToneRowForm::Retrograde, TwelveToneRowNumber(n))),
    {
        if n >= 12 {
            return None;
        }
        Some(self.get_row(TwelveToneRowLabel(TwelveToneRowForm::Retrograde, TwelveToneRowNumber(n))).0)
    }

    /// I-`n` as pitch classes, or `None` when `n > 11`.
    pub fn inversion(&self, n: u8) -> (r: Option<[PitchClass; 12]>)
        ensures
            r is Some <==> n < 12,
            r matches Some(a) ==> chromas_of(a@) == row_of(self.prime_0.chromas(), TwelveToneRowLabel(TwelveToneRowForm::Inversion, TwelveToneRowNumber(n))),
    {
        if n >= 12 {
            return None;
        }
        Some(self.get_row(TwelveToneRowLabel(TwelveToneRowForm::Inversion, TwelveToneRowNumber(n))).0)
    }

    /// RI-`n` as pitch classes, or `None` when `n > 11`.
    pub fn retrograde_inversion(&self, n: u8) -> (r: Option<[PitchClass; 12]>)
        ensures
            r is Some <==> n < 12,
            r matches Some(a) ==> chromas_of(a@) == row_of(self.prime_0.chromas(), TwelveToneRowLabel(TwelveToneRowForm::RetrogradeInversion, TwelveToneRowNumber(n))),
    {
        if n >= 12 {
            return None;
        }
        Some(self.get_row(TwelveToneRowLabel(TwelveToneRowForm::RetrogradeInversion, TwelveToneRowNumber(n))).0)
    }
}

impl TwelveToneMatrix {
    /// The hexachords of the rows that together with `hexachord` hold all twelve
    /// pitch classes, as (label, hexachord index) pairs in label order; nothing when
    /// `hexachord` repeats a pitch class.
    pub fn find_hexachord_complements(&self, hexachord: [PitchClass; 6]) -> (r: Vec<(TwelveToneRowLabel, u8)>)
        ensures
            r@ == hexachord_complements(self.prime_0.chromas(), chromas_of(hexachord@)),
    {
        let ghost t = chromas_of(hexachord@);
        let target = PitchClassSet::from_pitch_classes(hexachord.as_slice());
        proof {
            assert forall|c: int| #[trigger] target.has(c) <==> (0 <= c < 12 && t.contains(c)) by {
                if target.has(c) {
                    let j = choose|j: int| 0 <= j < hexachord@.len() && hexachord@[j].ch() == c;
                    assert(t[j] == c);
                }
                if 0 <= c < 12 && t.contains(c) {
                    let j = choose|j: int| 0 <= j < t.len() && t[j] == c;
                    assert(hexachord@[j].ch() == c);
                }
            }
            lemma_set_of(target, t, 12);
        }
        if target.len() != 6 {
            return Vec::new();
        }
        let labels = TwelveToneRowLabel::all();
        let mut found: Vec<(TwelveToneRowLabel, u8)> = Vec::new();
        let mut k: usize = 0;
        while k < 48
            invariant
                k <= 48,
                labels@ == Seq::new(48, |j: int| label_at(j)),
                t == chromas_of(hexachord@),
                forall|c: int| #[trigger] target.has(c) <==> (0 <= c < 12 && t.contains(c)),
                found@ == complements(self.prime_0.chromas(), t, 2 * k),
            decreases 48 - k,
        {
            let label = labels[k];
            proof { lemma_label_number(k as int); }
            let row = self.get_row(label);
            let hexes = row.hexachords();
            let mut i: usize = 0;
            while i < 2
                invariant
                    k < 48,
                    i <= 2,
                    label == label_at(k as int),
                    t == chromas_of(hexachord@),
                    row.chromas() == row_of(self.prime_0.chromas(), label),
                    forall|j: int| 0 <= j < 2 ==> chromas_of(#[trigger] hexes@[j]@) == group(row.chromas(), 6, j),
                    forall|c: int| #[trigger] target.has(c) <==> (0 <= c < 12 && t.contains(c)),
                    found@ == complements(self.prime_0.chromas(), t, 2 * k + i),
                decreases 2 - i,
            {
                let h = hexes[i];
                let set = PitchClassSet::from_pitch_classes(h.as_slice());
                let both = set.union(target);
                let n = both.len();
                proof {
                    let g = chromas_of(h@);
                    assert(g == group(row.chromas(), 6, i as int));
                    assert forall|c: int| #[trigger] both.has(c) <==> (0 <= c < 12 && (g + t).contains(c)) by {
                        if both.has(c) {
                            if set.has(c) {
                                let j = choose|j: int| 0 <= j < h@.len() && h@[j].ch() == c;
                                assert((g + t)[j] == c);
                            } else {
                                let j = choose|j: int| 0 <= j < t.len() && t[j] == c;
                                assert((g + t)[g.len() + j] == c);
                            }
                        }
                        if 0 <= c < 12 && (g + t).contains(c) {
                            let j = choose|j: int| 0 <= j < (g + t).len() && (g + t)[j] == c;
                            if j < g.len() {
                                assert(h@[j].ch() == c);
                                assert(set.has(c));
                            } else {
                                assert(t[j - g.len()] == c);
                            }
                        }
                    }
                    lemma_set_of(both, g + t, 12);
                    lemma_count_full(g + t, 12);
                    assert(covers(g, t) <==> (forall|c: int| 0 <= c < 12 ==> (g + t).contains(c))) by {
                        if covers(g, t) {
                            assert forall|c: int| 0 <= c < 12 implies (g + t).contains(c) by {
                                if g.contains(c) {
                                    let j = choose|j: int| 0 <= j < g.len() && g[j] == c;
                                    assert((g + t)[j] == c);
                                } else {
                                    let j = choose|j: int| 0 <= j < t.len() && t[j] == c;
                                    assert((g + t)[g.len() + j] == c);
                                }
                            }
                        }
                        if forall|c: int| 0 <= c < 12 ==> (g + t).contains(c) {
                            assert forall|c: int| 0 <= c < 12 implies g.contains(c) || t.contains(c) by {
                                assert((g + t).contains(c));
                                let j = choose|j: int| 0 <= j < (g + t).len() && (g + t)[j] == c;
                                if j < g.len() {
                                    assert(g[j] == c);
                                } else {
                                    assert(t[j - g.len()] == c);
                                }
                            }
                        }
                    }
                    let m = 2 * k + i + 1;
                    assert((m - 1) / 2 == k && (m - 1) % 2 == i);
                }
                if n == 12 {
                    found.push((label, i as u8));
                }
                i = i + 1;
            }
            k = k + 1;
        }
        found
    }

    /// Whether the first hexachord of P-0 is completed by a hexachord of some prime
    /// row and by a hexachord of some inversion.
    pub fn is_all_combinatorial(&self) -> (r: bool)
        ensures
            r == all_combinatorial(self.prime_0.chromas()),
    {
        let hexes = self.prime_0.hexachords();
        let h0 = hexes[0];
        assert(chromas_of(h0@) == group(self.prime_0.chromas(), 6, 0));
        let comb = self.find_hexachord_complements(h0);
        let mut prime = false;
        let mut inversion = false;
        let mut j: usize = 0;
        while j < comb.len()
            invariant
                j <= comb@.len(),
                prime == exists|x: int| 0 <= x < j && (#[trigger] comb@[x]).0.0 == TwelveToneRowForm::Prime,
                inversion == exists|x: int| 0 <= x < j && (#[trigger] comb@[x]).0.0 == TwelveToneRowForm::Inversion,
            decreases comb@.len() - j,
        {
            let (label, _) = comb[j];
            assert(comb@[j as int].0 == label);
            match label.0 {
                TwelveToneRowForm::Prime => {
                    prime = true;
                },
                TwelveToneRowForm::Inversion => {
                    inversion = true;
                },
                _ => {},
            }
            j = j + 1;
        }
        prime && inversion
    }

    /// The first (label, hexachord index) pair, in label order, whose hexachord is
    /// `hexachord` (in the same order), or `None`.
    pub fn label_hexachord(&self, hexachord: &[PitchClass; 6]) -> (r: Option<(TwelveToneRowLabel, u8)>)
        ensures
            r == find_hexachord(self.prime_0.chromas(), chromas_of(hexachord@), 96),
    {
        let ghost t = chromas_of(hexachord@);
        let labels = TwelveToneRowLabel::all();
        let mut k: usize = 0;
        while k < 48
            invariant
                k <= 48,
                labels@ == Seq::new(48, |j: int| label_at(j)),
                t == chromas_of(hexachord@),
                find_hexachord(self.prime_0.chromas(), t, 2 * k) is None,
            decreases 48 - k,
        {
            let label = labels[k];
            proof { lemma_label_number(k as int); }
            let row = self.get_row(label);
            let hexes = row.hexachords();
            let mut i: usize = 0;
            while i < 2
                invariant
                    k < 48,
                    i <= 2,
                    label == label_at(k as int),
                    t == chromas_of(hexachord@),
                    row.chromas() == row_of(self.prime_0.chromas(), label),
                    forall|j: int| 0 <= j < 2 ==> chromas_of(#[trigger] hexes@[j]@) == group(row.chromas(), 6, j),
                    find_hexachord(self.prime_0.chromas(), t, 2 * k + i) is None,
                decreases 2 - i,
            {
                let h = hexes[i];
                let same = same_pitch_classes(&h, hexachord);
                proof {
                    let m = 2 * k + i + 1;
                    assert((m - 1) / 2 == k && (m - 1) % 2 == i);
                    assert(chromas_of(h@) == group(row.chromas(), 6, i as int));
                }
                if same {
                    proof { lemma_find_stable(self.prime_0.chromas(), t, 2 * k + i + 1, 96); }
                    return Some((label, i as u8));
                }
                i = i + 1;
            }
            k = k + 1;
        }
        None
    }
}

/// Once a hexachord is found, looking further finds the same one.
proof fn lemma_find_stable(p0: Seq<int>, h: Seq<int>, m: int, m2: int)
    requires
        0 <= m <= m2,
        find_hexachord(p0, h, m) is Some,
    ensures
        find_hexachord(p0, h, m2) == find_hexachord(p0, h, m),
    decreases m2 - m,
{
    if m2 > m {
        lemma_find_stable(p0, h, m, m2 - 1);
    }
}

/// Whether two hexachords hold the same pitch classes in the same order.
fn same_pitch_classes(a: &[PitchClass; 6], b: &[PitchClass; 6]) -> (r: bool)
    ensures
        r == (chromas_of(a@) == chromas_of(b@)),
{
    let mut i: usize = 0;
    while i < 6
        invariant
            i <= 6,
            a@.len() == 6,
            b@.len() == 6,
            forall|j: int| 0 <= j < i ==> a@[j].ch() == b@[j].ch(),
        decreases 6 - i,
    {
        if a[i].chroma() != b[i].chroma() {
            assert(chromas_of(a@)[i as int] != chromas_of(b@)[i as int]);
            return false;
        }
        i = i + 1;
    }
    assert(chromas_of(a@) =~= chromas_of(b@));
    true
}

/// The numbers of the labels are below 12.
proof fn lemma_label_number(k: int)
    requires
        0 <= k < 48,
    ensures
        label_at(k).1.0 < 12,
{
}

/// A set whose members are the chromas of `h` counts them.
proof fn lemma_set_of(s: PitchClassSet, h: Seq<int>, n: int)
    requires
        forall|c: int| #[trigger] s.has(c) <==> (0 <= c < 12 && h.contains(c)),
        n <= 12,
    ensures
        s.count_below(n) == count_present(h, n),
    decreases n,
{
    if n > 0 {
        lemma_set_of(s, h, n - 1);
        assert(s.has(n - 1) == h.contains(n - 1));
    }
}

/// The chromas below `n` all occur in `h` exactly when `n` of them do.
proof fn lemma_count_full(h: Seq<int>, n: int)
    requires
        n >= 0,
    ensures
        count_present(h, n) <= n,
        (count_present(h, n) == n) <==> (forall|c: int| 0 <= c < n ==> h.contains(c)),
    decreases n,
{
    if n > 0 {
        lemma_count_full(h, n - 1);
        if count_present(h, n) == n {
            assert forall|c: int| 0 <= c < n implies h.contains(c) by {
                if c < n - 1 {
                    assert(count_present(h, n - 1) == n - 1);
                }
            }
        }
    }
}

/// Shifting a row by nothing leaves it as it is.
proof fn lemma_shift_zero(s: Seq<int>)
    requires
        is_row(s),
    ensures
        shifted(s, 0) == s,
{
    assert(shifted(s, 0) =~= s);
}

/// The matrix built from one of its rows and that row's label is the matrix again.
pub proof fn law_from_row(p0: Seq<int>, label: TwelveToneRowLabel)
    requires
        is_row(p0),
        label.1.0 < 12,
    ensures
        from_row_spec(label, row_of(p0, label)) == p0,
{
    let n = label.1.0 as int;
    let u = (12 - n) % 12;
    let a = shifted(p0, n);
    assert forall|i: int| 0 <= i < 12 implies #[trigger] shifted(a, u)[i] == p0[i] by {
        lemma_mod_sum(p0[i], n, u);
    }
    assert(shifted(a, u) =~= p0);
    assert(reversed(reversed(a)) =~= a);
    let b = inverted(a);
    let c = shifted(b, u);
    assert(c[0] == p0[0]) by {
        lemma_mod_sum(p0[0], n, u);
        lemma_mod_reduce(2 * a[0] - a[0]);
        lemma_mod_sum(p0[0], n, u);
    }
    assert forall|i: int| 0 <= i < 12 implies #[trigger] inverted(c)[i] == p0[i] by {
        lemma_inverse_entry(p0[0], p0[i], n, u);
    }
    assert(inverted(c) =~= p0);
    assert(reversed(reversed(b)) =~= b);
}

/// Adding `n` and then `(12 - n) % 12` modulo 12 gives a chroma back.
proof fn lemma_mod_sum(x: int, n: int, u: int)
    requires
        0 <= x < 12,
        0 <= n < 12,
        u == (12 - n) % 12,
    ensures
        ((x + n) % 12 + u) % 12 == x,
{
}

/// A chroma in `[0, 11]` is its own remainder.
proof fn lemma_mod_reduce(x: int)
    requires
        0 <= x < 12,
    ensures
        x % 12 == x,
{
}

/// Mirroring `x` around `f` through the upward distance from `f` to `x`.
proof fn lemma_invert_entry(f: int, x: int)
    ensures
        (f - (x - f) % 12) % 12 == (2 * f - x) % 12,
{
    let q = (x - f) / 12;
    vstd::arithmetic::div_mod::lemma_fundamental_div_mod(x - f, 12);
    assert(f - (x - f) % 12 == 12 * q + (2 * f - x));
    vstd::arithmetic::div_mod::lemma_mod_multiples_vanish(q, 2 * f - x, 12);
}

/// Mirroring around the first chroma twice, with transpositions that cancel,
/// gives each chroma back.
#[verifier::spinoff_prover]
proof fn lemma_inverse_entry(f: int, x: int, n: int, u: int)
    requires
        0 <= f < 12,
        0 <= x < 12,
        0 <= n < 12,
        u == (12 - n) % 12,
    ensures
        ({
            let a0 = (f + n) % 12;
            let ax = (x + n) % 12;
            let b0 = (2 * a0 - a0) % 12;
            let bx = (2 * a0 - ax) % 12;
            let c0 = (b0 + u) % 12;
            let cx = (bx + u) % 12;
            (2 * c0 - cx) % 12 == x
        }),
{
    let a0 = (f + n) % 12;
    let ax = (x + n) % 12;
    let b0 = (2 * a0 - a0) % 12;
    let bx = (2 * a0 - ax) % 12;
    let c0 = (b0 + u) % 12;
    let cx = (bx + u) % 12;
    vstd::arithmetic::div_mod::lemma_fundamental_div_mod(f + n, 12);
    vstd::arithmetic::div_mod::lemma_fundamental_div_mod(x + n, 12);
    vstd::arithmetic::div_mod::lemma_fundamental_div_mod(2 * a0 - ax, 12);
    vstd::arithmetic::div_mod::lemma_fundamental_div_mod(bx + u, 12);
    let k1 = (f + n) / 12;
    let k2 = (x + n) / 12;
    let k3 = (2 * a0 - ax) / 12;
    let k4 = (bx + u) / 12;
    assert(a0 == f + n - 12 * k1);
    assert(ax == x + n - 12 * k2);
    assert(bx == 2 * a0 - ax - 12 * k3);
    assert(cx == bx + u - 12 * k4);
    assert(b0 == a0) by {
        lemma_mod_reduce(a0);
    }
    assert(c0 == f) by {
        lemma_mod_sum(f, n, u);
    }
    let w: int = if n == 0 { 0 } else { 1 };
    assert(u == 12 * w - n);
    let m = 2 * k1 - k2 + k3 + k4 - w;
    assert(2 * c0 - cx == x + 12 * m);
    vstd::arithmetic::div_mod::lemma_mod_multiples_vanish(m, x, 12);
}

/// The (label, hexachord index) slots of a matrix, in label order, the first
/// hexachord of each row before the second.
pub open spec fn hexachord_slots() -> Seq<(TwelveToneRowLabel, u8)> {
    Seq::new(96, |j: int| (label_at(j / 2), (j % 2) as u8))
}

/// Whether the hexachord in slot `x` of the matrix with first prime row `p0`
/// together with `t` holds all twelve chromas.
pub open spec fn completes(p0: Seq<int>, t: Seq<int>) -> spec_fn((TwelveToneRowLabel, u8)) -> bool {
    |x: (TwelveToneRowLabel, u8)| covers(group(row_of(p0, x.0), 6, x.1 as int), t)
}

/// Whether the hexachord in slot `j` of the matrix with first prime row `p0` is `h`.
pub open spec fn slot_is(p0: Seq<int>, h: Seq<int>, j: int) -> bool {
    group(row_of(p0, label_at(j / 2)), 6, j % 2) == h
}

/// The complements among the first `m` slots are those slots, kept when they complete `t`.
proof fn lemma_complements_filter(p0: Seq<int>, t: Seq<int>, m: int)
    requires
        0 <= m <= 96,
    ensures
        complements(p0, t, m) == hexachord_slots().take(m).filter(completes(p0, t)),
    decreases m,
{
    reveal(Seq::filter);
    let sl = hexachord_slots().take(m);
    if m == 0 {
        assert(sl =~= Seq::<(TwelveToneRowLabel, u8)>::empty());
    } else {
        lemma_complements_filter(p0, t, m - 1);
        assert(sl.drop_last() =~= hexachord_slots().take(m - 1));
        assert(sl.last() == (label_at((m - 1) / 2), ((m - 1) % 2) as u8));
    }
}

/// Pushing a chroma adds one to the count below `n` exactly when it is below `n`
/// and new.
proof fn lemma_count_push(s: Seq<int>, x: int, n: int)
    ensures
        count_present(s.push(x), n) == count_present(s, n) + if 0 <= x < n && !s.contains(x) { 1nat } else { 0nat },
    decreases n,
{
    if n > 0 {
        lemma_count_push(s, x, n - 1);
        let c = n - 1;
        assert(s.push(x).contains(c) <==> (s.contains(c) || c == x)) by {
            if s.push(x).contains(c) {
                let k = choose|k: int| 0 <= k < s.push(x).len() && s.push(x)[k] == c;
                if k < s.len() {
                    assert(s[k] == c);
                }
            }
            if s.contains(c) {
                let k = choose|k: int| 0 <= k < s.len() && s[k] == c;
                assert(s.push(x)[k] == c);
            }
            if c == x {
                assert(s.push(x)[s.len() as int] == c);
            }
        }
    }
}

/// The chromas of a prefix of `t`, counted below 12: one for each entry when the
/// entries are distinct chromas, and fewer once one repeats.
proof fn lemma_count_prefix(t: Seq<int>, k: int)
    requires
        0 <= k <= t.len(),
        forall|i: int| 0 <= i < t.len() ==> 0 <= #[trigger] t[i] < 12,
    ensures
        count_present(t.take(k), 12) <= k,
        (forall|a: int, b: int| 0 <= a < b < k ==> t[a] != t[b]) ==> count_present(t.take(k), 12) == k,
        (exists|a: int, b: int| 0 <= a < b < k && t[a] == t[b]) ==> count_present(t.take(k), 12) < k,
    decreases k,
{
    if k == 0 {
        assert forall|c: int| !(#[trigger] t.take(0).contains(c)) by {}
        lemma_count_none(t.take(0), 12);
    } else {
        lemma_count_prefix(t, k - 1);
        let p = t.take(k - 1);
        let x = t[k - 1];
        assert(t.take(k) =~= p.push(x));
        lemma_count_push(p, x, 12);
        if forall|a: int, b: int| 0 <= a < b < k ==> t[a] != t[b] {
            assert(!p.contains(x)) by {
                if p.contains(x) {
                    let a = choose|a: int| 0 <= a < p.len() && p[a] == x;
                    assert(t[a] == t[k - 1]);
                }
            }
        }
        if exists|a: int, b: int| 0 <= a < b < k && t[a] == t[b] {
            let (a, b) = choose|a: int, b: int| 0 <= a < b < k && t[a] == t[b];
            if b == k - 1 {
                assert(p[a] == x);
                assert(p.contains(x));
            } else {
                assert(exists|a: int, b: int| 0 <= a < b < k - 1 && t[a] == t[b]);
            }
        }
    }
}

/// No chroma present counts nothing.
proof fn lemma_count_none(s: Seq<int>, n: int)
    requires
        forall|c: int| !(#[trigger] s.contains(c)),
    ensures
        count_present(s, n) == 0,
    decreases n,
{
    if n > 0 {
        lemma_count_none(s, n - 1);
    }
}

/// Distinct slots are different (label, index) pairs.
proof fn lemma_slot_injective(j1: int, j2: int)
    requires
        0 <= j1 < 96,
        0 <= j2 < 96,
        hexachord_slots()[j1] == hexachord_slots()[j2],
    ensures
        j1 == j2,
{
    let k1 = j1 / 2;
    let k2 = j2 / 2;
    assert(label_at(k1) == label_at(k2));
    assert(TwelveToneRowForm::at(k1 / 12) == TwelveToneRowForm::at(k2 / 12));
    assert(k1 / 12 == k2 / 12);
    assert((k1 % 12) as u8 == (k2 % 12) as u8);
    assert(k1 % 12 == k2 % 12);
    assert(k1 == k2);
    assert((j1 % 2) as u8 == (j2 % 2) as u8);
}

/// The complements among the first `m` slots are slots below `m`, none twice.
proof fn lemma_complements_distinct(p0: Seq<int>, t: Seq<int>, m: int)
    requires
        0 <= m <= 96,
    ensures
        forall|i: int| 0 <= i < complements(p0, t, m).len() ==> exists|j: int| 0 <= j < m
            && #[trigger] complements(p0, t, m)[i] == hexachord_slots()[j],
        complements(p0, t, m).no_duplicates(),
    decreases m,
{
    if m > 0 {
        lemma_complements_distinct(p0, t, m - 1);
        let rest = complements(p0, t, m - 1);
        let x = (label_at((m - 1) / 2), ((m - 1) % 2) as u8);
        assert(x == hexachord_slots()[m - 1]);
        let c = complements(p0, t, m);
        assert forall|i: int| 0 <= i < c.len() implies exists|j: int| 0 <= j < m
            && #[trigger] c[i] == hexachord_slots()[j] by {
            if i < rest.len() {
                assert(c[i] == rest[i]);
                let j = choose|j: int| 0 <= j < m - 1 && rest[i] == hexachord_slots()[j];
                assert(c[i] == hexachord_slots()[j]);
            } else {
                assert(c[i] == hexachord_slots()[m - 1]);
            }
        }
        if c.len() > rest.len() {
            assert forall|a: int, b: int| 0 <= a < c.len() && 0 <= b < c.len() && a != b implies c[a] != c[b] by {
                if a < rest.len() && b < rest.len() {
                    assert(c[a] == rest[a] && c[b] == rest[b]);
                } else {
                    let i = if a < rest.len() { a } else { b };
                    assert(c[i] == rest[i]);
                    let j = choose|j: int| 0 <= j < m - 1 && rest[i] == hexachord_slots()[j];
                    if c[a] == c[b] {
                        lemma_slot_injective(j, m - 1);
                    }
                }
            }
        }
    }
}

/// The hexachords completing a hexachord `t` of chromas: none when `t` repeats a
/// pitch class; otherwise exactly the slots, in label order with the first
/// hexachord of a row before the second, whose hexachord together with `t` holds
/// all twelve pitch classes; no pair comes twice.
pub proof fn law_hexachord_complements(p0: Seq<int>, t: Seq<int>)
    requires
        t.len() == 6,
        forall|i: int| 0 <= i < 6 ==> 0 <= #[trigger] t[i] < 12,
    ensures
        (exists|a: int, b: int| 0 <= a < b < 6 && t[a] == t[b]) ==>
            hexachord_complements(p0, t) == Seq::<(TwelveToneRowLabel, u8)>::empty(),
        (forall|a: int, b: int| 0 <= a < b < 6 ==> t[a] != t[b]) ==>
            hexachord_complements(p0, t) == hexachord_slots().filter(completes(p0, t)),
        hexachord_complements(p0, t).no_duplicates(),
{
    lemma_complements_distinct(p0, t, 96);
    lemma_count_prefix(t, 6);
    assert(t.take(6) =~= t);
    lemma_complements_filter(p0, t, 96);
    assert(hexachord_slots().take(96) =~= hexachord_slots());
}

/// The slot found among the first `m`: none exactly when no slot holds `h`, else
/// the first one that does.
proof fn lemma_find_hexachord(p0: Seq<int>, h: Seq<int>, m: int)
    requires
        0 <= m,
    ensures
        find_hexachord(p0, h, m) is None <==> forall|j: int| 0 <= j < m ==> !slot_is(p0, h, j),
        find_hexachord(p0, h, m) matches Some(x) ==> exists|j: int| 0 <= j < m && slot_is(p0, h, j)
            && x == (label_at(j / 2), (j % 2) as u8)
            && forall|j2: int| 0 <= j2 < j ==> !slot_is(p0, h, j2),
    decreases m,
{
    if m > 0 {
        lemma_find_hexachord(p0, h, m - 1);
        if find_hexachord(p0, h, m - 1) is None && slot_is(p0, h, m - 1) {
            assert(find_hexachord(p0, h, m) == Some((label_at((m - 1) / 2), ((m - 1) % 2) as u8)));
        }
    }
}

/// Labelling a hexachord gives `None` exactly when no slot of the matrix holds it
/// (same pitch classes in the same order); otherwise it gives the first slot that
/// does, in label order with the first hexachord of a row before the second.
pub proof fn law_label_hexachord(p0: Seq<int>, h: Seq<int>)
    ensures
        find_hexachord(p0, h, 96) is None <==> forall|j: int| 0 <= j < 96 ==> !slot_is(p0, h, j),
        find_hexachord(p0, h, 96) matches Some(x) ==> exists|j: int| 0 <= j < 96 && slot_is(p0, h, j)
            && x == hexachord_slots()[j]
            && forall|j2: int| 0 <= j2 < j ==> !slot_is(p0, h, j2),
{
    lemma_find_hexachord(p0, h, 96);
}

} // verus!
