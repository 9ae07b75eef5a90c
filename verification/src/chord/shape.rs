//! The shape of a chord: the intervals of its tones above the root, starting with
//! the unison.

use vstd::prelude::*;
use crate::chord::known::{find_known, first_known, known_intervals, KnownChord};
use crate::chord::parse::{contains_number, first_with_number, has_number, position_of_number};
use crate::enharmonic::EnharmonicEq;
use crate::interval::{lemma_mk, lemma_mk_of, stability_of, Interval, Number, Quality, Stability};

verus! {

/// The interval with quality `q` and number `n`, as used by chord shapes.
pub open spec fn ivl(q: Quality, n: int) -> Interval {
    Interval::mk(q, n)
}

/// Whether interval `a` comes no later than `b`: by number, then by the semitones
/// they span.
pub open spec fn ivl_le(a: Interval, b: Interval) -> bool {
    a.num() < b.num() || (a.num() == b.num() && a.semis() <= b.semis())
}

/// Whether the intervals of `s` come in order (see [`ivl_le`]).
pub open spec fn ivls_sorted(s: Seq<Interval>) -> bool {
    forall|i: int, j: int| 0 <= i < j < s.len() ==> ivl_le(#[trigger] s[i], #[trigger] s[j])
}

/// Whether `s` can be the intervals of a chord shape: it starts with a perfect
/// unison, its intervals come in order, and it holds no interval twice.
pub open spec fn shape_ok(s: Seq<Interval>) -> bool {
    &&& s.len() >= 1
    &&& s[0] == ivl(Quality::Perfect, 1)
    &&& ivls_sorted(s)
    &&& s.no_duplicates()
}

/// The first interval of `s` with number `n`, for an ascending `n`.
pub open spec fn interval_with_number(s: Seq<Interval>, n: int) -> Option<Interval> {
    if n > 0 && first_with_number(s, n) < s.len() {
        Some(s[first_with_number(s, n)])
    } else {
        None
    }
}

/// Whether two neighbouring intervals of `s` both have number `n`.
pub open spec fn repeated_step(s: Seq<Interval>, n: int) -> bool {
    exists|i: int| 0 <= i < s.len() - 1 && (#[trigger] s[i]).num() == n && s[i + 1].num() == n
}

/// Whether two neighbouring intervals of `s` have the same number.
pub open spec fn any_repeated_step(s: Seq<Interval>) -> bool {
    exists|i: int| 0 <= i < s.len() - 1 && (#[trigger] s[i]).num() == s[i + 1].num()
}

/// Whether a chord with intervals `s` is consonant: a single note, a consonant
/// dyad, or a major or minor triad.
pub open spec fn consonant_shape(s: Seq<Interval>) -> bool {
    if s.len() == 1 {
        true
    } else if s.len() == 2 {
        match stability_of(s[1].qual(), s[1].num()) {
            Some(st) => st != Stability::Dissonance,
            None => false,
        }
    } else if s.len() == 3 {
        (s.contains(ivl(Quality::Major, 3)) || s.contains(ivl(Quality::Minor, 3)))
            && s.contains(ivl(Quality::Perfect, 5))
    } else {
        false
    }
}

/// The first interval with a number is at the position `first_with_number` gives,
/// and no earlier interval has that number.
pub proof fn lemma_first_with_number(s: Seq<Interval>, n: int)
    ensures
        0 <= first_with_number(s, n) <= s.len(),
        first_with_number(s, n) < s.len() <==> has_number(s, n),
        first_with_number(s, n) < s.len() ==> s[first_with_number(s, n)].num() == n,
        forall|j: int| 0 <= j < first_with_number(s, n) ==> (#[trigger] s[j]).num() != n,
    decreases s.len(),
{
    if s.len() > 0 && s[0].num() != n {
        let t = s.drop_first();
        lemma_first_with_number(t, n);
        assert forall|j: int| 0 <= j < first_with_number(s, n) implies (#[trigger] s[j]).num() != n by {
            if j > 0 {
                assert(s[j] == t[j - 1]);
            }
        }
        if has_number(s, n) {
            let k = choose|k: int| 0 <= k < s.len() && (#[trigger] s[k]).num() == n;
            assert(t[k - 1] == s[k]);
        }
        if has_number(t, n) {
            let k = choose|k: int| 0 <= k < t.len() && (#[trigger] t[k]).num() == n;
            assert(s[k + 1] == t[k]);
        }
    } else if s.len() > 0 {
        assert(s[0].num() == n);
    }
}

/// Whether interval `a` comes no later than `b`.
fn ivl_not_after(a: Interval, b: Interval) -> (r: bool)
    ensures
        r == ivl_le(a, b),
{
    let na = a.number().get();
    let nb = b.number().get();
    na < nb || (na == nb && a.semitones_wide() <= b.semitones_wide())
}

/// The intervals of `v` in order (see [`ivl_le`]).
pub(crate) fn sort_intervals(v: &[Interval]) -> (r: Vec<Interval>)
    ensures
        r@.to_multiset() == v@.to_multiset(),
        ivls_sorted(r@),
{
    broadcast use vstd::seq_lib::group_seq_properties;
    let mut out: Vec<Interval> = Vec::new();
    let mut i: usize = 0;
    while i < v.len()
        invariant
            i <= v@.len(),
            out@.to_multiset() == v@.take(i as int).to_multiset(),
            ivls_sorted(out@),
        decreases v@.len() - i,
    {
        let x = v[i];
        let mut p: usize = 0;
        while p < out.len() && ivl_not_after(out[p], x)
            invariant
                p <= out@.len(),
                forall|q: int| 0 <= q < p ==> ivl_le(#[trigger] out@[q], x),
            decreases out@.len() - p,
        {
            p = p + 1;
        }
        let ghost old_out = out@;
        out.insert(p, x);
        proof {
            assert(out@ == old_out.insert(p as int, x));
            assert forall|a: int, b: int| 0 <= a < b < out@.len() implies ivl_le(#[trigger] out@[a], #[trigger] out@[b]) by {
                if b < p {
                    assert(out@[a] == old_out[a] && out@[b] == old_out[b]);
                } else if b == p {
                    assert(out@[a] == old_out[a]);
                } else if a == p {
                    assert(out@[b] == old_out[b - 1]);
                    assert(!ivl_le(old_out[p as int], x));
                    assert(ivl_le(old_out[p as int], old_out[b - 1]));
                } else if a < p {
                    assert(out@[a] == old_out[a] && out@[b] == old_out[b - 1]);
                } else {
                    assert(out@[a] == old_out[a - 1] && out@[b] == old_out[b - 1]);
                }
            }
            assert(v@.take(i as int + 1) =~= v@.take(i as int).push(x));
            assert(out@.remove(p as int) =~= old_out);
            out@.to_multiset_ensures();
            old_out.to_multiset_ensures();
            v@.take(i as int).to_multiset_ensures();
            assert(out@[p as int] == x);
            assert(out@.to_multiset() =~= old_out.to_multiset().insert(x));
        }
        i = i + 1;
    }
    proof { assert(v@.take(v@.len() as int) =~= v@); }
    out
}

/// Why intervals do not make a chord shape.
#[derive(Debug, Clone, Copy, PartialEq, Eq)]
pub enum ChordShapeFromIntervalsError {
    /// There was no interval.
    Empty,
    /// The first interval was not a perfect unison.
    NoInitialP1,
    /// The intervals were not in order (see [`ivl_le`]).
    NotSorted,
    /// Some interval came twice.
    ContainsDuplicates,
}

/// What [`ChordShape::from_intervals`] gives for `s`: `Empty`, `NoInitialP1`,
/// `NotSorted` and `ContainsDuplicates` checked in turn.
pub open spec fn from_intervals_check(s: Seq<Interval>) -> Option<ChordShapeFromIntervalsError> {
    if s.len() == 0 {
        Some(ChordShapeFromIntervalsError::Empty)
    } else if s[0] != ivl(Quality::Perfect, 1) {
        Some(ChordShapeFromIntervalsError::NoInitialP1)
    } else if !ivls_sorted(s) {
        Some(ChordShapeFromIntervalsError::NotSorted)
    } else if !s.no_duplicates() {
        Some(ChordShapeFromIntervalsError::ContainsDuplicates)
    } else {
        None
    }
}

/// Intervals each ordered no later than the next come in order.
proof fn lemma_sorted_from_adjacent(s: Seq<Interval>)
    requires
        forall|i: int| 0 <= i < s.len() - 1 ==> ivl_le(#[trigger] s[i], s[i + 1]),
    ensures
        ivls_sorted(s),
{
    assert forall|i: int, j: int| 0 <= i < j < s.len() implies ivl_le(#[trigger] s[i], #[trigger] s[j]) by {
        lemma_sorted_chain(s, i, j);
    }
}

/// Order along a chain of neighbours.
proof fn lemma_sorted_chain(s: Seq<Interval>, i: int, j: int)
    requires
        0 <= i < j < s.len(),
        forall|k: int| 0 <= k < s.len() - 1 ==> ivl_le(#[trigger] s[k], s[k + 1]),
    ensures
        ivl_le(s[i], s[j]),
    decreases j - i,
{
    if j > i + 1 {
        lemma_sorted_chain(s, i, j - 1);
        assert(ivl_le(s[j - 1], s[j]));
    } else {
        assert(ivl_le(s[i], s[i + 1]));
    }
}

/// The intervals of each known chord start with a unison and rise in number, so
/// none occurs twice.
proof fn lemma_known_shape_ok(k: KnownChord)
    ensures
        shape_ok(known_intervals(k)),
{
    lemma_mk(Quality::Perfect, 1);
    lemma_mk(Quality::Major, 2);
    lemma_mk(Quality::Minor, 3);
    lemma_mk(Quality::Major, 3);
    lemma_mk(Quality::Perfect, 4);
    lemma_mk(Quality::Diminished(1), 5);
    lemma_mk(Quality::Perfect, 5);
    lemma_mk(Quality::Augmented(1), 5);
    lemma_mk(Quality::Major, 6);
    lemma_mk(Quality::Diminished(1), 7);
    lemma_mk(Quality::Minor, 7);
    lemma_mk(Quality::Major, 7);
    lemma_mk(Quality::Minor, 9);
    lemma_mk(Quality::Major, 9);
    lemma_mk(Quality::Augmented(1), 9);
    lemma_mk(Quality::Perfect, 11);
    lemma_mk(Quality::Augmented(1), 11);
    lemma_mk(Quality::Minor, 13);
    lemma_mk(Quality::Major, 13);
    let s = known_intervals(k);
    assert forall|i: int, j: int| 0 <= i < j < s.len() implies s[i].num() < s[j].num() by {
        assert(s[i].num() < s[j].num());
    }
    assert forall|i: int, j: int| 0 <= i < s.len() && 0 <= j < s.len() && i != j implies s[i] != s[j] by {
        if i < j {
            assert(s[i].num() < s[j].num());
        } else {
            assert(s[j].num() < s[i].num());
        }
    }
}

/// The shape of a chord: the intervals of its tones above the root, starting with
/// a perfect unison, each interval once.
#[derive(Debug, Eq, PartialEq, Hash)]
pub struct ChordShape {
    intervals: Vec<Interval>,
}

impl ChordShape {
    /// The intervals of the shape.
    pub closed spec fn ivls(self) -> Seq<Interval> {
        self.intervals@
    }

    /// A shape starts with a unison and holds no interval twice.
    #[verifier::type_invariant]
    pub open spec fn well_formed(self) -> bool {
        shape_ok(self.ivls())
    }

    /// The shape with the intervals `intervals`, which start with a unison and hold
    /// no interval twice.
    pub(crate) fn from_checked(intervals: Vec<Interval>) -> (r: ChordShape)
        requires
            shape_ok(intervals@),
        ensures
            r.ivls() == intervals@,
    {
        ChordShape { intervals }
    }

    /// The shape with the intervals `intervals`: `Empty` without any,
    /// `NoInitialP1` when the first is no perfect unison, `NotSorted` when they do
    /// not come in order (see [`ivl_le`]), `ContainsDuplicates` when one comes twice.
    pub fn from_intervals(intervals: &[Interval]) -> (r: Result<ChordShape, ChordShapeFromIntervalsError>)
        ensures
            r is Ok <==> from_intervals_check(intervals@) is None,
            r matches Ok(c) ==> c.ivls() == intervals@,
            r matches Err(e) ==> from_intervals_check(intervals@) == Some(e),
    {
        let ghost s = intervals@;
        let n = intervals.len();
        if n == 0 {
            return Err(ChordShapeFromIntervalsError::Empty);
        }
        let p1 = Interval::PERFECT_UNISON();
        proof { lemma_mk(Quality::Perfect, 1); }
        if intervals[0] != p1 {
            return Err(ChordShapeFromIntervalsError::NoInitialP1);
        }
        let mut i: usize = 0;
        while i + 1 < n
            invariant
                s == intervals@,
                n == s.len(),
                n >= 1,
                s[0] == ivl(Quality::Perfect, 1),
                i < n,
                forall|k: int| 0 <= k < i ==> ivl_le(#[trigger] s[k], s[k + 1]),
            decreases n - i,
        {
            if !ivl_not_after(intervals[i], intervals[i + 1]) {
                proof {
                    assert(!ivl_le(s[i as int], s[i as int + 1]));
                    assert(!ivls_sorted(s));
                }
                return Err(ChordShapeFromIntervalsError::NotSorted);
            }
            i = i + 1;
        }
        proof { lemma_sorted_from_adjacent(s); }
        let mut a: usize = 0;
        while a < n
            invariant
                s == intervals@,
                n == s.len(),
                n >= 1,
                s[0] == ivl(Quality::Perfect, 1),
                ivls_sorted(s),
                a <= n,
                forall|x: int, y: int| 0 <= x < a && 0 <= y < n && x != y ==> s[x] != s[y],
            decreases n - a,
        {
            let mut b: usize = 0;
            while b < n
                invariant
                    s == intervals@,
                    n == s.len(),
                    n >= 1,
                    s[0] == ivl(Quality::Perfect, 1),
                    ivls_sorted(s),
                    a < n,
                    b <= n,
                    forall|y: int| 0 <= y < b && y != a ==> s[a as int] != s[y],
                decreases n - b,
            {
                if b != a && intervals[a] == intervals[b] {
                    proof { assert(!s.no_duplicates()); }
                    return Err(ChordShapeFromIntervalsError::ContainsDuplicates);
                }
                b = b + 1;
            }
            a = a + 1;
        }
        let mut v: Vec<Interval> = Vec::new();
        let mut k: usize = 0;
        while k < n
            invariant
                s == intervals@,
                n == s.len(),
                k <= n,
                v@ == s.take(k as int),
            decreases n - k,
        {
            v.push(intervals[k]);
            proof { assert(v@ =~= s.take(k as int + 1)); }
            k = k + 1;
        }
        proof { assert(v@ =~= s); }
        Ok(ChordShape { intervals: v })
    }

    /// The shape with `interval` added in its place in the order (see
    /// [`ivl_le`]), or `None` when it is not ascending or already in the shape. The
    /// interval may not come before the unison.
    pub fn with_interval(&self, interval: Interval) -> (r: Option<ChordShape>)
        requires
            ivl_le(ivl(Quality::Perfect, 1), interval),
        ensures
            r is None <==> (interval.num() <= 0 || self.ivls().contains(interval)),
            r matches Some(c) ==> c.ivls().to_multiset() == self.ivls().to_multiset().insert(interval),
    {
        proof { use_type_invariant(self); }
        if !interval.is_ascending() || self.has_interval(interval) {
            return None;
        }
        let ghost s = self.ivls();
        let n = self.intervals.len();
        let mut p: usize = 0;
        while p < n && ivl_not_after(self.intervals[p], interval)
            invariant
                s == self.intervals@,
                n == s.len(),
                p <= n,
                forall|q: int| 0 <= q < p ==> ivl_le(#[trigger] s[q], interval),
            decreases n - p,
        {
            p = p + 1;
        }
        let mut v = self.intervals.clone();
        proof { assert(v@ == s); }
        v.insert(p, interval);
        proof {
            broadcast use vstd::seq_lib::group_seq_properties;
            assert(v@ == s.insert(p as int, interval));
            lemma_mk(Quality::Perfect, 1);
            if p == 0 {
                assert(!ivl_le(s[0], interval));
                assert(false);
            }
            assert(v@[0] == s[0]);
            assert forall|a: int, b: int| 0 <= a < b < v@.len() implies ivl_le(#[trigger] v@[a], #[trigger] v@[b]) by {
                if b < p {
                    assert(v@[a] == s[a] && v@[b] == s[b]);
                } else if b == p {
                    assert(v@[a] == s[a]);
                } else if a == p {
                    assert(v@[b] == s[b - 1]);
                    assert(!ivl_le(s[p as int], interval));
                    assert(ivl_le(s[p as int], s[b - 1]));
                } else if a < p {
                    assert(v@[a] == s[a] && v@[b] == s[b - 1]);
                } else {
                    assert(v@[a] == s[a - 1] && v@[b] == s[b - 1]);
                }
            }
            assert forall|a: int, b: int| 0 <= a < v@.len() && 0 <= b < v@.len() && a != b implies v@[a] != v@[b] by {
                let sa = if a < p { a } else { a - 1 };
                let sb = if b < p { b } else { b - 1 };
                if a != p && b != p {
                    assert(v@[a] == s[sa] && v@[b] == s[sb]);
                } else if a == p {
                    assert(v@[b] == s[sb]);
                } else {
                    assert(v@[a] == s[sa]);
                }
            }
            assert(v@.remove(p as int) =~= s);
            v@.to_multiset_ensures();
            s.to_multiset_ensures();
            assert(v@.to_multiset() =~= s.to_multiset().insert(interval));
        }
        Some(ChordShape { intervals: v })
    }

    /// The intervals of the shape, from the unison on.
    pub fn intervals(&self) -> (r: &[Interval])
        ensures
            r@ == self.ivls(),
    {
        self.intervals.as_slice()
    }

    /// The number of intervals (tones) in the shape; never zero.
    pub fn len(&self) -> (r: usize)
        ensures
            r == self.ivls().len(),
            r >= 1,
    {
        proof { use_type_invariant(self); }
        self.intervals.len()
    }

    /// Whether the shape holds `interval`.
    pub fn has_interval(&self, interval: Interval) -> (r: bool)
        ensures
            r == self.ivls().contains(interval),
    {
        let mut k: usize = 0;
        while k < self.intervals.len()
            invariant
                k <= self.ivls().len(),
                self.ivls() == self.intervals@,
                forall|j: int| 0 <= j < k ==> self.ivls()[j] != interval,
            decreases self.ivls().len() - k,
        {
            if self.intervals[k] == interval {
                return true;
            }
            k = k + 1;
        }
        false
    }

    /// The first interval of the shape with number `num`, or `None` (always for a
    /// descending number).
    pub fn interval_of(&self, num: Number) -> (r: Option<Interval>)
        ensures
            r == interval_with_number(self.ivls(), num.value()),
    {
        if !num.is_ascending() {
            return None;
        }
        let k = position_of_number(&self.intervals, num.get());
        if k < self.intervals.len() {
            Some(self.intervals[k])
        } else {
            None
        }
    }

    /// Whether the degree `number` occurs twice in a row (such as a minor and a
    /// major third); always `false` for a descending number.
    pub fn has_repeated_chord_step(&self, number: Number) -> (r: bool)
        ensures
            r == (number.value() > 0 && repeated_step(self.ivls(), number.value())),
    {
        if !number.is_ascending() {
            return false;
        }
        let n = number.get();
        let len = self.intervals.len();
        let last = if len > 0 { len - 1 } else { 0 };
        let mut k: usize = 0;
        while k < last
            invariant
                len == self.ivls().len(),
                last == (if len > 0 { len - 1 } else { 0 }),
                n == number.value(),
                number.value() > 0,
                self.ivls() == self.intervals@,
                k <= len,
                forall|j: int| 0 <= j < k && j < len - 1 ==> !((#[trigger] self.ivls()[j]).num() == n && self.ivls()[j + 1].num() == n),
            decreases len - k,
        {
            if self.intervals[k].number().get() == n && self.intervals[k + 1].number().get() == n {
                proof {
                    assert(self.ivls()[k as int].num() == n && self.ivls()[k + 1].num() == n);
                }
                return true;
            }
            k = k + 1;
        }
        false
    }

    /// Whether any degree occurs twice in a row.
    pub fn has_any_repeated_diatonic_note(&self) -> (r: bool)
        ensures
            r == any_repeated_step(self.ivls()),
    {
        let len = self.intervals.len();
        let last = if len > 0 { len - 1 } else { 0 };
        let mut k: usize = 0;
        while k < last
            invariant
                len == self.ivls().len(),
                last == (if len > 0 { len - 1 } else { 0 }),
                self.ivls() == self.intervals@,
                k <= len,
                forall|j: int| 0 <= j < k && j < len - 1 ==> (#[trigger] self.ivls()[j]).num() != self.ivls()[j + 1].num(),
            decreases len - k,
        {
            if self.intervals[k].number().get() == self.intervals[k + 1].number().get() {
                proof {
                    assert(self.ivls()[k as int].num() == self.ivls()[k + 1].num());
                }
                return true;
            }
            k = k + 1;
        }
        false
    }

    /// The shape without its first interval of number `number`; `None` when no
    /// interval has that number, or for the unison (which always stays).
    pub fn without_degree(&self, number: Number) -> (r: Option<ChordShape>)
        ensures
            r is Some <==> (number.value() != 1 && has_number(self.ivls(), number.value())),
            r matches Some(x) ==> x.ivls() == self.ivls().remove(first_with_number(self.ivls(), number.value())),
    {
        proof {
            use_type_invariant(self);
            lemma_first_with_number(self.ivls(), number.value());
            lemma_mk(Quality::Perfect, 1);
        }
        if number.get() == 1 {
            return None;
        }
        let pos = position_of_number(&self.intervals, number.get());
        if pos >= self.intervals.len() {
            return None;
        }
        let mut intervals = self.intervals.clone();
        proof { assert(intervals@ == self.ivls()); }
        let ghost before = intervals@;
        intervals.remove(pos);
        proof {
            assert(pos > 0);
            assert(intervals@ == before.remove(pos as int));
            assert(intervals@[0] == before[0]);
            assert forall|i: int, j: int| 0 <= i < intervals@.len() && 0 <= j < intervals@.len() && i != j implies intervals@[i] != intervals@[j] by {
                let bi = if i < pos { i } else { i + 1 };
                let bj = if j < pos { j } else { j + 1 };
                assert(intervals@[i] == before[bi]);
                assert(intervals@[j] == before[bj]);
            }
        }
        Some(ChordShape { intervals })
    }

    /// Whether the shape has three tones.
    pub fn is_triad(&self) -> (r: bool)
        ensures
            r == (self.ivls().len() == 3),
    {
        self.intervals.len() == 3
    }

    /// Whether the shape has a seventh.
    pub fn is_seventh(&self) -> (r: bool)
        ensures
            r == has_number(self.ivls(), 7),
    {
        contains_number(&self.intervals, 7)
    }

    /// Whether the shape has a ninth, an eleventh or a thirteenth.
    pub fn is_extended(&self) -> (r: bool)
        ensures
            r == (has_number(self.ivls(), 9) || has_number(self.ivls(), 11) || has_number(self.ivls(), 13)),
    {
        contains_number(&self.intervals, 9) || contains_number(&self.intervals, 11)
            || contains_number(&self.intervals, 13)
    }

    /// Whether the shape has a third and a fifth.
    pub fn contains_triad(&self) -> (r: bool)
        ensures
            r == (has_number(self.ivls(), 3) && has_number(self.ivls(), 5)),
    {
        contains_number(&self.intervals, 3) && contains_number(&self.intervals, 5)
    }

    /// Whether the shape has a major third and a perfect fifth.
    pub fn is_major(&self) -> (r: bool)
        ensures
            r == (self.ivls().contains(ivl(Quality::Major, 3)) && self.ivls().contains(ivl(Quality::Perfect, 5))),
    {
        self.has_interval(Interval::MAJOR_THIRD()) && self.has_interval(Interval::PERFECT_FIFTH())
    }

    /// Whether the shape has a minor third and a perfect fifth.
    pub fn is_minor(&self) -> (r: bool)
        ensures
            r == (self.ivls().contains(ivl(Quality::Minor, 3)) && self.ivls().contains(ivl(Quality::Perfect, 5))),
    {
        self.has_interval(Interval::MINOR_THIRD()) && self.has_interval(Interval::PERFECT_FIFTH())
    }

    /// Whether the shape has a minor third and a diminished fifth.
    pub fn is_diminished(&self) -> (r: bool)
        ensures
            r == (self.ivls().contains(ivl(Quality::Minor, 3)) && self.ivls().contains(ivl(Quality::Diminished(1), 5))),
    {
        self.has_interval(Interval::MINOR_THIRD()) && self.has_interval(Interval::DIMINISHED_FIFTH())
    }

    /// Whether the shape has a major third and an augmented fifth.
    pub fn is_augmented(&self) -> (r: bool)
        ensures
            r == (self.ivls().contains(ivl(Quality::Major, 3)) && self.ivls().contains(ivl(Quality::Augmented(1), 5))),
    {
        self.has_interval(Interval::MAJOR_THIRD()) && self.has_interval(Interval::AUGMENTED_FIFTH())
    }

    /// Whether the shape has no third, but a major second or a perfect fourth.
    pub fn is_suspended(&self) -> (r: bool)
        ensures
            r == (!has_number(self.ivls(), 3) && (self.ivls().contains(ivl(Quality::Major, 2))
                || self.ivls().contains(ivl(Quality::Perfect, 4)))),
    {
        !contains_number(&self.intervals, 3)
            && (self.has_interval(Interval::MAJOR_SECOND()) || self.has_interval(Interval::PERFECT_FOURTH()))
    }

    /// Whether the shape has a major third and a minor seventh.
    pub fn is_dominant(&self) -> (r: bool)
        ensures
            r == (self.ivls().contains(ivl(Quality::Major, 3)) && self.ivls().contains(ivl(Quality::Minor, 7))),
    {
        self.has_interval(Interval::MAJOR_THIRD()) && self.has_interval(Interval::MINOR_SEVENTH())
    }

    /// Whether the shape has a major third, a perfect fifth and a minor seventh.
    pub fn is_dominant_seventh(&self) -> (r: bool)
        ensures
            r == (self.ivls().contains(ivl(Quality::Major, 3)) && self.ivls().contains(ivl(Quality::Perfect, 5))
                && self.ivls().contains(ivl(Quality::Minor, 7))),
    {
        self.has_interval(Interval::MAJOR_THIRD()) && self.has_interval(Interval::PERFECT_FIFTH())
            && self.has_interval(Interval::MINOR_SEVENTH())
    }

    /// Whether the shape has a minor third, a diminished fifth and a minor seventh.
    pub fn is_half_diminished(&self) -> (r: bool)
        ensures
            r == (self.ivls().contains(ivl(Quality::Minor, 3)) && self.ivls().contains(ivl(Quality::Diminished(1), 5))
                && self.ivls().contains(ivl(Quality::Minor, 7))),
    {
        self.has_interval(Interval::MINOR_THIRD()) && self.has_interval(Interval::DIMINISHED_FIFTH())
            && self.has_interval(Interval::MINOR_SEVENTH())
    }

    /// Whether the shape has a minor third, a diminished fifth and a diminished seventh.
    pub fn is_diminished_seventh(&self) -> (r: bool)
        ensures
            r == (self.ivls().contains(ivl(Quality::Minor, 3)) && self.ivls().contains(ivl(Quality::Diminished(1), 5))
                && self.ivls().contains(ivl(Quality::Diminished(1), 7))),
    {
        self.has_interval(Interval::MINOR_THIRD()) && self.has_interval(Interval::DIMINISHED_FIFTH())
            && self.has_interval(Interval::DIMINISHED_SEVENTH())
    }

    /// Whether the chord sounds consonant: a single note, a consonant dyad, or a
    /// major or minor triad.
    pub fn is_consonant(&self) -> (r: bool)
        ensures
            r == consonant_shape(self.ivls()),
    {
        proof { use_type_invariant(self); }
        let len = self.intervals.len();
        if len == 1 {
            true
        } else if len == 2 {
            match self.intervals[1].stability() {
                Some(st) => st.is_consonant(),
                None => false,
            }
        } else if len == 3 {
            self.is_major() || self.is_minor()
        } else {
            false
        }
    }

    /// The known chord with this shape, if any.
    pub fn known(&self) -> (r: Option<KnownChord>)
        ensures
            r == first_known(self.ivls(), 0),
    {
        find_known(self.intervals.as_slice())
    }
}

impl Clone for ChordShape {
    fn clone(&self) -> (r: ChordShape)
        ensures
            r.ivls() == self.ivls(),
    {
        proof { use_type_invariant(self); }
        ChordShape { intervals: self.intervals.clone() }
    }
}

impl KnownChord {
    /// The shape of the chord.
    pub fn shape(self) -> (r: ChordShape)
        ensures
            r.ivls() == known_intervals(self),
    {
        proof { lemma_known_shape_ok(self); }
        ChordShape { intervals: self.intervals() }
    }
}

impl EnharmonicEq for ChordShape {
    open spec fn sounds_like(&self, other: &ChordShape) -> bool {
        &&& self.ivls().len() == other.ivls().len()
        &&& forall|i: int| 0 <= i < self.ivls().len() ==> (#[trigger] self.ivls()[i]).semis() == other.ivls()[i].semis()
    }

    fn eq_enharmonic(&self, other: &ChordShape) -> (r: bool) {
        if self.intervals.len() != other.intervals.len() {
            return false;
        }
        let mut k: usize = 0;
        while k < self.intervals.len()
            invariant
                k <= self.ivls().len(),
                self.ivls() == self.intervals@,
                other.ivls() == other.intervals@,
                self.ivls().len() == other.ivls().len(),
                forall|i: int| 0 <= i < k ==> (#[trigger] self.ivls()[i]).semis() == other.ivls()[i].semis(),
            decreases self.ivls().len() - k,
        {
            if !self.intervals[k].eq_enharmonic(&other.intervals[k]) {
                return false;
            }
            k = k + 1;
        }
        true
    }
}

} // verus!
