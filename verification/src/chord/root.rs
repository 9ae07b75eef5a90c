//! Finding the root of a chord from its pitches.
//!
//! The search has two phases. First, the pitches are read once, keeping the first
//! pitch of each letter and the first pitch of each pitch class (reading stops once
//! all twelve pitch classes have been seen). If some pitch, taken as root, makes the
//! letters form a common shape (a single note, a bare third, a triad, a seventh chord,
//! or a suspended chord), the first such pitch is the root. Otherwise each distinct
//! pitch class is scored by root-support weights after Parncutt (1988), and the pitch
//! with the highest score wins (the last one on a tie).

use vstd::prelude::*;
use arrayvec::ArrayVec;
use crate::chord::LetterSet;
use crate::pcset::PitchClassSet;
use crate::pitch::{Letter, Pitch};

verus! {

broadcast use vstd::seq_lib::group_seq_properties;

#[verifier::external_type_specification]
#[verifier::external_body]
#[verifier::reject_recursive_types(T)]
pub struct ExArrayVec<T, const CAP: usize>(arrayvec::ArrayVec<T, CAP>);

/// The pitches a buffer of capacity seven holds, in order.
pub uninterp spec fn letter_buffer_items(v: ArrayVec<Pitch, 7>) -> Seq<Pitch>;

/// The pitches a buffer of capacity twelve holds, in order.
pub uninterp spec fn class_buffer_items(v: ArrayVec<Pitch, 12>) -> Seq<Pitch>;

/// `ArrayVec::new`: an empty buffer of capacity seven.
#[verifier::external_body]
fn new_letter_buffer() -> (r: ArrayVec<Pitch, 7>)
    ensures
        letter_buffer_items(r) == Seq::<Pitch>::empty(),
{
    ArrayVec::new()
}

/// `ArrayVec::push` on a buffer of capacity seven: appends `p` at the end. It
/// panics on a full buffer, which the precondition rules out.
#[verifier::external_body]
fn push_letter_buffer(v: &mut ArrayVec<Pitch, 7>, p: Pitch)
    requires
        letter_buffer_items(*old(v)).len() < 7,
    ensures
        letter_buffer_items(*final(v)) == letter_buffer_items(*old(v)).push(p),
{
    v.push(p)
}

/// `ArrayVec::as_slice` on a buffer of capacity seven: its items, in order.
#[verifier::external_body]
fn letter_buffer_slice(v: &ArrayVec<Pitch, 7>) -> (r: &[Pitch])
    ensures
        r@ == letter_buffer_items(*v),
{
    v.as_slice()
}

/// `ArrayVec::new`: an empty buffer of capacity twelve.
#[verifier::external_body]
fn new_class_buffer() -> (r: ArrayVec<Pitch, 12>)
    ensures
        class_buffer_items(r) == Seq::<Pitch>::empty(),
{
    ArrayVec::new()
}

/// `ArrayVec::push` on a buffer of capacity twelve: appends `p` at the end. It
/// panics on a full buffer, which the precondition rules out.
#[verifier::external_body]
fn push_class_buffer(v: &mut ArrayVec<Pitch, 12>, p: Pitch)
    requires
        class_buffer_items(*old(v)).len() < 12,
    ensures
        class_buffer_items(*final(v)) == class_buffer_items(*old(v)).push(p),
{
    v.push(p)
}

/// `ArrayVec::as_slice` on a buffer of capacity twelve: its items, in order.
#[verifier::external_body]
fn class_buffer_slice(v: &ArrayVec<Pitch, 12>) -> (r: &[Pitch])
    ensures
        r@ == class_buffer_items(*v),
{
    v.as_slice()
}

/// Whether some pitch of `d` has letter `l`.
pub open spec fn has_letter(d: Seq<Pitch>, l: Letter) -> bool {
    exists|i: int| 0 <= i < d.len() && (#[trigger] d[i]).letter == l
}

/// Whether some pitch of `d` has chroma `c`.
pub open spec fn has_class(d: Seq<Pitch>, c: int) -> bool {
    exists|i: int| 0 <= i < d.len() && (#[trigger] d[i]).pc() == c
}

/// Whether no two pitches of `d` share a letter.
pub open spec fn letters_distinct(d: Seq<Pitch>) -> bool {
    forall|i: int, j: int| 0 <= i < j < d.len() ==> (#[trigger] d[i]).letter != (#[trigger] d[j]).letter
}

/// Whether no two pitches of `d` share a pitch class.
pub open spec fn classes_distinct(d: Seq<Pitch>) -> bool {
    forall|i: int, j: int| 0 <= i < j < d.len() ==> (#[trigger] d[i]).pc() != (#[trigger] d[j]).pc()
}

/// The first pitch of each letter in `s`, in the order they come.
pub open spec fn firsts_by_letter(s: Seq<Pitch>) -> Seq<Pitch>
    decreases s.len(),
{
    if s.len() == 0 {
        Seq::empty()
    } else {
        let d = firsts_by_letter(s.drop_last());
        if has_letter(d, s.last().letter) {
            d
        } else {
            d.push(s.last())
        }
    }
}

/// The first pitch of each pitch class in `s`, in the order they come.
pub open spec fn firsts_by_class(s: Seq<Pitch>) -> Seq<Pitch>
    decreases s.len(),
{
    if s.len() == 0 {
        Seq::empty()
    } else {
        let d = firsts_by_class(s.drop_last());
        if has_class(d, s.last().pc()) {
            d
        } else {
            d.push(s.last())
        }
    }
}

/// Whether all twelve pitch classes occur in `s`.
pub open spec fn covers_all_classes(s: Seq<Pitch>) -> bool {
    forall|c: int| 0 <= c < 12 ==> #[trigger] has_class(s, c)
}

/// How many pitches of `s` are read, going on from position `k`: up to and
/// including the first one after which all twelve pitch classes have occurred.
pub open spec fn read_from(s: Seq<Pitch>, k: int) -> int
    decreases s.len() - k,
{
    if k >= s.len() {
        s.len() as int
    } else if covers_all_classes(s.take(k + 1)) {
        k + 1
    } else {
        read_from(s, k + 1)
    }
}

/// The pitches of `s` that are read.
pub open spec fn read_part(s: Seq<Pitch>) -> Seq<Pitch> {
    s.take(read_from(s, 0))
}

/// The interval number, counted in letters (1 for the same letter), from `c` up to `l`.
pub open spec fn letter_number(c: Letter, l: Letter) -> int {
    (l.idx() - c.idx()) % 7 + 1
}

/// The bit mask of the interval numbers from `c` to the letters of `ls`.
pub open spec fn letter_mask(c: Letter, ls: Seq<Pitch>) -> u8
    decreases ls.len(),
{
    if ls.len() == 0 {
        0u8
    } else {
        letter_mask(c, ls.drop_last()) | (1u8 << (letter_number(c, ls.last().letter) as u8))
    }
}

/// The number masks of the common shapes: a single note `{1}`, a bare third `{1, 3}`,
/// a triad `{1, 3, 5}`, a seventh chord `{1, 3, 5, 7}`, and the suspended chords
/// `{1, 4, 5}` and `{1, 2, 5}`.
pub open spec fn is_chord_pattern(m: u8) -> bool {
    m == 0b0000_0010u8 || m == 0b0000_1010u8 || m == 0b0010_1010u8 || m == 0b1010_1010u8
        || m == 0b0011_0010u8 || m == 0b0010_0110u8
}

/// The first pitch of `ls`, from position `i` on, that as a root makes the letters
/// of `ls` a common shape.
pub open spec fn first_shape_root(ls: Seq<Pitch>, i: int) -> Option<Pitch>
    decreases ls.len() - i,
{
    if i < 0 || i >= ls.len() {
        None
    } else if is_chord_pattern(letter_mask(ls[i].letter, ls)) {
        Some(ls[i])
    } else {
        first_shape_root(ls, i + 1)
    }
}

/// Whether the letter of some pitch of `t` is reached by going `n - 1` letters up
/// from `c` (so that `c` itself is 1, the letter above it 2, and so on).
pub open spec fn spans_number(c: Letter, t: Seq<Pitch>, n: int) -> bool {
    exists|j: int| 0 <= j < t.len() && (#[trigger] t[j]).letter.idx() == (c.idx() + n - 1) % 7
}

/// Whether the letters of `t`, counted up from `c`, give exactly the numbers `ns`.
pub open spec fn numbers_exactly(c: Letter, t: Seq<Pitch>, ns: Set<int>) -> bool {
    forall|n: int| 1 <= n <= 7 ==> (#[trigger] spans_number(c, t, n) <==> ns.contains(n))
}

/// Whether the letters of `t`, counted up from `c`, make a common chord shape: a
/// single note {1}, a bare third {1, 3}, a triad {1, 3, 5}, a seventh chord
/// {1, 3, 5, 7}, or a suspended chord {1, 4, 5} or {1, 2, 5}.
pub open spec fn common_shape(c: Letter, t: Seq<Pitch>) -> bool {
    ||| numbers_exactly(c, t, set![1int])
    ||| numbers_exactly(c, t, set![1int, 3])
    ||| numbers_exactly(c, t, set![1int, 3, 5])
    ||| numbers_exactly(c, t, set![1int, 3, 5, 7])
    ||| numbers_exactly(c, t, set![1int, 4, 5])
    ||| numbers_exactly(c, t, set![1int, 2, 5])
}

/// Whether bit `k` of `m` is set.
pub open spec fn bit(m: u8, k: u8) -> bool {
    (m >> k) & 1u8 == 1u8
}

/// Setting bit `n` of `m` sets bit `k` exactly when it was set or `k` is `n`.
proof fn lemma_bit_or(m: u8, n: u8, k: u8)
    by (bit_vector)
    requires
        n < 8,
        k < 8,
    ensures
        bit(m | (1u8 << n), k) == (bit(m, k) || n == k),
{
}

/// No bit of zero is set.
proof fn lemma_bit_zero(k: u8)
    by (bit_vector)
    requires
        k < 8,
    ensures
        !bit(0u8, k),
{
}

/// The common shape masks, bit by bit.
proof fn lemma_pattern_bits(m: u8)
    by (bit_vector)
    ensures
        is_chord_pattern(m) <==> {
            ||| (!bit(m, 0) && bit(m, 1) && !bit(m, 2) && !bit(m, 3) && !bit(m, 4) && !bit(m, 5) && !bit(m, 6) && !bit(m, 7))
            ||| (!bit(m, 0) && bit(m, 1) && !bit(m, 2) && bit(m, 3) && !bit(m, 4) && !bit(m, 5) && !bit(m, 6) && !bit(m, 7))
            ||| (!bit(m, 0) && bit(m, 1) && !bit(m, 2) && bit(m, 3) && !bit(m, 4) && bit(m, 5) && !bit(m, 6) && !bit(m, 7))
            ||| (!bit(m, 0) && bit(m, 1) && !bit(m, 2) && bit(m, 3) && !bit(m, 4) && bit(m, 5) && !bit(m, 6) && bit(m, 7))
            ||| (!bit(m, 0) && bit(m, 1) && !bit(m, 2) && !bit(m, 3) && bit(m, 4) && bit(m, 5) && !bit(m, 6) && !bit(m, 7))
            ||| (!bit(m, 0) && bit(m, 1) && bit(m, 2) && !bit(m, 3) && !bit(m, 4) && bit(m, 5) && !bit(m, 6) && !bit(m, 7))
        },
{
}

/// A letter is `n` letters up from `c`, counted from 1, just when it is reached by
/// going `n - 1` letters up.
proof fn lemma_number_letter(c: Letter, l: Letter, n: int)
    requires
        1 <= n <= 7,
    ensures
        letter_number(c, l) == n <==> l.idx() == (c.idx() + n - 1) % 7,
{
}

/// Bit 0 of the number mask from `c` is clear, and bit `k` from 1 to 7 is set
/// exactly when some letter of `ls` lies `k` letters up from `c`.
proof fn lemma_mask_bits(c: Letter, ls: Seq<Pitch>)
    ensures
        !bit(letter_mask(c, ls), 0),
        forall|k: u8| 1 <= k < 8 ==> (#[trigger] bit(letter_mask(c, ls), k) <==> spans_number(c, ls, k as int)),
    decreases ls.len(),
{
    if ls.len() == 0 {
        lemma_bit_zero(0);
        assert forall|k: u8| 1 <= k < 8 implies (#[trigger] bit(letter_mask(c, ls), k) <==> spans_number(c, ls, k as int)) by {
            lemma_bit_zero(k);
        }
    } else {
        let e = ls.drop_last();
        lemma_mask_bits(c, e);
        let n = letter_number(c, ls.last().letter);
        assert(1 <= n <= 7);
        lemma_bit_or(letter_mask(c, e), n as u8, 0);
        assert forall|k: u8| 1 <= k < 8 implies (#[trigger] bit(letter_mask(c, ls), k) <==> spans_number(c, ls, k as int)) by {
            lemma_bit_or(letter_mask(c, e), n as u8, k);
            lemma_number_letter(c, ls.last().letter, k as int);
            if spans_number(c, ls, k as int) {
                let j = choose|j: int| 0 <= j < ls.len() && (#[trigger] ls[j]).letter.idx() == (c.idx() + k - 1) % 7;
                if j < e.len() {
                    assert(e[j] == ls[j]);
                } else {
                    assert(ls[j] == ls.last());
                }
            }
            if spans_number(c, e, k as int) {
                let j = choose|j: int| 0 <= j < e.len() && (#[trigger] e[j]).letter.idx() == (c.idx() + k - 1) % 7;
                assert(ls[j] == e[j]);
            }
            if n == k as int {
                assert(ls[ls.len() - 1] == ls.last());
            }
        }
    }
}

/// The letters of `t` give exactly `ns` when, number by number from 1 to 7, each is
/// given just when `ns` holds it.
proof fn lemma_numbers_exactly(c: Letter, t: Seq<Pitch>, ns: Set<int>)
    ensures
        numbers_exactly(c, t, ns) <==> {
            &&& spans_number(c, t, 1) == ns.contains(1)
            &&& spans_number(c, t, 2) == ns.contains(2)
            &&& spans_number(c, t, 3) == ns.contains(3)
            &&& spans_number(c, t, 4) == ns.contains(4)
            &&& spans_number(c, t, 5) == ns.contains(5)
            &&& spans_number(c, t, 6) == ns.contains(6)
            &&& spans_number(c, t, 7) == ns.contains(7)
        },
{
}

/// The number mask of `ls` from `c` is a common shape mask exactly when the letters
/// of `ls` make a common shape from `c`.
proof fn lemma_pattern_shape(c: Letter, ls: Seq<Pitch>)
    ensures
        is_chord_pattern(letter_mask(c, ls)) <==> common_shape(c, ls),
{
    let m = letter_mask(c, ls);
    lemma_mask_bits(c, ls);
    lemma_pattern_bits(m);
    assert(bit(m, 1) == spans_number(c, ls, 1));
    assert(bit(m, 2) == spans_number(c, ls, 2));
    assert(bit(m, 3) == spans_number(c, ls, 3));
    assert(bit(m, 4) == spans_number(c, ls, 4));
    assert(bit(m, 5) == spans_number(c, ls, 5));
    assert(bit(m, 6) == spans_number(c, ls, 6));
    assert(bit(m, 7) == spans_number(c, ls, 7));
    lemma_numbers_exactly(c, ls, set![1int]);
    lemma_numbers_exactly(c, ls, set![1int, 3]);
    lemma_numbers_exactly(c, ls, set![1int, 3, 5]);
    lemma_numbers_exactly(c, ls, set![1int, 3, 5, 7]);
    lemma_numbers_exactly(c, ls, set![1int, 4, 5]);
    lemma_numbers_exactly(c, ls, set![1int, 2, 5]);
}

/// Root-support weight, scaled by 60, of a pitch `d` semitones above a candidate root.
pub open spec fn root_weight(d: int) -> int {
    if d == 0 {
        60
    } else if d == 2 {
        12
    } else if d == 3 {
        6
    } else if d == 4 {
        20
    } else if d == 7 {
        30
    } else if d == 10 {
        15
    } else {
        0
    }
}

/// The root support that the pitches `ps` give to candidate `c`.
pub open spec fn root_support(c: Pitch, ps: Seq<Pitch>) -> int
    decreases ps.len(),
{
    if ps.len() == 0 {
        0
    } else {
        root_support(c, ps.drop_last()) + root_weight((ps.last().semis() - c.semis()) % 12)
    }
}

/// The candidate of `cands` with the highest support from `ps`, the last one on a tie.
pub open spec fn best_supported(cands: Seq<Pitch>, ps: Seq<Pitch>) -> Pitch
    decreases cands.len(),
{
    if cands.len() <= 1 {
        cands[0]
    } else {
        let b = best_supported(cands.drop_last(), ps);
        if root_support(cands.last(), ps) >= root_support(b, ps) {
            cands.last()
        } else {
            b
        }
    }
}

/// The root of a chord with pitches `s`, or `None` when `s` is empty.
pub open spec fn root_of(s: Seq<Pitch>) -> Option<Pitch> {
    let t = read_part(s);
    let cs = firsts_by_class(t);
    if cs.len() == 0 {
        None
    } else if cs.len() == 1 {
        Some(cs[0])
    } else {
        match first_shape_root(firsts_by_letter(t), 0) {
            Some(r) => Some(r),
            None => Some(best_supported(cs, cs)),
        }
    }
}

/// A list of distinct integers in `[0, n)` that misses `x` in `[0, n)` is shorter than `n`.
proof fn lemma_distinct_room(m: Seq<int>, n: int, x: int)
    requires
        m.no_duplicates(),
        forall|i: int| 0 <= i < m.len() ==> 0 <= #[trigger] m[i] < n,
        0 <= x < n,
        !m.contains(x),
    ensures
        m.len() < n,
{
    let r = vstd::set_lib::set_int_range(0, n);
    vstd::set_lib::lemma_int_range(0, n);
    m.unique_seq_to_set();
    assert(m.to_set().subset_of(r.remove(x)));
    vstd::set_lib::lemma_len_subset(m.to_set(), r.remove(x));
}

/// Pitches with distinct letters that miss letter `l` are fewer than seven.
proof fn lemma_letter_room(d: Seq<Pitch>, l: Letter)
    requires
        letters_distinct(d),
        !has_letter(d, l),
    ensures
        d.len() < 7,
{
    let m = d.map_values(|p: Pitch| p.letter.idx());
    assert forall|i: int, j: int| 0 <= i < m.len() && 0 <= j < m.len() && i != j implies m[i] != m[j] by {
        if i < j {
            assert(d[i].letter != d[j].letter);
        } else {
            assert(d[j].letter != d[i].letter);
        }
    }
    if m.contains(l.idx()) {
        let k = choose|k: int| 0 <= k < m.len() && m[k] == l.idx();
        assert(d[k].letter == l);
    }
    lemma_distinct_room(m, 7, l.idx());
}

/// Pitches with distinct pitch classes that miss chroma `c` are fewer than twelve.
proof fn lemma_class_room(d: Seq<Pitch>, c: int)
    requires
        classes_distinct(d),
        !has_class(d, c),
        0 <= c < 12,
    ensures
        d.len() < 12,
{
    let m = d.map_values(|p: Pitch| p.pc());
    assert forall|i: int, j: int| 0 <= i < m.len() && 0 <= j < m.len() && i != j implies m[i] != m[j] by {
        if i < j {
            assert(d[i].pc() != d[j].pc());
        } else {
            assert(d[j].pc() != d[i].pc());
        }
    }
    if m.contains(c) {
        let k = choose|k: int| 0 <= k < m.len() && m[k] == c;
        assert(d[k].pc() == c);
    }
    lemma_distinct_room(m, 12, c);
}

/// Distinct pitch classes are at most twelve.
proof fn lemma_classes_at_most_twelve(d: Seq<Pitch>)
    requires
        classes_distinct(d),
    ensures
        d.len() <= 12,
{
    if d.len() > 0 {
        let c = d.last().pc();
        let e = d.drop_last();
        assert(!has_class(e, c)) by {
            if has_class(e, c) {
                let i = choose|i: int| 0 <= i < e.len() && (#[trigger] e[i]).pc() == c;
                assert(d[i].pc() != d[d.len() - 1].pc());
            }
        }
        lemma_class_room(e, c);
    }
}

/// The first pitches by letter come from `s`, have distinct letters, and cover
/// the letters of `s`.
proof fn lemma_firsts_by_letter(s: Seq<Pitch>)
    ensures
        letters_distinct(firsts_by_letter(s)),
        forall|l: Letter| #[trigger] has_letter(firsts_by_letter(s), l) <==> has_letter(s, l),
        forall|i: int| 0 <= i < firsts_by_letter(s).len() ==> s.contains(#[trigger] firsts_by_letter(s)[i]),
    decreases s.len(),
{
    if s.len() > 0 {
        let e = s.drop_last();
        lemma_firsts_by_letter(e);
        let d = firsts_by_letter(e);
        let f = firsts_by_letter(s);
        assert forall|l: Letter| #[trigger] has_letter(s, l) <==> (has_letter(e, l) || s.last().letter == l) by {
            if has_letter(s, l) {
                let i = choose|i: int| 0 <= i < s.len() && (#[trigger] s[i]).letter == l;
                if i < e.len() {
                    assert(e[i] == s[i]);
                }
            }
            if has_letter(e, l) {
                let i = choose|i: int| 0 <= i < e.len() && (#[trigger] e[i]).letter == l;
                assert(s[i] == e[i]);
            }
            if s.last().letter == l {
                assert(s[s.len() - 1].letter == l);
            }
        }
        assert forall|l: Letter| #[trigger] has_letter(f, l) <==> has_letter(s, l) by {
            if !has_letter(d, s.last().letter) {
                if has_letter(f, l) {
                    let i = choose|i: int| 0 <= i < f.len() && (#[trigger] f[i]).letter == l;
                    if i < d.len() {
                        assert(f[i] == d[i]);
                    }
                }
                if has_letter(d, l) {
                    let i = choose|i: int| 0 <= i < d.len() && (#[trigger] d[i]).letter == l;
                    assert(f[i] == d[i]);
                }
                if s.last().letter == l {
                    assert(f[f.len() - 1].letter == l);
                }
            }
        }
        assert forall|i: int| 0 <= i < f.len() implies s.contains(#[trigger] f[i]) by {
            if i < d.len() {
                assert(f[i] == d[i]);
                assert(e.contains(d[i]));
                let k = choose|k: int| 0 <= k < e.len() && e[k] == d[i];
                assert(s[k] == e[k]);
            } else {
                assert(f[i] == s[s.len() - 1]);
            }
        }
        assert forall|i: int, j: int| 0 <= i < j < f.len() implies (#[trigger] f[i]).letter != (#[trigger] f[j]).letter by {
            if j < d.len() {
                assert(f[i] == d[i] && f[j] == d[j]);
            } else {
                assert(f[i] == d[i]);
                assert(f[j] == s.last());
            }
        }
    }
}

/// The first pitches by pitch class come from `s`, have distinct pitch classes, and
/// cover the pitch classes of `s`.
proof fn lemma_firsts_by_class(s: Seq<Pitch>)
    ensures
        classes_distinct(firsts_by_class(s)),
        forall|c: int| #[trigger] has_class(firsts_by_class(s), c) <==> has_class(s, c),
        forall|i: int| 0 <= i < firsts_by_class(s).len() ==> s.contains(#[trigger] firsts_by_class(s)[i]),
    decreases s.len(),
{
    if s.len() > 0 {
        let e = s.drop_last();
        lemma_firsts_by_class(e);
        let d = firsts_by_class(e);
        let f = firsts_by_class(s);
        assert forall|c: int| #[trigger] has_class(s, c) <==> (has_class(e, c) || s.last().pc() == c) by {
            if has_class(s, c) {
                let i = choose|i: int| 0 <= i < s.len() && (#[trigger] s[i]).pc() == c;
                if i < e.len() {
                    assert(e[i] == s[i]);
                }
            }
            if has_class(e, c) {
                let i = choose|i: int| 0 <= i < e.len() && (#[trigger] e[i]).pc() == c;
                assert(s[i] == e[i]);
            }
            if s.last().pc() == c {
                assert(s[s.len() - 1].pc() == c);
            }
        }
        assert forall|c: int| #[trigger] has_class(f, c) <==> has_class(s, c) by {
            if !has_class(d, s.last().pc()) {
                if has_class(f, c) {
                    let i = choose|i: int| 0 <= i < f.len() && (#[trigger] f[i]).pc() == c;
                    if i < d.len() {
                        assert(f[i] == d[i]);
                    }
                }
                if has_class(d, c) {
                    let i = choose|i: int| 0 <= i < d.len() && (#[trigger] d[i]).pc() == c;
                    assert(f[i] == d[i]);
                }
                if s.last().pc() == c {
                    assert(f[f.len() - 1].pc() == c);
                }
            }
        }
        assert forall|i: int| 0 <= i < f.len() implies s.contains(#[trigger] f[i]) by {
            if i < d.len() {
                assert(f[i] == d[i]);
                assert(e.contains(d[i]));
                let k = choose|k: int| 0 <= k < e.len() && e[k] == d[i];
                assert(s[k] == e[k]);
            } else {
                assert(f[i] == s[s.len() - 1]);
            }
        }
        assert forall|i: int, j: int| 0 <= i < j < f.len() implies (#[trigger] f[i]).pc() != (#[trigger] f[j]).pc() by {
            if j < d.len() {
                assert(f[i] == d[i] && f[j] == d[j]);
            } else {
                assert(f[i] == d[i]);
                assert(f[j] == s.last());
            }
        }
    }
}

/// The best supported candidate is one of the candidates.
proof fn lemma_best_supported_in(cands: Seq<Pitch>, ps: Seq<Pitch>)
    requires
        cands.len() > 0,
    ensures
        cands.contains(best_supported(cands, ps)),
    decreases cands.len(),
{
    if cands.len() > 1 {
        lemma_best_supported_in(cands.drop_last(), ps);
        let b = best_supported(cands.drop_last(), ps);
        let k = choose|k: int| 0 <= k < cands.len() - 1 && cands.drop_last()[k] == b;
        assert(cands[k] == b);
        assert(cands[cands.len() - 1] == cands.last());
    } else {
        assert(cands[0] == cands[0]);
    }
}

/// No candidate has more support than the best supported one.
pub proof fn lemma_best_supported_max(cands: Seq<Pitch>, ps: Seq<Pitch>)
    requires
        cands.len() > 0,
    ensures
        forall|k: int| 0 <= k < cands.len() ==> root_support(#[trigger] cands[k], ps) <= root_support(best_supported(cands, ps), ps),
    decreases cands.len(),
{
    if cands.len() > 1 {
        let e = cands.drop_last();
        lemma_best_supported_max(e, ps);
        assert forall|k: int| 0 <= k < cands.len() implies root_support(#[trigger] cands[k], ps) <= root_support(best_supported(cands, ps), ps) by {
            if k < cands.len() - 1 {
                assert(cands[k] == e[k]);
            }
        }
    }
}

/// A root found by shape is one of the pitches looked at.
proof fn lemma_shape_root_in(ls: Seq<Pitch>, i: int)
    ensures
        first_shape_root(ls, i) matches Some(r) ==> ls.contains(r),
    decreases ls.len() - i,
{
    if 0 <= i < ls.len() && !is_chord_pattern(letter_mask(ls[i].letter, ls)) {
        lemma_shape_root_in(ls, i + 1);
    }
}

/// Root-support weight of a pitch `d` semitones above a candidate root, for `d` in `[0, 11]`.
fn parncutt_weight(d: u8) -> (r: u16)
    requires
        d < 12,
    ensures
        r == root_weight(d as int),
        r <= 60,
{
    match d {
        0 => 60,
        2 => 12,
        3 => 6,
        4 => 20,
        7 => 30,
        10 => 15,
        _ => 0,
    }
}

/// Whether `mask` is the number mask of a common chord shape.
fn is_pattern(mask: u8) -> (r: bool)
    ensures
        r == is_chord_pattern(mask),
{
    mask == 0b0000_0010 || mask == 0b0000_1010 || mask == 0b0010_1010 || mask == 0b1010_1010
        || mask == 0b0011_0010 || mask == 0b0010_0110
}

/// Root-support scoring after Parncutt (1988): the pitch of `pitches` that the others
/// support most, the last one on a tie; `None` when `pitches` is empty. The pitches
/// must have distinct pitch classes.
pub fn parncutt_1988(pitches: &[Pitch]) -> (r: Option<Pitch>)
    requires
        classes_distinct(pitches@),
    ensures
        r == if pitches@.len() == 0 { None } else { Some(best_supported(pitches@, pitches@)) },
        r matches Some(b) ==> pitches@.contains(b)
            && forall|k: int| 0 <= k < pitches@.len() ==> root_support(#[trigger] pitches@[k], pitches@) <= root_support(b, pitches@),
{
    let n = pitches.len();
    proof { lemma_classes_at_most_twelve(pitches@); }
    let ghost ps = pitches@;
    let mut best: Option<Pitch> = None;
    let mut best_score: u16 = 0;
    let mut j: usize = 0;
    while j < n
        invariant
            j <= n,
            n == ps.len(),
            ps == pitches@,
            n <= 12,
            j == 0 ==> best is None,
            j > 0 ==> best == Some(best_supported(ps.take(j as int), ps)),
            j > 0 ==> best_score == root_support(best_supported(ps.take(j as int), ps), ps),
        decreases n - j,
    {
        let cand = pitches[j];
        let mut score: u16 = 0;
        let mut k: usize = 0;
        while k < n
            invariant
                k <= n,
                n == ps.len(),
                ps == pitches@,
                n <= 12,
                cand == ps[j as int],
                j < n,
                score == root_support(cand, ps.take(k as int)),
                score <= 60 * k,
            decreases n - k,
        {
            let d = cand.semitones_to(pitches[k]).0 as u8;
            let w = parncutt_weight(d);
            proof {
                assert(ps.take(k as int + 1).drop_last() =~= ps.take(k as int));
                assert(ps.take(k as int + 1).last() == ps[k as int]);
            }
            score = score + w;
            k = k + 1;
        }
        proof {
            assert(ps.take(n as int) =~= ps);
            assert(ps.take(j as int + 1).drop_last() =~= ps.take(j as int));
            assert(ps.take(j as int + 1).last() == ps[j as int]);
        }
        match best {
            None => {
                best = Some(cand);
                best_score = score;
            },
            Some(_) => {
                if score >= best_score {
                    best = Some(cand);
                    best_score = score;
                }
            },
        }
        j = j + 1;
    }
    proof {
        assert(ps.take(n as int) =~= ps);
        if n > 0 {
            lemma_best_supported_in(ps, ps);
            lemma_best_supported_max(ps, ps);
        }
    }
    best
}

/// The root of the chord made of `pitches` (see the module documentation for the
/// search), or `None` when there are no pitches. The root is one of the pitches.
pub fn find_root(pitches: &[Pitch]) -> (r: Option<Pitch>)
    ensures
        r == root_of(pitches@),
        r is None <==> pitches@.len() == 0,
        r matches Some(p) ==> pitches@.contains(p),
{
    let ghost s = pitches@;
    let n = pitches.len();
    let mut letter_seen = LetterSet::EMPTY();
    let mut by_letter = new_letter_buffer();
    let mut chroma_seen = PitchClassSet::EMPTY();
    let mut by_chroma = new_class_buffer();
    let mut i: usize = 0;
    let mut full = false;
    proof {
        assert(s.take(0) =~= Seq::<Pitch>::empty());
        assert(!has_class(s.take(0), 0));
    }
    while i < n && !full
        invariant
            i <= n,
            n == s.len(),
            s == pitches@,
            letter_buffer_items(by_letter) == firsts_by_letter(s.take(i as int)),
            class_buffer_items(by_chroma) == firsts_by_class(s.take(i as int)),
            forall|l: Letter| #[trigger] letter_seen.has(l) <==> has_letter(letter_buffer_items(by_letter), l),
            forall|c: int| #[trigger] chroma_seen.has(c) <==> has_class(class_buffer_items(by_chroma), c),
            full <==> covers_all_classes(s.take(i as int)),
            full ==> read_from(s, 0) == i,
            !full ==> read_from(s, 0) == read_from(s, i as int),
        decreases n - i,
    {
        let p = pitches[i];
        let ghost t = s.take(i as int);
        let ghost t1 = s.take(i as int + 1);
        proof {
            assert(t1.drop_last() =~= t);
            assert(t1.last() == p);
            lemma_firsts_by_letter(t);
            lemma_firsts_by_class(t);
        }
        let letter = p.letter();
        if !letter_seen.is_set(letter) {
            proof { lemma_letter_room(firsts_by_letter(t), letter); }
            letter_seen = letter_seen.with_set(letter);
            push_letter_buffer(&mut by_letter, p);
            proof {
                let d = firsts_by_letter(t);
                assert forall|l: Letter| #[trigger] letter_seen.has(l) <==> has_letter(d.push(p), l) by {
                    if has_letter(d, l) {
                        let k = choose|k: int| 0 <= k < d.len() && (#[trigger] d[k]).letter == l;
                        assert(d.push(p)[k] == d[k]);
                    }
                    if l == p.letter {
                        assert(d.push(p)[d.len() as int] == p);
                    }
                    if has_letter(d.push(p), l) {
                        let k = choose|k: int| 0 <= k < d.len() + 1 && (#[trigger] d.push(p)[k]).letter == l;
                        if k < d.len() {
                            assert(d.push(p)[k] == d[k]);
                        }
                    }
                }
            }
        }
        let pc = p.as_pitch_class();
        if !chroma_seen.is_set(pc) {
            proof { lemma_class_room(firsts_by_class(t), p.pc()); }
            chroma_seen = chroma_seen.with_set(pc);
            push_class_buffer(&mut by_chroma, p);
            proof {
                let d = firsts_by_class(t);
                assert forall|c: int| #[trigger] chroma_seen.has(c) <==> has_class(d.push(p), c) by {
                    if has_class(d, c) {
                        let k = choose|k: int| 0 <= k < d.len() && (#[trigger] d[k]).pc() == c;
                        assert(d.push(p)[k] == d[k]);
                    }
                    if c == p.pc() {
                        assert(d.push(p)[d.len() as int] == p);
                    }
                    if has_class(d.push(p), c) {
                        let k = choose|k: int| 0 <= k < d.len() + 1 && (#[trigger] d.push(p)[k]).pc() == c;
                        if k < d.len() {
                            assert(d.push(p)[k] == d[k]);
                        }
                    }
                }
            }
        }
        i = i + 1;
        proof {
            use_type_invariant(&chroma_seen);
            chroma_seen.lemma_full();
            lemma_firsts_by_class(t1);
        }
        let aggregate = PitchClassSet::CHROMATIC_AGGREGATE();
        proof { chroma_seen.lemma_bits_eq(aggregate); }
        if chroma_seen == aggregate {
            full = true;
        }
        proof {
            assert(class_buffer_items(by_chroma) == firsts_by_class(t1));
            assert forall|c: int| 0 <= c < 12 implies (#[trigger] chroma_seen.has(c) <==> has_class(t1, c)) by {}
            if covers_all_classes(t1) {
                assert forall|c: int| 0 <= c < 12 implies #[trigger] chroma_seen.has(c) by {
                    assert(has_class(t1, c));
                }
            }
            if forall|c: int| 0 <= c < 12 ==> #[trigger] chroma_seen.has(c) {
                assert forall|c: int| 0 <= c < 12 implies #[trigger] has_class(t1, c) by {
                    assert(chroma_seen.has(c));
                }
            }
        }
    }
    proof {
        if !full {
            assert(i == n);
            assert(read_from(s, n as int) == n);
        }
        assert(s.take(i as int) == read_part(s));
    }
    let ghost t = s.take(i as int);
    proof {
        lemma_firsts_by_letter(t);
        lemma_firsts_by_class(t);
        assert forall|x: Pitch| t.contains(x) implies s.contains(x) by {
            let k = choose|k: int| 0 <= k < t.len() && t[k] == x;
            assert(s[k] == t[k]);
        }
        if n > 0 {
            assert(i >= 1);
            assert(t[0] == s[0]);
            assert(has_class(t, s[0].pc()));
        }
    }
    let cs = class_buffer_slice(&by_chroma);
    if cs.len() == 0 {
        return None;
    }
    if cs.len() == 1 {
        proof { assert(t.contains(cs@[0])); }
        return Some(cs[0]);
    }
    let ls = letter_buffer_slice(&by_letter);
    let mut j: usize = 0;
    while j < ls.len()
        invariant
            j <= ls@.len(),
            ls@ == firsts_by_letter(t),
            first_shape_root(ls@, 0) == first_shape_root(ls@, j as int),
            t == read_part(s),
            s == pitches@,
            cs@ == firsts_by_class(t),
            cs@.len() > 1,
            forall|x: Pitch| t.contains(x) ==> s.contains(x),
        decreases ls@.len() - j,
    {
        let cand = ls[j];
        let mut mask: u8 = 0;
        let mut k: usize = 0;
        while k < ls.len()
            invariant
                k <= ls@.len(),
                j < ls@.len(),
                cand == ls@[j as int],
                mask == letter_mask(cand.letter, ls@.take(k as int)),
            decreases ls@.len() - k,
        {
            let number = cand.letter().offset_between(ls[k].letter()) + 1;
            proof {
                assert(ls@.take(k as int + 1).drop_last() =~= ls@.take(k as int));
                assert(ls@.take(k as int + 1).last() == ls@[k as int]);
            }
            mask = mask | (1u8 << number);
            k = k + 1;
        }
        proof { assert(ls@.take(ls@.len() as int) =~= ls@); }
        if is_pattern(mask) {
            proof {
                lemma_firsts_by_letter(t);
                assert(t.contains(ls@[j as int]));

            }
            return Some(cand);
        }
        j = j + 1;
    }
    proof {
        assert(classes_distinct(cs@));
        lemma_best_supported_in(cs@, cs@);
        let b = best_supported(cs@, cs@);
        let k = choose|k: int| 0 <= k < cs@.len() && cs@[k] == b;
        assert(t.contains(cs@[k]));
    }
    let r = parncutt_1988(cs);
    r
}

/// At least the pitch at `k` is read, for `k` within `s`.
proof fn lemma_read_from_past(s: Seq<Pitch>, k: int)
    requires
        0 <= k < s.len(),
    ensures
        k < read_from(s, k) <= s.len(),
    decreases s.len() - k,
{
    if !covers_all_classes(s.take(k + 1)) {
        if k + 1 < s.len() {
            lemma_read_from_past(s, k + 1);
        } else {
            assert(read_from(s, k + 1) == s.len());
        }
    }
}

/// Pitches of a single pitch class have the first of them as their only first.
proof fn lemma_firsts_one_class(t: Seq<Pitch>)
    requires
        t.len() > 0,
        forall|i: int| 0 <= i < t.len() ==> (#[trigger] t[i]).pc() == t[0].pc(),
    ensures
        firsts_by_class(t) == seq![t[0]],
    decreases t.len(),
{
    if t.len() == 1 {
        assert(t.drop_last() =~= Seq::<Pitch>::empty());
        assert(firsts_by_class(t.drop_last()) =~= Seq::<Pitch>::empty());
        assert(t.last() == t[0]);
        assert(Seq::<Pitch>::empty().push(t[0]) =~= seq![t[0]]);
    } else {
        let e = t.drop_last();
        assert forall|i: int| 0 <= i < e.len() implies (#[trigger] e[i]).pc() == e[0].pc() by {
            assert(e[i] == t[i]);
        }
        lemma_firsts_one_class(e);
        assert(e[0] == t[0]);
        let d = firsts_by_class(e);
        assert(d[0].pc() == t.last().pc());
        assert(has_class(d, t.last().pc()));
    }
}

/// The root of pitches that all share one pitch class is the first of them.
pub proof fn law_root_of_one_class(s: Seq<Pitch>)
    requires
        s.len() > 0,
        forall|i: int| 0 <= i < s.len() ==> (#[trigger] s[i]).pc() == s[0].pc(),
    ensures
        root_of(s) == Some(s[0]),
{
    lemma_read_from_past(s, 0);
    let t = read_part(s);
    assert forall|i: int| 0 <= i < t.len() implies (#[trigger] t[i]).pc() == t[0].pc() by {
        assert(t[i] == s[i]);
        assert(t[0] == s[0]);
    }
    lemma_firsts_one_class(t);
    assert(t[0] == s[0]);
}

/// The first pitches by letter give the same letter numbers as all of `t`.
proof fn lemma_firsts_span(c: Letter, t: Seq<Pitch>)
    ensures
        forall|n: int| #[trigger] spans_number(c, firsts_by_letter(t), n) <==> spans_number(c, t, n),
        common_shape(c, firsts_by_letter(t)) <==> common_shape(c, t),
{
    let ls = firsts_by_letter(t);
    lemma_firsts_by_letter(t);
    assert forall|n: int| #[trigger] spans_number(c, ls, n) <==> spans_number(c, t, n) by {
        if spans_number(c, ls, n) {
            let j = choose|j: int| 0 <= j < ls.len() && (#[trigger] ls[j]).letter.idx() == (c.idx() + n - 1) % 7;
            assert(t.contains(ls[j]));
            let k = choose|k: int| 0 <= k < t.len() && t[k] == ls[j];
            assert(t[k].letter.idx() == (c.idx() + n - 1) % 7);
        }
        if spans_number(c, t, n) {
            let j = choose|j: int| 0 <= j < t.len() && (#[trigger] t[j]).letter.idx() == (c.idx() + n - 1) % 7;
            assert(has_letter(t, t[j].letter));
            assert(has_letter(ls, t[j].letter));
            let k = choose|k: int| 0 <= k < ls.len() && (#[trigger] ls[k]).letter == t[j].letter;
            assert(ls[k].letter.idx() == (c.idx() + n - 1) % 7);
        }
    }
    assert(spans_number(c, ls, 1) == spans_number(c, t, 1));
    assert(spans_number(c, ls, 2) == spans_number(c, t, 2));
    assert(spans_number(c, ls, 3) == spans_number(c, t, 3));
    assert(spans_number(c, ls, 4) == spans_number(c, t, 4));
    assert(spans_number(c, ls, 5) == spans_number(c, t, 5));
    assert(spans_number(c, ls, 6) == spans_number(c, t, 6));
    assert(spans_number(c, ls, 7) == spans_number(c, t, 7));
    lemma_numbers_exactly(c, ls, set![1int]);
    lemma_numbers_exactly(c, ls, set![1int, 3]);
    lemma_numbers_exactly(c, ls, set![1int, 3, 5]);
    lemma_numbers_exactly(c, ls, set![1int, 3, 5, 7]);
    lemma_numbers_exactly(c, ls, set![1int, 4, 5]);
    lemma_numbers_exactly(c, ls, set![1int, 2, 5]);
    lemma_numbers_exactly(c, t, set![1int]);
    lemma_numbers_exactly(c, t, set![1int, 3]);
    lemma_numbers_exactly(c, t, set![1int, 3, 5]);
    lemma_numbers_exactly(c, t, set![1int, 3, 5, 7]);
    lemma_numbers_exactly(c, t, set![1int, 4, 5]);
    lemma_numbers_exactly(c, t, set![1int, 2, 5]);
}

/// The search by shape from position `k` finds the pitch at `i` when that is the
/// first pitch from `k` on whose letter makes a common shape mask.
proof fn lemma_first_shape_at(ls: Seq<Pitch>, k: int, i: int)
    requires
        0 <= k <= i < ls.len(),
        is_chord_pattern(letter_mask(ls[i].letter, ls)),
        forall|j: int| k <= j < i ==> !is_chord_pattern(letter_mask((#[trigger] ls[j]).letter, ls)),
    ensures
        first_shape_root(ls, k) == Some(ls[i]),
    decreases i - k,
{
    if k < i {
        lemma_first_shape_at(ls, k + 1, i);
    }
}

/// The root by letter shape: when, counting letters up from the first pitch of some
/// letter among the pitches read, the letters of those pitches make a common shape
/// (a single note, a bare third, a triad, a seventh chord stacked in thirds, or a
/// suspended chord), and no earlier first pitch of a letter does, that pitch is the
/// root, as long as the pitches read have at least two pitch classes.
pub proof fn law_shape_root(s: Seq<Pitch>, i: int)
    requires
        0 <= i < firsts_by_letter(read_part(s)).len(),
        common_shape(firsts_by_letter(read_part(s))[i].letter, read_part(s)),
        forall|j: int| 0 <= j < i
            ==> !common_shape((#[trigger] firsts_by_letter(read_part(s))[j]).letter, read_part(s)),
        firsts_by_class(read_part(s)).len() >= 2,
    ensures
        root_of(s) == Some(firsts_by_letter(read_part(s))[i]),
{
    let t = read_part(s);
    let ls = firsts_by_letter(t);
    assert forall|j: int| 0 <= j <= i implies
        (is_chord_pattern(letter_mask((#[trigger] ls[j]).letter, ls)) <==> common_shape(ls[j].letter, t)) by {
        lemma_pattern_shape(ls[j].letter, ls);
        lemma_firsts_span(ls[j].letter, t);
    }
    lemma_first_shape_at(ls, 0, i);
}

/// Pitches that have all twelve pitch classes are at least twelve.
proof fn lemma_covers_needs_twelve(t: Seq<Pitch>)
    requires
        covers_all_classes(t),
    ensures
        t.len() >= 12,
{
    let m = t.map_values(|p: Pitch| p.pc());
    let r = vstd::set_lib::set_int_range(0, 12);
    vstd::set_lib::lemma_int_range(0, 12);
    assert(r.subset_of(m.to_set())) by {
        assert forall|x: int| r.contains(x) implies m.to_set().contains(x) by {
            assert(has_class(t, x));
            let i = choose|i: int| 0 <= i < t.len() && (#[trigger] t[i]).pc() == x;
            assert(m[i] == x);
        }
    }
    m.lemma_cardinality_of_set();
    vstd::set_lib::lemma_len_subset(r, m.to_set());
}

/// Fewer than twelve pitches are all read, from position `k` on.
proof fn lemma_read_all(s: Seq<Pitch>, k: int)
    requires
        s.len() < 12,
        0 <= k,
    ensures
        read_from(s, k) == s.len(),
    decreases s.len() - k,
{
    if k < s.len() {
        if covers_all_classes(s.take(k + 1)) {
            lemma_covers_needs_twelve(s.take(k + 1));
        }
        lemma_read_all(s, k + 1);
    }
}

/// Pitches of distinct letters are their own first pitches by letter.
proof fn lemma_firsts_by_letter_distinct(s: Seq<Pitch>)
    requires
        letters_distinct(s),
    ensures
        firsts_by_letter(s) == s,
    decreases s.len(),
{
    if s.len() > 0 {
        let e = s.drop_last();
        assert forall|i: int, j: int| 0 <= i < j < e.len() implies (#[trigger] e[i]).letter != (#[trigger] e[j]).letter by {
            assert(e[i] == s[i] && e[j] == s[j]);
        }
        lemma_firsts_by_letter_distinct(e);
        assert(!has_letter(e, s.last().letter)) by {
            if has_letter(e, s.last().letter) {
                let i = choose|i: int| 0 <= i < e.len() && (#[trigger] e[i]).letter == s.last().letter;
                assert(s[i].letter != s[s.len() - 1].letter);
            }
        }
        assert(e.push(s.last()) =~= s);
    }
}

/// Pitches of distinct letters are at most seven.
proof fn lemma_letters_at_most_seven(s: Seq<Pitch>)
    requires
        letters_distinct(s),
    ensures
        s.len() <= 7,
{
    if s.len() > 0 {
        let e = s.drop_last();
        assert forall|i: int, j: int| 0 <= i < j < e.len() implies (#[trigger] e[i]).letter != (#[trigger] e[j]).letter by {
            assert(e[i] == s[i] && e[j] == s[j]);
        }
        assert(!has_letter(e, s.last().letter)) by {
            if has_letter(e, s.last().letter) {
                let i = choose|i: int| 0 <= i < e.len() && (#[trigger] e[i]).letter == s.last().letter;
                assert(s[i].letter != s[s.len() - 1].letter);
            }
        }
        lemma_letter_room(e, s.last().letter);
    }
}

/// The root of pitches with distinct letters and at least two pitch classes, by
/// letter shape: the first pitch whose letter, counting letters up from it, makes
/// the letters of all the pitches a common shape is the root. For B, D, F, A the
/// letters from B are the numbers {1, 3, 5, 7}, a seventh chord in thirds, so B is
/// the root.
pub proof fn law_shape_root_of_letters(s: Seq<Pitch>, i: int)
    requires
        letters_distinct(s),
        0 <= i < s.len(),
        common_shape(s[i].letter, s),
        forall|j: int| 0 <= j < i ==> !common_shape((#[trigger] s[j]).letter, s),
        exists|a: int, b: int| 0 <= a < s.len() && 0 <= b < s.len() && (#[trigger] s[a]).pc() != (#[trigger] s[b]).pc(),
    ensures
        root_of(s) == Some(s[i]),
{
    lemma_letters_at_most_seven(s);
    lemma_read_all(s, 0);
    assert(read_part(s) =~= s);
    lemma_firsts_by_letter_distinct(s);
    let (a, b) = choose|a: int, b: int| 0 <= a < s.len() && 0 <= b < s.len() && (#[trigger] s[a]).pc() != (#[trigger] s[b]).pc();
    let cs = firsts_by_class(s);
    lemma_firsts_by_class(s);
    assert(has_class(s, s[a].pc()));
    assert(has_class(s, s[b].pc()));
    assert(has_class(cs, s[a].pc()));
    assert(has_class(cs, s[b].pc()));
    let x = choose|x: int| 0 <= x < cs.len() && (#[trigger] cs[x]).pc() == s[a].pc();
    let y = choose|y: int| 0 <= y < cs.len() && (#[trigger] cs[y]).pc() == s[b].pc();
    assert(x != y);
    law_shape_root(s, i);
}

} // verus!
