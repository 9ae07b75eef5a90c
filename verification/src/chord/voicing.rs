//! Voicing the notes of a chord: dropping repeated pitches, stacking the notes in
//! thirds above the root, and moving notes of the same letter apart by octaves.

use vstd::prelude::*;
use crate::note::{note_lt, Note};
use crate::pitch::{Letter, Pitch};
use rustc_hash::FxHashSet;

verus! {

broadcast use vstd::seq_lib::group_seq_properties;

/// Whether some note of `s` has pitch `p`.
pub open spec fn has_pitch(s: Seq<Note>, p: Pitch) -> bool {
    exists|i: int| 0 <= i < s.len() && (#[trigger] s[i]).pitch == p
}

/// The first note of each pitch in `s`, in the order they come.
pub open spec fn first_pitches(s: Seq<Note>) -> Seq<Note>
    decreases s.len(),
{
    if s.len() == 0 {
        Seq::empty()
    } else {
        let d = first_pitches(s.drop_last());
        if has_pitch(d, s.last().pitch) {
            d
        } else {
            d.push(s.last())
        }
    }
}

/// The notes of `s` with letter `l`, in order.
pub open spec fn with_letter(s: Seq<Note>, l: Letter) -> Seq<Note>
    decreases s.len(),
{
    if s.len() == 0 {
        Seq::empty()
    } else if s.last().pitch.letter == l {
        with_letter(s.drop_last(), l).push(s.last())
    } else {
        with_letter(s.drop_last(), l)
    }
}

/// The notes of `s` with a letter other than `l`, in order.
pub open spec fn without_letter(s: Seq<Note>, l: Letter) -> Seq<Note>
    decreases s.len(),
{
    if s.len() == 0 {
        Seq::empty()
    } else if s.last().pitch.letter != l {
        without_letter(s.drop_last(), l).push(s.last())
    } else {
        without_letter(s.drop_last(), l)
    }
}

/// The pitches of `s`, each placed at octave `o`.
pub open spec fn placed(s: Seq<Note>, o: int) -> Seq<(Pitch, int)> {
    Seq::new(s.len(), |i: int| (s[i].pitch, o))
}

/// The letter a third (two letters) above `l`.
pub open spec fn third_above(l: Letter) -> Letter {
    Letter::from_idx(l.idx() + 2)
}

/// The octave of the letter a third above `l` when `l` is at octave `o`: the next
/// octave when the third passes C.
pub open spec fn third_octave(l: Letter, o: int) -> int {
    if l.idx() < third_above(l).idx() { o } else { o + 1 }
}

/// Stacking the notes of `rest` in thirds above letter `l` at octave `o`, for at
/// most `k` more thirds: the placed notes, and the notes left over. The stack stops
/// at the first third with no note.
pub open spec fn stack_thirds(rest: Seq<Note>, l: Letter, o: int, k: nat) -> (Seq<(Pitch, int)>, Seq<Note>)
    decreases k,
{
    if k == 0 {
        (Seq::empty(), rest)
    } else {
        let t = third_above(l);
        let o2 = third_octave(l, o);
        let g = with_letter(rest, t);
        if g.len() == 0 {
            (Seq::empty(), rest)
        } else {
            let more = stack_thirds(without_letter(rest, t), t, o2, (k - 1) as nat);
            (placed(g, o2) + more.0, more.1)
        }
    }
}

/// The highest octave that stacking thirds works out (also for the third that
/// finds no note).
pub open spec fn stack_top(rest: Seq<Note>, l: Letter, o: int, k: nat) -> int
    decreases k,
{
    if k == 0 {
        o
    } else {
        let t = third_above(l);
        let o2 = third_octave(l, o);
        let g = with_letter(rest, t);
        if g.len() == 0 {
            o2
        } else {
            stack_top(without_letter(rest, t), t, o2, (k - 1) as nat)
        }
    }
}

/// The notes of `rest` left after stacking, by letter from `d` letters above the
/// root letter `l0` on: each letter at the root octave `o0`, or the next octave
/// for letters below the root letter.
pub open spec fn leftovers(rest: Seq<Note>, l0: Letter, o0: int, d: int) -> Seq<(Pitch, int)>
    decreases 7 - d,
{
    if d >= 7 {
        Seq::empty()
    } else {
        let l = Letter::from_idx(l0.idx() + d);
        placed(with_letter(rest, l), if l.idx() < l0.idx() { o0 + 1 } else { o0 }) + leftovers(rest, l0, o0, d + 1)
    }
}

/// The position of the first note of `s` with pitch `p`, or the length.
pub open spec fn pitch_position(s: Seq<Note>, p: Pitch) -> int
    decreases s.len(),
{
    if s.len() == 0 {
        0
    } else if s[0].pitch == p {
        0
    } else {
        1 + pitch_position(s.drop_first(), p)
    }
}

/// The closed root position of `notes` above `root`, with octaves as integers:
/// each pitch once; the root; the other notes of the root's letter an octave up;
/// then the notes stacked in thirds above the root; then the rest, by letter, within
/// the octave above the root.
pub open spec fn closed_root_spec(root: Pitch, notes: Seq<Note>) -> Seq<(Pitch, int)> {
    let ns = first_pitches(notes);
    let k = pitch_position(ns, root);
    let rn = ns[k];
    let rest0 = ns.remove(k);
    let l0 = root.letter;
    let o0 = rn.octave as int;
    let rest1 = without_letter(rest0, l0);
    let st = stack_thirds(rest1, l0, o0, 6);
    seq![(rn.pitch, o0)] + placed(with_letter(rest0, l0), o0 + 1) + st.0 + leftovers(st.1, l0, o0, 1)
}

/// The highest octave worked out while stacking thirds for the closed root position.
pub open spec fn closed_root_top(root: Pitch, notes: Seq<Note>) -> int {
    let ns = first_pitches(notes);
    let k = pitch_position(ns, root);
    let rest0 = ns.remove(k);
    stack_top(without_letter(rest0, root.letter), root.letter, ns[k].octave as int, 6)
}

/// The notes left over after stacking thirds for the closed root position.
pub open spec fn closed_root_rest(root: Pitch, notes: Seq<Note>) -> Seq<Note> {
    let ns = first_pitches(notes);
    let k = pitch_position(ns, root);
    let rest0 = ns.remove(k);
    stack_thirds(without_letter(rest0, root.letter), root.letter, ns[k].octave as int, 6).1
}

/// Whether note `a` comes no later than note `b`: by octave, letter, then accidental.
pub open spec fn note_le(a: Note, b: Note) -> bool {
    ||| a.octave < b.octave
    ||| (a.octave == b.octave && a.pitch.letter.idx() < b.pitch.letter.idx())
    ||| (a.octave == b.octave && a.pitch.letter.idx() == b.pitch.letter.idx()
        && a.pitch.accidental.offset <= b.pitch.accidental.offset)
}

/// Whether the notes of `s` come in order.
pub open spec fn notes_sorted(s: Seq<Note>) -> bool {
    forall|i: int, j: int| 0 <= i < j < s.len() ==> note_le(#[trigger] s[i], #[trigger] s[j])
}


/// Whether the notes of `s` come strictly in order.
pub open spec fn notes_strictly_sorted(s: Seq<Note>) -> bool {
    forall|i: int, j: int| 0 <= i < j < s.len() ==> note_lt(#[trigger] s[i], #[trigger] s[j])
}

/// The position of the first note of `s` with letter `l`, or the length.
pub open spec fn letter_position(s: Seq<Note>, l: Letter) -> int
    decreases s.len(),
{
    if s.len() == 0 {
        0
    } else if s[0].pitch.letter == l {
        0
    } else {
        1 + letter_position(s.drop_first(), l)
    }
}

/// Note `j` of `s` moved apart from the notes of its letter before it: the first
/// note of a letter stays, and the `k`-th after it goes `k` octaves above the first.
pub open spec fn separated_note(s: Seq<Note>, j: int) -> Note {
    let t = s.take(j);
    let l = s[j].pitch.letter;
    let rank = with_letter(t, l).len();
    if rank == 0 {
        s[j]
    } else {
        Note { pitch: s[j].pitch, octave: (t[letter_position(t, l)].octave + rank) as i16 }
    }
}

/// The octave that [`separated_note`] gives note `j` of `s`, as an integer.
pub open spec fn separated_octave(s: Seq<Note>, j: int) -> int {
    let t = s.take(j);
    let l = s[j].pitch.letter;
    let rank = with_letter(t, l).len();
    if rank == 0 {
        s[j].octave as int
    } else {
        t[letter_position(t, l)].octave + rank
    }
}

/// Notes made of pitches and integer octaves.
pub open spec fn as_notes(ps: Seq<(Pitch, int)>) -> Seq<Note> {
    Seq::new(ps.len(), |i: int| Note { pitch: ps[i].0, octave: ps[i].1 as i16 })
}

/// The first note with a pitch is at the position `pitch_position` gives.
pub proof fn lemma_pitch_position(s: Seq<Note>, p: Pitch)
    ensures
        0 <= pitch_position(s, p) <= s.len(),
        pitch_position(s, p) < s.len() <==> has_pitch(s, p),
        pitch_position(s, p) < s.len() ==> s[pitch_position(s, p)].pitch == p,
        forall|j: int| 0 <= j < pitch_position(s, p) ==> (#[trigger] s[j]).pitch != p,
    decreases s.len(),
{
    if s.len() > 0 && s[0].pitch != p {
        let t = s.drop_first();
        lemma_pitch_position(t, p);
        assert forall|j: int| 0 <= j < pitch_position(s, p) implies (#[trigger] s[j]).pitch != p by {
            if j > 0 {
                assert(s[j] == t[j - 1]);
            }
        }
        if has_pitch(s, p) {
            let k = choose|k: int| 0 <= k < s.len() && (#[trigger] s[k]).pitch == p;
            assert(t[k - 1] == s[k]);
        }
        if has_pitch(t, p) {
            let k = choose|k: int| 0 <= k < t.len() && (#[trigger] t[k]).pitch == p;
            assert(s[k + 1] == t[k]);
        }
    } else if s.len() > 0 {
        assert(s[0].pitch == p);
    }
}

/// Every pitch of `s` has a first note in `first_pitches(s)`.
pub(crate) proof fn lemma_first_pitches_has(s: Seq<Note>, p: Pitch)
    ensures
        has_pitch(first_pitches(s), p) <==> has_pitch(s, p),
    decreases s.len(),
{
    if s.len() > 0 {
        let e = s.drop_last();
        lemma_first_pitches_has(e, p);
        let d = first_pitches(e);
        if has_pitch(s, p) {
            let k = choose|k: int| 0 <= k < s.len() && (#[trigger] s[k]).pitch == p;
            if k < e.len() {
                assert(e[k] == s[k]);
                let j = choose|j: int| 0 <= j < d.len() && (#[trigger] d[j]).pitch == p;
                if !has_pitch(d, s.last().pitch) {
                    assert(d.push(s.last())[j] == d[j]);
                }
            } else if !has_pitch(d, s.last().pitch) {
                assert(d.push(s.last())[d.len() as int] == s.last());
            }
        }
        if has_pitch(first_pitches(s), p) {
            let f = first_pitches(s);
            let j = choose|j: int| 0 <= j < f.len() && (#[trigger] f[j]).pitch == p;
            if has_pitch(d, s.last().pitch) {
                assert(has_pitch(d, p));
                let i = choose|i: int| 0 <= i < e.len() && (#[trigger] e[i]).pitch == p;
                assert(s[i] == e[i]);
            } else if j < d.len() {
                assert(f[j] == d[j]);
                let i = choose|i: int| 0 <= i < e.len() && (#[trigger] e[i]).pitch == p;
                assert(s[i] == e[i]);
            } else {
                assert(s[s.len() - 1].pitch == p);
            }
        }
    }
}

/// Octaves of stacked thirds lie between the starting octave and the highest one
/// worked out.
proof fn lemma_stack_bounds(rest: Seq<Note>, l: Letter, o: int, k: nat)
    ensures
        o <= stack_top(rest, l, o, k),
        k > 0 ==> third_octave(l, o) <= stack_top(rest, l, o, k),
        forall|i: int| 0 <= i < stack_thirds(rest, l, o, k).0.len() ==>
            o <= (#[trigger] stack_thirds(rest, l, o, k).0[i]).1 <= stack_top(rest, l, o, k),
    decreases k,
{
    if k > 0 {
        let t = third_above(l);
        let o2 = third_octave(l, o);
        let g = with_letter(rest, t);
        if g.len() > 0 {
            lemma_stack_bounds(without_letter(rest, t), t, o2, (k - 1) as nat);
            let more = stack_thirds(without_letter(rest, t), t, o2, (k - 1) as nat);
            assert forall|i: int| 0 <= i < stack_thirds(rest, l, o, k).0.len() implies
                o <= (#[trigger] stack_thirds(rest, l, o, k).0[i]).1 <= stack_top(rest, l, o, k) by {
                if i >= g.len() {
                    assert(stack_thirds(rest, l, o, k).0[i] == more.0[i - g.len()]);
                }
            }
        }
    }
}

/// Pushes the pitches of `g`, each at octave `o`.
fn push_placed(closed: &mut Vec<Note>, g: &Vec<Note>, o: i16)
    ensures
        final(closed)@ == old(closed)@ + as_notes(placed(g@, o as int)),
{
    let ghost start = closed@;
    let mut j: usize = 0;
    while j < g.len()
        invariant
            j <= g@.len(),
            closed@ == start + as_notes(placed(g@.take(j as int), o as int)),
        decreases g@.len() - j,
    {
        closed.push(Note::new(g[j].pitch, o));
        j = j + 1;
        proof {
            assert(closed@ =~= start + as_notes(placed(g@.take(j as int), o as int)));
        }
    }
    proof { assert(g@.take(g@.len() as int) =~= g@); }
}

/// Stacks the notes of `rest` in thirds above `l` at octave `o`, for at most `k`
/// thirds, pushing them onto `closed`; returns the notes left over.
fn stack_thirds_onto(closed: &mut Vec<Note>, rest: Vec<Note>, l: Letter, o: i16, k: u8) -> (r: Vec<Note>)
    requires
        stack_top(rest@, l, o as int, k as nat) <= i16::MAX,
    ensures
        final(closed)@ == old(closed)@ + as_notes(stack_thirds(rest@, l, o as int, k as nat).0),
        r@ == stack_thirds(rest@, l, o as int, k as nat).1,
    decreases k,
{
    if k == 0 {
        proof { assert(as_notes(Seq::<(Pitch, int)>::empty()) =~= Seq::<Note>::empty()); }
        assert(closed@ =~= closed@ + Seq::<Note>::empty());
        return rest;
    }
    let step = l.step();
    let t = match Letter::from_step((step + 2) % 7) {
        Some(t) => t,
        None => l,
    };
    proof {
        assert(t == third_above(l));
        lemma_stack_bounds(rest@, l, o as int, k as nat);
    }
    let o2: i16 = if step < t.step() { o } else { o + 1 };
    let (g, others) = split_letter(&rest, t);
    if g.len() == 0 {
        assert(closed@ =~= closed@ + as_notes(Seq::<(Pitch, int)>::empty()));
        return rest;
    }
    let ghost before = closed@;
    push_placed(closed, &g, o2);
    let left = stack_thirds_onto(closed, others, t, o2, k - 1);
    proof {
        let more = stack_thirds(others@, t, o2 as int, (k - 1) as nat);
        assert(as_notes(placed(g@, o2 as int) + more.0) =~= as_notes(placed(g@, o2 as int)) + as_notes(more.0));
    }
    left
}

/// The first note with a letter is at the position `letter_position` gives; the
/// position is the same in every longer prefix that has a note of that letter.
pub(crate) proof fn lemma_letter_position(s: Seq<Note>, l: Letter, j: int)
    requires
        0 <= j <= s.len(),
        with_letter(s.take(j), l).len() > 0,
    ensures
        letter_position(s.take(j), l) == letter_position(s, l),
        0 <= letter_position(s, l) < j,
        s[letter_position(s, l)].pitch.letter == l,
    decreases s.len(),
{
    lemma_with_letter_len(s.take(j), l);
    let k = choose|k: int| 0 <= k < j && (#[trigger] s.take(j)[k]).pitch.letter == l;
    if s[0].pitch.letter != l {
        let t = s.drop_first();
        assert(s.take(j).drop_first() =~= t.take(j - 1));
        assert(t.take(j - 1)[k - 1] == s.take(j)[k]);
        lemma_with_letter_len(t.take(j - 1), l);
        lemma_letter_position(t, l, j - 1);
        assert(s.len() > 0);
        assert(letter_position(s, l) == 1 + letter_position(t, l));
        let x = letter_position(t, l);
        assert(0 <= x < t.len());
        assert(t[x] == s[x + 1]);
        assert(letter_position(s.take(j), l) == 1 + letter_position(t.take(j - 1), l));
    } else {
        assert(s.take(j)[0] == s[0]);
    }
}

/// A prefix has a note of letter `l` exactly when `with_letter` of it is not empty.
pub(crate) proof fn lemma_with_letter_len(s: Seq<Note>, l: Letter)
    ensures
        with_letter(s, l).len() > 0 <==> exists|k: int| 0 <= k < s.len() && (#[trigger] s[k]).pitch.letter == l,
        with_letter(s, l).len() <= s.len(),
    decreases s.len(),
{
    if s.len() > 0 {
        let e = s.drop_last();
        lemma_with_letter_len(e, l);
        if exists|k: int| 0 <= k < e.len() && (#[trigger] e[k]).pitch.letter == l {
            let k = choose|k: int| 0 <= k < e.len() && (#[trigger] e[k]).pitch.letter == l;
            assert(s[k] == e[k]);
        }
        if exists|k: int| 0 <= k < s.len() && (#[trigger] s[k]).pitch.letter == l {
            let k = choose|k: int| 0 <= k < s.len() && (#[trigger] s[k]).pitch.letter == l;
            if k < e.len() {
                assert(e[k] == s[k]);
            }
        }
    }
}

/// The first note with a letter is the one with no note of that letter before it.
proof fn lemma_letter_position_at(s: Seq<Note>, l: Letter, j: int)
    requires
        0 <= j < s.len(),
        s[j].pitch.letter == l,
        forall|i: int| 0 <= i < j ==> (#[trigger] s[i]).pitch.letter != l,
    ensures
        letter_position(s, l) == j,
    decreases j,
{
    if j > 0 {
        let t = s.drop_first();
        assert forall|i: int| 0 <= i < j - 1 implies (#[trigger] t[i]).pitch.letter != l by {
            assert(t[i] == s[i + 1]);
        }
        assert(s[0].pitch.letter != l);
        lemma_letter_position_at(t, l, j - 1);
    }
}

/// Counting the notes of a letter in a prefix: it never shrinks as the prefix grows,
/// and grows by one at a note of that letter.
proof fn lemma_with_letter_prefix(s: Seq<Note>, l: Letter, a: int, b: int)
    requires
        0 <= a <= b <= s.len(),
    ensures
        with_letter(s.take(a), l).len() <= with_letter(s.take(b), l).len(),
        a < b && s[a].pitch.letter == l ==> with_letter(s.take(a), l).len() + 1 <= with_letter(s.take(b), l).len(),
    decreases b - a,
{
    if a < b {
        lemma_with_letter_prefix(s, l, a, b - 1);
        assert(s.take(b).drop_last() =~= s.take(b - 1));
        assert(s.take(b).last() == s[b - 1]);
        if a < b - 1 {
            lemma_with_letter_prefix(s, l, a + 1, b - 1);
            assert(s.take(a + 1).drop_last() =~= s.take(a));
            assert(s.take(a + 1).last() == s[a]);
        } else {
            assert(s.take(a + 1).drop_last() =~= s.take(a));
        }
    }
}

/// No two notes moved apart by [`separated_note`] are the same.
proof fn lemma_separated_distinct(s: Seq<Note>, j: int, k: int)
    requires
        0 <= j < k < s.len(),
        forall|i: int| 0 <= i < s.len() ==> #[trigger] separated_octave(s, i) <= i16::MAX,
    ensures
        separated_note(s, j) != separated_note(s, k),
{
    let l = s[j].pitch.letter;
    if s[k].pitch.letter == l {
        let tj = s.take(j);
        let tk = s.take(k);
        lemma_with_letter_prefix(s, l, j, k);
        let rj = with_letter(tj, l).len();
        let rk = with_letter(tk, l).len();
        assert(rk >= rj + 1);
        assert(tk[j] == s[j]);
        lemma_with_letter_len(tk, l);
        lemma_letter_position(s, l, k);
        assert(separated_octave(s, k) <= i16::MAX);
        if rj == 0 {
            lemma_with_letter_len(tj, l);
            assert forall|i: int| 0 <= i < j implies (#[trigger] s[i]).pitch.letter != l by {
                assert(tj[i] == s[i]);
            }
            lemma_letter_position_at(s, l, j);
            assert(tk[letter_position(tk, l)] == s[j]);
            assert(separated_note(s, k).octave as int == s[j].octave + rk);
        } else {
            lemma_letter_position(s, l, j);
            assert(tj[letter_position(tj, l)] == s[letter_position(s, l)]);
            assert(tk[letter_position(tk, l)] == s[letter_position(s, l)]);
            assert(separated_octave(s, j) <= i16::MAX);
        }
    }
}

/// Every note of [`first_pitches`] is a note of `s`.
proof fn lemma_first_pitches_from(s: Seq<Note>)
    ensures
        forall|i: int| 0 <= i < first_pitches(s).len() ==> s.contains(#[trigger] first_pitches(s)[i]),
    decreases s.len(),
{
    if s.len() > 0 {
        let e = s.drop_last();
        lemma_first_pitches_from(e);
        let d = first_pitches(e);
        assert forall|i: int| 0 <= i < first_pitches(s).len() implies s.contains(#[trigger] first_pitches(s)[i]) by {
            if i < d.len() {
                let j = choose|j: int| 0 <= j < e.len() && e[j] == d[i];
                assert(s[j] == e[j]);
            } else {
                assert(s[s.len() - 1] == s.last());
            }
        }
    }
}

/// Every note of [`without_letter`] is a note of `s`.
proof fn lemma_without_letter_from(s: Seq<Note>, l: Letter)
    ensures
        forall|i: int| 0 <= i < without_letter(s, l).len() ==> s.contains(#[trigger] without_letter(s, l)[i]),
    decreases s.len(),
{
    if s.len() > 0 {
        let e = s.drop_last();
        lemma_without_letter_from(e, l);
        let d = without_letter(e, l);
        assert forall|i: int| 0 <= i < without_letter(s, l).len() implies s.contains(#[trigger] without_letter(s, l)[i]) by {
            if i < d.len() {
                let j = choose|j: int| 0 <= j < e.len() && e[j] == d[i];
                assert(s[j] == e[j]);
            } else {
                assert(s[s.len() - 1] == s.last());
            }
        }
    }
}

/// Sorted notes taken from the notes of `s` before its last one stay sorted when
/// the last note of sorted `s` is appended.
proof fn lemma_push_sorted(d: Seq<Note>, s: Seq<Note>)
    requires
        s.len() > 0,
        notes_sorted(s),
        notes_sorted(d),
        forall|i: int| 0 <= i < d.len() ==> s.drop_last().contains(#[trigger] d[i]),
    ensures
        notes_sorted(d.push(s.last())),
{
    let e = s.drop_last();
    let r = d.push(s.last());
    assert forall|a: int, b: int| 0 <= a < b < r.len() implies note_le(#[trigger] r[a], #[trigger] r[b]) by {
        if b == d.len() {
            assert(e.contains(d[a]));
            let j = choose|j: int| 0 <= j < e.len() && e[j] == d[a];
            assert(s[j] == e[j]);
            assert(note_le(s[j], s[s.len() - 1]));
        } else {
            assert(r[a] == d[a] && r[b] == d[b]);
        }
    }
}

/// The notes of [`first_pitches`] of sorted notes are sorted.
pub(crate) proof fn lemma_first_pitches_sorted(s: Seq<Note>)
    requires
        notes_sorted(s),
    ensures
        notes_sorted(first_pitches(s)),
    decreases s.len(),
{
    if s.len() > 0 {
        let e = s.drop_last();
        assert forall|a: int, b: int| 0 <= a < b < e.len() implies note_le(#[trigger] e[a], #[trigger] e[b]) by {
            assert(e[a] == s[a] && e[b] == s[b]);
        }
        lemma_first_pitches_sorted(e);
        lemma_first_pitches_from(e);
        if !has_pitch(first_pitches(e), s.last().pitch) {
            lemma_push_sorted(first_pitches(e), s);
        }
    }
}

/// The notes of [`without_letter`] of sorted notes are sorted.
proof fn lemma_without_letter_sorted(s: Seq<Note>, l: Letter)
    requires
        notes_sorted(s),
    ensures
        notes_sorted(without_letter(s, l)),
    decreases s.len(),
{
    if s.len() > 0 {
        let e = s.drop_last();
        assert forall|a: int, b: int| 0 <= a < b < e.len() implies note_le(#[trigger] e[a], #[trigger] e[b]) by {
            assert(e[a] == s[a] && e[b] == s[b]);
        }
        lemma_without_letter_sorted(e, l);
        lemma_without_letter_from(e, l);
        if s.last().pitch.letter != l {
            lemma_push_sorted(without_letter(e, l), s);
        }
    }
}

/// The notes left over by stacking thirds on sorted notes are sorted.
proof fn lemma_stack_rest_sorted(rest: Seq<Note>, l: Letter, o: int, k: nat)
    requires
        notes_sorted(rest),
    ensures
        notes_sorted(stack_thirds(rest, l, o, k).1),
    decreases k,
{
    if k > 0 {
        let t = third_above(l);
        if with_letter(rest, t).len() > 0 {
            lemma_without_letter_sorted(rest, t);
            lemma_stack_rest_sorted(without_letter(rest, t), t, third_octave(l, o), (k - 1) as nat);
        }
    }
}

/// For sorted notes with a note of `root`, the notes left over after stacking
/// thirds for the closed root position are sorted.
pub proof fn lemma_closed_rest_sorted(root: Pitch, notes: Seq<Note>)
    requires
        notes_sorted(notes),
        has_pitch(notes, root),
    ensures
        notes_sorted(closed_root_rest(root, notes)),
{
    let ns = first_pitches(notes);
    lemma_first_pitches_sorted(notes);
    lemma_first_pitches_has(notes, root);
    lemma_pitch_position(ns, root);
    let k = pitch_position(ns, root);
    let rest0 = ns.remove(k);
    assert forall|a: int, b: int| 0 <= a < b < rest0.len() implies note_le(#[trigger] rest0[a], #[trigger] rest0[b]) by {
        if b < k {
            assert(rest0[a] == ns[a] && rest0[b] == ns[b]);
        } else if a < k {
            assert(rest0[a] == ns[a] && rest0[b] == ns[b + 1]);
        } else {
            assert(rest0[a] == ns[a + 1] && rest0[b] == ns[b + 1]);
        }
    }
    lemma_without_letter_sorted(rest0, root.letter);
    lemma_stack_rest_sorted(without_letter(rest0, root.letter), root.letter, ns[k].octave as int, 6);
}

/// The notes of [`with_letter`] have the letter.
proof fn lemma_with_letter_letters(s: Seq<Note>, l: Letter)
    ensures
        forall|i: int| 0 <= i < with_letter(s, l).len() ==> (#[trigger] with_letter(s, l)[i]).pitch.letter == l,
    decreases s.len(),
{
    if s.len() > 0 {
        lemma_with_letter_letters(s.drop_last(), l);
    }
}

/// Whether a pitch placed at an octave comes after the root note of letter `l0`
/// at octave `o0`: in a higher octave, or in that octave with a higher letter.
pub open spec fn above_root(x: (Pitch, int), l0: Letter, o0: int) -> bool {
    x.1 > o0 || (x.1 == o0 && x.0.letter.idx() > l0.idx())
}

/// The notes stacked in thirds from a letter at or above the root letter, in an
/// octave at or above the root octave, all come after the root.
proof fn lemma_stack_above(rest: Seq<Note>, l: Letter, o: int, k: nat, l0: Letter, o0: int)
    requires
        o > o0 || (o == o0 && l.idx() >= l0.idx()),
    ensures
        forall|i: int| 0 <= i < stack_thirds(rest, l, o, k).0.len() ==>
            above_root(#[trigger] stack_thirds(rest, l, o, k).0[i], l0, o0),
    decreases k,
{
    if k > 0 {
        let t = third_above(l);
        let o2 = third_octave(l, o);
        let g = with_letter(rest, t);
        if g.len() > 0 {
            lemma_with_letter_letters(rest, t);
            lemma_stack_above(without_letter(rest, t), t, o2, (k - 1) as nat, l0, o0);
            let more = stack_thirds(without_letter(rest, t), t, o2, (k - 1) as nat);
            let all = placed(g, o2) + more.0;
            assert(stack_thirds(rest, l, o, k).0 == all);
            assert forall|i: int| 0 <= i < all.len() implies above_root(#[trigger] all[i], l0, o0) by {
                if i < g.len() {
                    assert(all[i] == (g[i].pitch, o2));
                    assert(g[i].pitch.letter == t);
                } else {
                    assert(all[i] == more.0[i - g.len()]);
                }
            }
        }
    }
}

/// The notes left over, placed by letter from `d` letters above the root letter
/// on, all come after the root.
proof fn lemma_leftovers_above(rest: Seq<Note>, l0: Letter, o0: int, d: int)
    requires
        1 <= d,
    ensures
        forall|i: int| 0 <= i < leftovers(rest, l0, o0, d).len() ==>
            above_root(#[trigger] leftovers(rest, l0, o0, d)[i], l0, o0),
    decreases 7 - d,
{
    if d < 7 {
        let l = Letter::from_idx(l0.idx() + d);
        let oct = if l.idx() < l0.idx() { o0 + 1 } else { o0 };
        let g = with_letter(rest, l);
        lemma_with_letter_letters(rest, l);
        lemma_leftovers_above(rest, l0, o0, d + 1);
        let more = leftovers(rest, l0, o0, d + 1);
        let all = placed(g, oct) + more;
        assert(l.idx() != l0.idx());
        assert forall|i: int| 0 <= i < all.len() implies above_root(#[trigger] all[i], l0, o0) by {
            if i < g.len() {
                assert(all[i] == (g[i].pitch, oct));
                assert(g[i].pitch.letter == l);
            } else {
                assert(all[i] == more[i - g.len()]);
            }
        }
    }
}

/// In the closed root position, the root comes first at the octave of its note,
/// and every later note has the root's letter or comes after the root.
pub proof fn lemma_closed_root_shape(root: Pitch, notes: Seq<Note>)
    requires
        has_pitch(notes, root),
    ensures
        closed_root_spec(root, notes).len() > 0,
        closed_root_spec(root, notes)[0].0 == root,
        forall|j: int| 1 <= j < closed_root_spec(root, notes).len() ==>
            (#[trigger] closed_root_spec(root, notes)[j]).0.letter == root.letter
            || above_root(closed_root_spec(root, notes)[j], root.letter, closed_root_spec(root, notes)[0].1),
{
    let ns = first_pitches(notes);
    lemma_first_pitches_has(notes, root);
    lemma_pitch_position(ns, root);
    let k = pitch_position(ns, root);
    let rn = ns[k];
    let rest0 = ns.remove(k);
    let l0 = root.letter;
    let o0 = rn.octave as int;
    let rest1 = without_letter(rest0, l0);
    let st = stack_thirds(rest1, l0, o0, 6);
    let a = placed(with_letter(rest0, l0), o0 + 1);
    let c = leftovers(st.1, l0, o0, 1);
    let spec = closed_root_spec(root, notes);
    assert(spec == seq![(rn.pitch, o0)] + a + st.0 + c);
    lemma_with_letter_letters(rest0, l0);
    lemma_stack_above(rest1, l0, o0, 6, l0, o0);
    lemma_leftovers_above(st.1, l0, o0, 1);
    assert forall|j: int| 1 <= j < spec.len() implies
        (#[trigger] spec[j]).0.letter == root.letter || above_root(spec[j], root.letter, spec[0].1) by {
        let i = j - 1;
        if i < a.len() {
            assert(spec[j] == a[i]);
            assert(a[i].0 == with_letter(rest0, l0)[i].pitch);
        } else if i < a.len() + st.0.len() {
            assert(spec[j] == st.0[i - a.len()]);
        } else {
            assert(spec[j] == c[i - a.len() - st.0.len()]);
        }
    }
}

/// Notes of a concatenation are the concatenation of the notes.
proof fn lemma_as_notes_add(a: Seq<(Pitch, int)>, b: Seq<(Pitch, int)>)
    ensures
        as_notes(a + b) == as_notes(a) + as_notes(b),
{
    assert(as_notes(a + b) =~= as_notes(a) + as_notes(b));
}

/// The closed root position of `notes` above `root`: each pitch once (its first
/// note); the root note; the other notes of the root's letter an octave above it;
/// then, stacking thirds up from the root, the notes of each next third (with the
/// octave rising past C) until a third has no note or all letters are used; then
/// the notes left, by letter upwards from the root, within the octave above the
/// root. A note of `root` must be among `notes`, the octaves worked out must fit an
/// `i16`, and the notes left at the end must be in order.
pub fn closed_root_position_inner(root: Pitch, notes: &[Note]) -> (r: Vec<Note>)
    requires
        has_pitch(notes@, root),
        closed_root_top(root, notes@) <= i16::MAX,
        forall|i: int| 0 <= i < closed_root_spec(root, notes@).len() ==>
            (#[trigger] closed_root_spec(root, notes@)[i]).1 <= i16::MAX,
        notes_sorted(closed_root_rest(root, notes@)),
    ensures
        r@ == as_notes(closed_root_spec(root, notes@)),
{
    let ghost raw = closed_root_spec(root, notes@);
    let ns = dedup_by_pitch(notes);
    proof {
        lemma_first_pitches_has(notes@, root);
        lemma_pitch_position(ns@, root);
    }
    let mut k: usize = 0;
    while k < ns.len() && ns[k].pitch != root
        invariant
            k <= ns@.len(),
            forall|j: int| 0 <= j < k ==> (#[trigger] ns@[j]).pitch != root,
        decreases ns@.len() - k,
    {
        k = k + 1;
    }
    proof {
        assert(k == pitch_position(ns@, root));
    }
    let ghost ns_view = ns@;
    let mut rest = ns;
    let root_note = rest.remove(k);
    let l0 = root.letter;
    let o0 = root_note.octave;
    let mut closed: Vec<Note> = Vec::new();
    closed.push(root_note);
    let (same, rest1) = split_letter(&rest, l0);
    let ghost st = stack_thirds(rest1@, l0, o0 as int, 6);
    proof {
        assert(rest@ == ns_view.remove(k as int));
        assert(raw == seq![(root_note.pitch, o0 as int)] + placed(same@, o0 as int + 1) + st.0 + leftovers(st.1, l0, o0 as int, 1));
        assert(closed@ =~= as_notes(seq![(root_note.pitch, o0 as int)]));
    }
    if same.len() > 0 {
        proof {
            assert(raw[1] == (same@[0].pitch, o0 as int + 1));
        }
        push_placed(&mut closed, &same, o0 + 1);
    } else {
        proof {
            assert(placed(same@, o0 as int + 1) =~= Seq::<(Pitch, int)>::empty());
            assert(closed@ =~= closed@ + as_notes(placed(same@, o0 as int + 1)));
        }
    }
    proof {
        lemma_as_notes_add(seq![(root_note.pitch, o0 as int)], placed(same@, o0 as int + 1));
    }
    let rest2 = stack_thirds_onto(&mut closed, rest1, l0, o0, 6);
    let ghost head = seq![(root_note.pitch, o0 as int)] + placed(same@, o0 as int + 1) + st.0;
    proof {
        lemma_as_notes_add(seq![(root_note.pitch, o0 as int)] + placed(same@, o0 as int + 1), st.0);
        assert(closed@ == as_notes(head));
        assert(raw == head + leftovers(rest2@, l0, o0 as int, 1));
    }
    let ghost mut done = head;
    let mut d: u8 = 1;
    while d < 7
        invariant
            1 <= d <= 7,
            raw == done + leftovers(rest2@, l0, o0 as int, d as int),
            closed@ == as_notes(done),
            forall|i: int| 0 <= i < raw.len() ==> (#[trigger] raw[i]).1 <= i16::MAX,
        decreases 7 - d,
    {
        let step = (l0.step() + d) % 7;
        let l = match Letter::from_step(step) {
            Some(l) => l,
            None => l0,
        };
        let (g, _others) = split_letter(&rest2, l);
        let ghost oct = if l.idx() < l0.idx() { o0 as int + 1 } else { o0 as int };
        proof {
            assert(l == Letter::from_idx(l0.idx() + d));
            assert(leftovers(rest2@, l0, o0 as int, d as int)
                == placed(g@, oct) + leftovers(rest2@, l0, o0 as int, d as int + 1));
        }
        if g.len() > 0 {
            proof {
                assert(raw[done.len() as int] == (g@[0].pitch, oct));
            }
            let o: i16 = if l.step() < l0.step() { o0 + 1 } else { o0 };
            push_placed(&mut closed, &g, o);
        } else {
            proof {
                assert(placed(g@, oct) =~= Seq::<(Pitch, int)>::empty());
                assert(closed@ =~= closed@ + as_notes(placed(g@, oct)));
            }
        }
        proof {
            lemma_as_notes_add(done, placed(g@, oct));
            assert(done + placed(g@, oct) + leftovers(rest2@, l0, o0 as int, d as int + 1)
                =~= done + (placed(g@, oct) + leftovers(rest2@, l0, o0 as int, d as int + 1)));
            done = done + placed(g@, oct);
        }
        d = d + 1;
    }
    proof {
        assert(leftovers(rest2@, l0, o0 as int, 7) =~= Seq::<(Pitch, int)>::empty());
        assert(raw =~= done);
    }
    closed
}

/// Whether note `a` comes before note `b`.
pub(crate) fn before(a: Note, b: Note) -> (r: bool)
    ensures
        r == note_lt(a, b),
{
    let la = a.pitch.letter.step();
    let lb = b.pitch.letter.step();
    a.octave < b.octave || (a.octave == b.octave && la < lb)
        || (a.octave == b.octave && la == lb && a.pitch.accidental.offset < b.pitch.accidental.offset)
}

/// The notes of `v` in order (by octave, letter, then accidental).
pub(crate) fn sort_notes(v: &[Note]) -> (r: Vec<Note>)
    ensures
        r@.to_multiset() == v@.to_multiset(),
        notes_sorted(r@),
{
    let mut out: Vec<Note> = Vec::new();
    let mut i: usize = 0;
    while i < v.len()
        invariant
            i <= v@.len(),
            out@.to_multiset() == v@.take(i as int).to_multiset(),
            notes_sorted(out@),
        decreases v@.len() - i,
    {
        let x = v[i];
        let mut p: usize = 0;
        while p < out.len() && !before(x, out[p])
            invariant
                p <= out@.len(),
                forall|q: int| 0 <= q < p ==> note_le(#[trigger] out@[q], x),
            decreases out@.len() - p,
        {
            p = p + 1;
        }
        let ghost old_out = out@;
        out.insert(p, x);
        proof {
            assert(out@ == old_out.insert(p as int, x));
            assert forall|a: int, b: int| 0 <= a < b < out@.len() implies note_le(#[trigger] out@[a], #[trigger] out@[b]) by {
                if b < p {
                    assert(out@[a] == old_out[a] && out@[b] == old_out[b]);
                } else if b == p {
                    assert(out@[a] == old_out[a]);
                } else if a == p {
                    assert(out@[b] == old_out[b - 1]);
                    assert(p < old_out.len());
                    assert(note_le(old_out[p as int], old_out[b - 1]));
                } else if a < p {
                    assert(out@[a] == old_out[a] && out@[b] == old_out[b - 1]);
                } else {
                    assert(out@[a] == old_out[a - 1] && out@[b] == old_out[b - 1]);
                }
            }
            assert(v@.take(i as int + 1) =~= v@.take(i as int).push(x));
        }
        i = i + 1;
    }
    proof { assert(v@.take(v@.len() as int) =~= v@); }
    out
}

/// The notes moved apart by [`separated_note`].
pub open spec fn separated(s: Seq<Note>) -> Seq<Note> {
    Seq::new(s.len(), |j: int| separated_note(s, j))
}

/// How many notes before note `j` of `notes` share its letter, and the octave of
/// the first of them (0 when there is none).
pub(crate) fn letter_rank(notes: &Vec<Note>, j: usize) -> (r: (usize, i16))
    requires
        j < notes@.len(),
    ensures
        r.0 == with_letter(notes@.take(j as int), notes@[j as int].pitch.letter).len(),
        r.0 > 0 ==> r.1 == notes@.take(j as int)[letter_position(notes@.take(j as int), notes@[j as int].pitch.letter)].octave,
{
    let ghost s = notes@;
    let l = notes[j].pitch.letter;
    let mut rank: usize = 0;
    let mut first: i16 = 0;
    let mut k: usize = 0;
    while k < j
        invariant
            k <= j < s.len(),
            s == notes@,
            l == s[j as int].pitch.letter,
            rank as int == with_letter(s.take(k as int), l).len(),
            rank <= k,
            rank > 0 ==> first == s[letter_position(s, l)].octave,
            rank > 0 ==> letter_position(s, l) < k,
        decreases j - k,
    {
        proof {
            assert(s.take(k as int + 1).drop_last() =~= s.take(k as int));
            assert(s.take(k as int + 1).last() == s[k as int]);
            lemma_with_letter_len(s.take(k as int), l);
        }
        if notes[k].pitch.letter == l {
            if rank == 0 {
                proof {
                    assert forall|i: int| 0 <= i < k implies (#[trigger] s[i]).pitch.letter != l by {
                        assert(s.take(k as int)[i] == s[i]);
                    }
                    lemma_letter_position_at(s, l, k as int);
                }
                first = notes[k].octave;
            }
            rank = rank + 1;
        }
        k = k + 1;
    }
    proof {
        if rank > 0 {
            lemma_letter_position(s, l, j as int);
            assert(s.take(j as int)[letter_position(s.take(j as int), l)] == s[letter_position(s, l)]);
        }
    }
    (rank, first)
}

/// Sorted notes that hold the notes moved apart by [`separated_note`] are
/// strictly sorted.
proof fn lemma_separated_sorted_strict(s: Seq<Note>, r: Seq<Note>)
    requires
        forall|i: int| 0 <= i < s.len() ==> #[trigger] separated_octave(s, i) <= i16::MAX,
        r.to_multiset() == separated(s).to_multiset(),
        notes_sorted(r),
    ensures
        notes_strictly_sorted(r),
{
    let e = separated(s);
    assert(e.no_duplicates()) by {
        assert forall|a: int, b: int| 0 <= a < e.len() && 0 <= b < e.len() && a != b implies e[a] != e[b] by {
            if a < b {
                lemma_separated_distinct(s, a, b);
            } else {
                lemma_separated_distinct(s, b, a);
            }
        }
    }
    e.lemma_multiset_has_no_duplicates();
    r.lemma_multiset_has_no_duplicates_conv();
    assert forall|a: int, b: int| 0 <= a < b < r.len() implies note_lt(#[trigger] r[a], #[trigger] r[b]) by {
        assert(note_le(r[a], r[b]));
        assert(r[a] != r[b]);
    }
}

/// Moves the notes of each letter apart: the first note of a letter keeps its
/// octave, and the `k`-th after it goes `k` octaves above the first. Then puts the
/// notes in order, which is strict since no two notes are left the same.
pub fn separate_same_letter_by_octave(notes: &mut Vec<Note>)
    requires
        forall|j: int| 0 <= j < old(notes)@.len() ==> #[trigger] separated_octave(old(notes)@, j) <= i16::MAX,
    ensures
        final(notes)@.to_multiset() == separated(old(notes)@).to_multiset(),
        notes_strictly_sorted(final(notes)@),
{
    let ghost s = notes@;
    let n = notes.len();
    let mut sep: Vec<Note> = Vec::new();
    let mut j: usize = 0;
    while j < n
        invariant
            j <= n,
            n == s.len(),
            s == notes@,
            forall|i: int| 0 <= i < s.len() ==> #[trigger] separated_octave(s, i) <= i16::MAX,
            sep@ == separated(s).take(j as int),
        decreases n - j,
    {
        let x = notes[j];
        let (rank, first) = letter_rank(notes, j);
        let y = if rank == 0 {
            x
        } else {
            proof {
                assert(separated_octave(s, j as int) <= i16::MAX);
                assert(separated_octave(s, j as int) == first + rank);
            }
            let o: i32 = first as i32 + rank as i32;
            Note { pitch: x.pitch, octave: o as i16 }
        };
        sep.push(y);
        proof {
            assert(separated(s)[j as int] == y);
            assert(sep@ =~= separated(s).take(j as int + 1));
        }
        j = j + 1;
    }
    proof {
        assert(sep@ =~= separated(s));
    }
    let sorted = sort_notes(sep.as_slice());
    proof {
        lemma_separated_sorted_strict(s, sorted@);
    }
    *notes = sorted;
}

/// The hasher that `FxHashSet` builds, declared so that sets of it can be held.
#[verifier::external_type_specification]
#[verifier::external_body]
pub struct ExFxBuildHasher(rustc_hash::FxBuildHasher);

/// The pitches an `FxHashSet` of pitches holds.
pub uninterp spec fn fx_pitches(s: FxHashSet<Pitch>) -> Set<Pitch>;

/// `FxHashSet::default` (through `Default` on `HashSet`): an empty set.
#[verifier::external_body]
fn new_pitch_set() -> (r: FxHashSet<Pitch>)
    ensures
        fx_pitches(r) == Set::<Pitch>::empty(),
{
    FxHashSet::default()
}

/// `HashSet::insert` on an `FxHashSet` of pitches: the set gains `p`, and the
/// result tells whether it was not there before (pitches are equal when their
/// letters and accidentals are).
#[verifier::external_body]
fn insert_pitch(s: &mut FxHashSet<Pitch>, p: Pitch) -> (r: bool)
    ensures
        fx_pitches(*final(s)) == fx_pitches(*old(s)).insert(p),
        r == !fx_pitches(*old(s)).contains(p),
{
    s.insert(p)
}

/// The pitches of `s`, as a set.
pub open spec fn pitch_set(s: Seq<Note>) -> Set<Pitch> {
    Set::new(|p: Pitch| has_pitch(s, p))
}

/// The first note of each pitch, in order.
#[verifier::spinoff_prover]
pub fn dedup_by_pitch(notes: &[Note]) -> (r: Vec<Note>)
    ensures
        r@ == first_pitches(notes@),
{
    let ghost s = notes@;
    let mut seen = new_pitch_set();
    let mut out: Vec<Note> = Vec::new();
    let mut i: usize = 0;
    proof { assert(pitch_set(out@) =~= Set::<Pitch>::empty()); }
    while i < notes.len()
        invariant
            i <= s.len(),
            s == notes@,
            out@ == first_pitches(s.take(i as int)),
            fx_pitches(seen) == pitch_set(out@),
        decreases s.len() - i,
    {
        let n = notes[i];
        proof {
            assert(s.take(i as int + 1).drop_last() =~= s.take(i as int));
            assert(s.take(i as int + 1).last() == n);
            assert(pitch_set(out@).contains(n.pitch) <==> has_pitch(out@, n.pitch));
        }
        let ghost before_out = out@;
        if insert_pitch(&mut seen, n.pitch) {
            out.push(n);
            proof {
                assert forall|p: Pitch| has_pitch(out@, p) <==> (has_pitch(before_out, p) || p == n.pitch) by {
                    if has_pitch(out@, p) {
                        let k = choose|k: int| 0 <= k < out@.len() && (#[trigger] out@[k]).pitch == p;
                        if k < before_out.len() {
                            assert(before_out[k] == out@[k]);
                        }
                    }
                    if has_pitch(before_out, p) {
                        let k = choose|k: int| 0 <= k < before_out.len() && (#[trigger] before_out[k]).pitch == p;
                        assert(out@[k] == before_out[k]);
                    }
                    if p == n.pitch {
                        assert(out@[before_out.len() as int] == n);
                    }
                }
                assert(fx_pitches(seen) =~= pitch_set(out@));
            }
        } else {
            proof { assert(fx_pitches(seen) =~= pitch_set(out@)); }
        }
        i = i + 1;
    }
    proof { assert(s.take(s.len() as int) =~= s); }
    out
}

/// The notes of `s` with letter `l`, and those with another letter, in order.
fn split_letter(s: &Vec<Note>, l: Letter) -> (r: (Vec<Note>, Vec<Note>))
    ensures
        r.0@ == with_letter(s@, l),
        r.1@ == without_letter(s@, l),
{
    let mut with: Vec<Note> = Vec::new();
    let mut without: Vec<Note> = Vec::new();
    let mut i: usize = 0;
    while i < s.len()
        invariant
            i <= s@.len(),
            with@ == with_letter(s@.take(i as int), l),
            without@ == without_letter(s@.take(i as int), l),
        decreases s@.len() - i,
    {
        proof {
            assert(s@.take(i as int + 1).drop_last() =~= s@.take(i as int));
            assert(s@.take(i as int + 1).last() == s@[i as int]);
        }
        let n = s[i];
        if n.pitch.letter == l {
            with.push(n);
        } else {
            without.push(n);
        }
        i = i + 1;
    }
    proof { assert(s@.take(s@.len() as int) =~= s@); }
    (with, without)
}

} // verus!
