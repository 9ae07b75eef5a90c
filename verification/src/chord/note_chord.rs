//! Chords of notes: the notes as voiced, with the chord of pitches they spell.

use vstd::prelude::*;
use crate::chord::pitch_chord::{
    chord_tones, position_in, stacked_octave, tones_fit, transposable, voiced_pitches, PitchChord,
};
use crate::chord::root::{find_root, root_of};
use crate::chord::shape::{ivls_sorted, ChordShape};
use crate::chord::voicing::{
    as_notes, before, closed_root_position_inner, closed_root_rest, closed_root_spec, closed_root_top,
    dedup_by_pitch, first_pitches, has_pitch, lemma_closed_rest_sorted, lemma_first_pitches_has, lemma_first_pitches_sorted, lemma_pitch_position, letter_rank,
    above_root, lemma_closed_root_shape, lemma_letter_position, lemma_with_letter_len, letter_position,
    note_le, notes_sorted, notes_strictly_sorted, pitch_position, separate_same_letter_by_octave,
    separated, separated_octave, sort_notes, with_letter,
};
use crate::interval::{lemma_mk, transposed, Interval, Quality};
use crate::note::{between_notes_ok, between_notes_spec, can_transpose, law_transpose_keeps_order, note_lt, transposed_note, Note};
use crate::pcset::PitchClassSet;
use crate::pitch::{lemma_fifths_roundtrip, Pitch, PitchClass};

verus! {

/// The notes of `s` once each, in strictly ascending order.
pub open spec fn arranged(s: Seq<Note>) -> Seq<Note> {
    choose|r: Seq<Note>| notes_strictly_sorted(r) && r.to_set() == s.to_set()
}

/// Two strictly ascending sequences of the same notes are equal.
pub proof fn lemma_arranged_unique(a: Seq<Note>, b: Seq<Note>)
    requires
        notes_strictly_sorted(a),
        notes_strictly_sorted(b),
        a.to_set() == b.to_set(),
    ensures
        a == b,
    decreases a.len(),
{
    if a.len() == 0 {
        if b.len() > 0 {
            assert(a.to_set().contains(b[0]));
        }
        assert(a =~= b);
    } else {
        assert(b.to_set().contains(a[0]));
        assert(b.len() > 0);
        assert(a.to_set().contains(b[0]));
        let i = choose|i: int| 0 <= i < a.len() && a[i] == b[0];
        let j = choose|j: int| 0 <= j < b.len() && b[j] == a[0];
        if i > 0 && j > 0 {
            assert(note_lt(a[0], a[i]));
            assert(note_lt(b[0], b[j]));
        }
        assert(a[0] == b[0]);
        let a1 = a.drop_first();
        let b1 = b.drop_first();
        assert forall|x: Note| a1.to_set().contains(x) <==> b1.to_set().contains(x) by {
            if a1.to_set().contains(x) {
                let k = choose|k: int| 0 <= k < a1.len() && a1[k] == x;
                assert(a[k + 1] == x);
                assert(note_lt(a[0], a[k + 1]));
                assert(b.to_set().contains(x));
                let m = choose|m: int| 0 <= m < b.len() && b[m] == x;
                assert(m != 0);
                assert(b1[m - 1] == x);
            }
            if b1.to_set().contains(x) {
                let k = choose|k: int| 0 <= k < b1.len() && b1[k] == x;
                assert(b[k + 1] == x);
                assert(note_lt(b[0], b[k + 1]));
                assert(a.to_set().contains(x));
                let m = choose|m: int| 0 <= m < a.len() && a[m] == x;
                assert(m != 0);
                assert(a1[m - 1] == x);
            }
        }
        assert(a1.to_set() =~= b1.to_set());
        lemma_arranged_unique(a1, b1);
        assert(a =~= b) by {
            assert forall|k: int| 0 <= k < a.len() implies a[k] == b[k] by {
                if k > 0 {
                    assert(a[k] == a1[k - 1]);
                    assert(b[k] == b1[k - 1]);
                }
            }
        }
    }
}

/// A strictly ascending sequence of the notes of `s` is their arrangement.
pub proof fn lemma_arranged(s: Seq<Note>, r: Seq<Note>)
    requires
        notes_strictly_sorted(r),
        r.to_set() == s.to_set(),
    ensures
        arranged(s) == r,
{
    let a = arranged(s);
    assert(notes_strictly_sorted(a) && a.to_set() == s.to_set());
    lemma_arranged_unique(a, r);
}

/// The notes of `notes` once each, in ascending order.
pub fn sort_dedup(notes: &[Note]) -> (r: Vec<Note>)
    ensures
        r@ == arranged(notes@),
{
    let sorted = sort_notes(notes);
    let mut out: Vec<Note> = Vec::new();
    let mut i: usize = 0;
    while i < sorted.len()
        invariant
            i <= sorted@.len(),
            notes_sorted(sorted@),
            notes_strictly_sorted(out@),
            out@.to_set() == sorted@.take(i as int).to_set(),
            out@.len() > 0 ==> i > 0 && out@.last() == sorted@[i - 1],
        decreases sorted@.len() - i,
    {
        let x = sorted[i];
        let ghost old_out = out@;
        if out.len() == 0 || out[out.len() - 1] != x {
            proof {
                if out@.len() > 0 {
                    assert(note_le(sorted@[i - 1], sorted@[i as int]));
                    assert forall|a: int| 0 <= a < old_out.len() implies note_lt(#[trigger] old_out[a], x) by {
                        if a < old_out.len() - 1 {
                            assert(note_lt(old_out[a], old_out.last()));
                        }
                    }
                }
            }
            out.push(x);
            proof {
                assert forall|a: int, b: int| 0 <= a < b < out@.len() implies note_lt(#[trigger] out@[a], #[trigger] out@[b]) by {
                    if b < old_out.len() {
                        assert(out@[a] == old_out[a] && out@[b] == old_out[b]);
                    } else {
                        assert(out@[a] == old_out[a]);
                    }
                }
            }
        }
        proof {
            assert(sorted@.take(i as int + 1) =~= sorted@.take(i as int).push(x));
            sorted@.take(i as int).lemma_push_to_set_commute(x);
            if out@.len() > old_out.len() {
                assert(out@ == old_out.push(x));
                old_out.lemma_push_to_set_commute(x);
            } else {
                assert(old_out.contains(old_out.last()));
                assert(old_out.to_set().contains(x));
            }
            assert(out@.to_set() =~= sorted@.take(i as int + 1).to_set());
        }
        i = i + 1;
    }
    proof {
        assert(sorted@.take(sorted@.len() as int) =~= sorted@);
        assert forall|x: Note| sorted@.to_set().contains(x) <==> notes@.to_set().contains(x) by {
            assert(sorted@.to_multiset().count(x) == notes@.to_multiset().count(x));
            sorted@.to_multiset_ensures();
            notes@.to_multiset_ensures();
        }
        assert(sorted@.to_set() =~= notes@.to_set());
        lemma_arranged(notes@, out@);
    }
    out
}

/// The closed voicing of `notes` above `root`: the closed root position (see
/// [`closed_root_position_inner`]) with the notes of each letter moved apart.
pub open spec fn closed_voicing(root: Pitch, notes: Seq<Note>) -> Seq<Note> {
    separated(as_notes(closed_root_spec(root, notes)))
}

/// The intervals from the lowest note of the arranged closed voicing of `notes`
/// above `root` up to each of its notes.
pub open spec fn closed_intervals(root: Pitch, notes: Seq<Note>) -> Seq<Interval> {
    let a = arranged(closed_voicing(root, notes));
    Seq::new(a.len(), |j: int| between_notes_spec(a[0], a[j]))
}

/// Whether the chord of pitches that `notes` spell above `root` can be worked out:
/// a note of `root` is among them, the octaves of the closed voicing fit an `i16`,
/// each note of the arranged closed voicing can be measured from its lowest note,
/// the root (see [`lemma_root_lowest`]), and the intervals come in order (see
/// [`ivl_le`](crate::chord::ivl_le)) with none twice.
pub open spec fn pitch_chord_ok(notes: Seq<Note>, root: Pitch) -> bool {
    let c = as_notes(closed_root_spec(root, notes));
    let a = arranged(closed_voicing(root, notes));
    &&& has_pitch(notes, root)
    &&& closed_root_top(root, notes) <= i16::MAX
    &&& forall|i: int| 0 <= i < closed_root_spec(root, notes).len() ==>
            (#[trigger] closed_root_spec(root, notes)[i]).1 <= i16::MAX
    &&& forall|j: int| 0 <= j < c.len() ==> #[trigger] separated_octave(c, j) <= i16::MAX
    &&& forall|j: int| 0 <= j < a.len() ==> between_notes_ok(a[0], #[trigger] a[j])
    &&& ivls_sorted(closed_intervals(root, notes))
    &&& closed_intervals(root, notes).no_duplicates()
}

/// Notes with the same multiset hold the same set.
proof fn lemma_same_set(a: Seq<Note>, b: Seq<Note>)
    requires
        a.to_multiset() == b.to_multiset(),
    ensures
        a.to_set() == b.to_set(),
        a.len() == b.len(),
{
    a.to_multiset_ensures();
    b.to_multiset_ensures();
    assert forall|x: Note| a.to_set().contains(x) <==> b.to_set().contains(x) by {
        assert(a.to_multiset().count(x) == b.to_multiset().count(x));
        assert(a.contains(x) <==> a.to_multiset().count(x) > 0);
        assert(b.contains(x) <==> b.to_multiset().count(x) > 0);
        assert(a.to_set().contains(x) <==> a.contains(x));
        assert(b.to_set().contains(x) <==> b.contains(x));
    }
    assert(a.to_set() =~= b.to_set());
}

/// The chord of pitches that `notes` spell above `root`: its shape is the
/// intervals from the root up through the arranged closed voicing, and its bass
/// is the pitch of the first note. The notes left over by the stack of thirds
/// must come in order, as they do when `notes` do (see
/// [`lemma_closed_rest_sorted`]).
pub fn make_pitch_chord_inner(notes: &[Note], root: Pitch) -> (r: PitchChord)
    requires
        notes@.len() > 0,
        pitch_chord_ok(notes@, root),
        notes_sorted(closed_root_rest(root, notes@)),
    ensures
        r.root_spec() == root,
        r.shape_spec() == closed_intervals(root, notes@),
        r.bass_spec() == notes@[0].pitch,
{
    let ghost a = arranged(closed_voicing(root, notes@));
    proof { lemma_root_lowest(root, notes@); }
    let mut closed = closed_root_position_inner(root, notes);
    let ghost c = closed@;
    separate_same_letter_by_octave(&mut closed);
    proof {
        lemma_same_set(closed@, separated(c));
        lemma_arranged(closed_voicing(root, notes@), closed@);
    }
    let root_note = closed[0];
    let mut ivls: Vec<Interval> = Vec::new();
    let mut j: usize = 0;
    while j < closed.len()
        invariant
            a == arranged(closed_voicing(root, notes@)),
            closed@ == a,
            a.len() > 0,
            root_note == a[0],
            j <= a.len(),
            forall|k: int| 0 <= k < a.len() ==> between_notes_ok(a[0], #[trigger] a[k]),
            ivls@ == closed_intervals(root, notes@).take(j as int),
        decreases a.len() - j,
    {
        let i = root_note.distance_to(closed[j]);
        ivls.push(i);
        proof {
            assert(i == between_notes_spec(a[0], a[j as int]));
            assert(closed_intervals(root, notes@)[j as int] == between_notes_spec(a[0], a[j as int]));
            assert(ivls@ =~= closed_intervals(root, notes@).take(j as int + 1));
        }
        j = j + 1;
    }
    proof {
        assert(ivls@ =~= closed_intervals(root, notes@));
        assert(ivls@[0] == Interval::mk(Quality::Perfect, 1));
    }
    let shape = ChordShape::from_checked(ivls);
    PitchChord::with_bass(root, shape, notes[0].pitch)
}

/// The pitches of `s`, in order.
pub open spec fn pitches_of(s: Seq<Note>) -> Seq<Pitch> {
    Seq::new(s.len(), |i: int| s[i].pitch)
}

/// Whether a chord can be made of `notes` (see [`NoteChord::new`]): when there is
/// any note, the chord of pitches their arrangement spells above the root that
/// [`find_root`] names can be worked out.
pub open spec fn note_chord_ok(notes: Seq<Note>) -> bool {
    let a = arranged(notes);
    match root_of(pitches_of(a)) {
        Some(r) => pitch_chord_ok(a, r),
        None => true,
    }
}

/// The arrangement of notes holds exactly their notes.
proof fn lemma_arranged_set(s: Seq<Note>)
    ensures
        notes_strictly_sorted(arranged(s)),
        arranged(s).to_set() == s.to_set(),
        arranged(s).len() == 0 <==> s.len() == 0,
{
    lemma_arrangement_exists(s);
    let a = arranged(s);
    if s.len() > 0 {
        assert(s.to_set().contains(s[0]));
        if a.len() == 0 {
            assert(!a.to_set().contains(s[0]));
        }
    } else {
        if a.len() > 0 {
            assert(a.to_set().contains(a[0]));
        }
    }
}

/// Some strictly ascending sequence holds exactly the notes of `s`.
proof fn lemma_arrangement_exists(s: Seq<Note>)
    ensures
        exists|r: Seq<Note>| notes_strictly_sorted(r) && r.to_set() == s.to_set(),
    decreases s.len(),
{
    if s.len() == 0 {
        let r = Seq::<Note>::empty();
        assert(r.to_set() =~= s.to_set());
        assert(notes_strictly_sorted(r));
    } else {
        let t = s.drop_last();
        let x = s.last();
        lemma_arrangement_exists(t);
        let r = choose|r: Seq<Note>| notes_strictly_sorted(r) && r.to_set() == t.to_set();
        assert(s == t.push(x));
        t.lemma_push_to_set_commute(x);
        if r.contains(x) {
            assert(r.to_set() =~= s.to_set());
        } else {
            let p = choose_insert_position(r, x);
            let r2 = r.insert(p, x);
            assert(notes_strictly_sorted(r2)) by {
                assert forall|a: int, b: int| 0 <= a < b < r2.len() implies note_lt(#[trigger] r2[a], #[trigger] r2[b]) by {
                    if b < p {
                        assert(r2[a] == r[a] && r2[b] == r[b]);
                    } else if b == p {
                        assert(r2[a] == r[a]);
                    } else if a == p {
                        assert(r2[b] == r[b - 1]);
                    } else if a < p {
                        assert(r2[a] == r[a] && r2[b] == r[b - 1]);
                    } else {
                        assert(r2[a] == r[a - 1] && r2[b] == r[b - 1]);
                    }
                }
            }
            assert forall|y: Note| r2.to_set().contains(y) <==> s.to_set().contains(y) by {
                if r2.contains(y) {
                    let k = choose|k: int| 0 <= k < r2.len() && r2[k] == y;
                    if k < p {
                        assert(r[k] == y);
                    } else if k > p {
                        assert(r[k - 1] == y);
                    }
                }
                if r.contains(y) {
                    let k = choose|k: int| 0 <= k < r.len() && r[k] == y;
                    if k < p {
                        assert(r2[k] == y);
                    } else {
                        assert(r2[k + 1] == y);
                    }
                }
                if y == x {
                    assert(r2[p] == x);
                }
            }
            assert(r2.to_set() =~= s.to_set());
        }
    }
}

/// The place in strictly ascending `r` where `x`, not among its notes, belongs:
/// every note before it comes before `x`, and `x` comes before every note after.
proof fn choose_insert_position(r: Seq<Note>, x: Note) -> (p: int)
    requires
        notes_strictly_sorted(r),
        !r.contains(x),
    ensures
        0 <= p <= r.len(),
        forall|k: int| 0 <= k < p ==> note_lt(#[trigger] r[k], x),
        forall|k: int| p <= k < r.len() ==> note_lt(x, #[trigger] r[k]),
    decreases r.len(),
{
    if r.len() == 0 {
        0
    } else if note_lt(x, r[0]) {
        assert forall|k: int| 0 <= k < r.len() implies note_lt(x, #[trigger] r[k]) by {
            if k > 0 {
                assert(note_lt(r[0], r[k]));
            }
        }
        0
    } else {
        assert(r[0] != x);
        let t = r.drop_first();
        assert forall|a: int, b: int| 0 <= a < b < t.len() implies note_lt(#[trigger] t[a], #[trigger] t[b]) by {
            assert(t[a] == r[a + 1] && t[b] == r[b + 1]);
        }
        assert(!t.contains(x)) by {
            if t.contains(x) {
                let k = choose|k: int| 0 <= k < t.len() && t[k] == x;
                assert(r[k + 1] == x);
            }
        }
        let q = choose_insert_position(t, x);
        assert forall|k: int| 0 <= k < q + 1 implies note_lt(#[trigger] r[k], x) by {
            if k > 0 {
                assert(r[k] == t[k - 1]);
            }
        }
        assert forall|k: int| q + 1 <= k < r.len() implies note_lt(x, #[trigger] r[k]) by {
            assert(r[k] == t[k - 1]);
        }
        q + 1
    }
}

/// The notes of `s` in ascending order, each as often as in `s`.
pub open spec fn sorted_notes(s: Seq<Note>) -> Seq<Note> {
    choose|r: Seq<Note>| notes_sorted(r) && r.to_multiset() == s.to_multiset()
}

/// Two ascending sequences of the same notes, counted with repeats, are equal.
pub proof fn lemma_sorted_unique(a: Seq<Note>, b: Seq<Note>)
    requires
        notes_sorted(a),
        notes_sorted(b),
        a.to_multiset() == b.to_multiset(),
    ensures
        a == b,
    decreases a.len(),
{
    a.to_multiset_ensures();
    b.to_multiset_ensures();
    if a.len() == 0 {
        assert(a =~= b);
    } else {
        assert(a.contains(a[0]));
        assert(a.to_multiset().count(a[0]) > 0);
        assert(b.contains(a[0]));
        assert(b.contains(b[0]));
        assert(b.to_multiset().count(b[0]) > 0);
        assert(a.contains(b[0]));
        let i = choose|i: int| 0 <= i < a.len() && a[i] == b[0];
        let j = choose|j: int| 0 <= j < b.len() && b[j] == a[0];
        if i > 0 && j > 0 {
            assert(note_le(a[0], a[i]));
            assert(note_le(b[0], b[j]));
        }
        assert(a[0] == b[0]);
        let a1 = a.drop_first();
        let b1 = b.drop_first();
        assert(a.remove(0) =~= a1);
        assert(b.remove(0) =~= b1);
        assert(a1.to_multiset() == b1.to_multiset());
        assert forall|x: int, y: int| 0 <= x < y < a1.len() implies note_le(#[trigger] a1[x], #[trigger] a1[y]) by {
            assert(a1[x] == a[x + 1] && a1[y] == a[y + 1]);
        }
        assert forall|x: int, y: int| 0 <= x < y < b1.len() implies note_le(#[trigger] b1[x], #[trigger] b1[y]) by {
            assert(b1[x] == b[x + 1] && b1[y] == b[y + 1]);
        }
        lemma_sorted_unique(a1, b1);
        assert(a =~= b) by {
            assert forall|k: int| 0 <= k < a.len() implies a[k] == b[k] by {
                if k > 0 {
                    assert(a[k] == a1[k - 1]);
                    assert(b[k] == b1[k - 1]);
                }
            }
        }
    }
}

/// An ascending sequence of the notes of `s`, counted with repeats, is their
/// sorted order.
pub proof fn lemma_sorted_notes(s: Seq<Note>, r: Seq<Note>)
    requires
        notes_sorted(r),
        r.to_multiset() == s.to_multiset(),
    ensures
        sorted_notes(s) == r,
{
    let a = sorted_notes(s);
    assert(notes_sorted(a) && a.to_multiset() == s.to_multiset());
    lemma_sorted_unique(a, r);
}

/// The octave a note `x` below the new bass `bass` moves to when the chord is
/// inverted: up an octave, and up another when that still leaves it below the bass.
pub open spec fn lifted_octave(x: Note, bass: Note) -> int {
    let o = x.octave + 1;
    let below = o < bass.octave || (o == bass.octave && (x.pitch.letter.idx() < bass.pitch.letter.idx()
        || (x.pitch.letter.idx() == bass.pitch.letter.idx()
            && x.pitch.accidental.offset < bass.pitch.accidental.offset)));
    if below { o + 1 } else { o }
}

/// The notes `s` turned so that note `n` comes first, the notes before it moved
/// above it (see [`lifted_octave`]).
pub open spec fn inverted_notes(s: Seq<Note>, n: int) -> Seq<Note> {
    s.subrange(n, s.len() as int) + Seq::new(n as nat, |i: int| Note {
        pitch: s[i].pitch,
        octave: lifted_octave(s[i], s[n]) as i16,
    })
}

/// The notes of the chord `s` in inversion `n`: the turned notes (see
/// [`inverted_notes`]) in ascending order, with the notes of each letter then
/// moved apart (see [`separated`]) and put in order again when `separate_steps`.
pub open spec fn inversion_notes(s: Seq<Note>, n: int, separate_steps: bool) -> Seq<Note> {
    let sorted = sorted_notes(inverted_notes(s, n));
    if separate_steps { arranged(separated(sorted)) } else { sorted }
}

/// Whether the chord `s` can be put in inversion `n`: the moved octaves fit an
/// `i16`, and so do those moving the notes of a letter apart when `separate_steps`.
pub open spec fn inversion_ok(s: Seq<Note>, n: int, separate_steps: bool) -> bool {
    &&& forall|i: int| 0 <= i < n ==> #[trigger] lifted_octave(s[i], s[n]) <= i16::MAX
    &&& separate_steps ==> forall|j: int| 0 <= j < s.len() ==>
            #[trigger] separated_octave(sorted_notes(inverted_notes(s, n)), j) <= i16::MAX
}

/// The closed voicing of `s` above `root` in ascending order: the notes moved
/// apart by letter (see [`closed_voicing`]) when `separate_steps`, else the closed
/// root position as it stands.
pub open spec fn closed_notes(s: Seq<Note>, root: Pitch, separate_steps: bool) -> Seq<Note> {
    if separate_steps {
        arranged(closed_voicing(root, s))
    } else {
        sorted_notes(as_notes(closed_root_spec(root, s)))
    }
}

/// Strictly sorted notes are sorted.
proof fn lemma_strictly_sorted_sorted(s: Seq<Note>)
    requires
        notes_strictly_sorted(s),
    ensures
        notes_sorted(s),
{
    assert forall|a: int, b: int| 0 <= a < b < s.len() implies note_le(#[trigger] s[a], #[trigger] s[b]) by {
        assert(note_lt(s[a], s[b]));
    }
}

/// The notes `s`, each moved by `d` octaves.
pub open spec fn shifted(s: Seq<Note>, d: int) -> Seq<Note> {
    Seq::new(s.len(), |i: int| Note { pitch: s[i].pitch, octave: (s[i].octave + d) as i16 })
}

/// The notes of the chord `s` in closed position (see [`NoteChord::closed_position`]).
pub open spec fn closed_position_notes(s: Seq<Note>, root: Pitch, separate_steps: bool) -> Seq<Note> {
    let cn = closed_notes(s, root, separate_steps);
    if root == s[0].pitch {
        cn
    } else {
        let inv = inversion_notes(cn, pitch_position(cn, s[0].pitch), separate_steps);
        shifted(inv, s[0].octave - inv[0].octave)
    }
}

/// Whether the chord `s` on `root` can be put in closed position: the closed
/// root position can be worked out (see [`closed_root_position_inner`]; the notes
/// of a chord come in order, so the notes it leaves over do too), its
/// notes moved apart by letter when `separate_steps` (see
/// [`separate_same_letter_by_octave`]), the chord of pitches of the result
/// worked out (see [`pitch_chord_ok`]); and, when the root is not in the bass, the
/// bass pitch stands above the lowest note of the closed voicing, the voicing
/// can be inverted onto it (see [`inversion_ok`]), the inversion has the bass pitch
/// lowest, and the octaves moved to put the bass back in place fit an `i16`.
pub open spec fn closed_position_ok(s: Seq<Note>, root: Pitch, separate_steps: bool) -> bool {
    let cn = closed_notes(s, root, separate_steps);
    let k = pitch_position(cn, s[0].pitch);
    let inv = inversion_notes(cn, k, separate_steps);
    let d = s[0].octave - inv[0].octave;
    &&& has_pitch(s, root)
    &&& closed_root_top(root, s) <= i16::MAX
    &&& forall|i: int| 0 <= i < closed_root_spec(root, s).len() ==>
            (#[trigger] closed_root_spec(root, s)[i]).1 <= i16::MAX
    &&& separate_steps ==> forall|j: int| 0 <= j < closed_root_spec(root, s).len() ==>
            #[trigger] separated_octave(as_notes(closed_root_spec(root, s)), j) <= i16::MAX
    &&& pitch_chord_ok(cn, root)
    &&& root != s[0].pitch ==> {
        &&& 0 < k < cn.len()
        &&& inversion_ok(cn, k, separate_steps)
        &&& inv[0].pitch == s[0].pitch
        &&& i16::MIN <= d <= i16::MAX
        &&& forall|i: int| 0 <= i < inv.len() ==> i16::MIN <= #[trigger] inv[i].octave + d <= i16::MAX
    }
}

/// The octave [`NoteChord::compact_position`] gives note `j` of `s`: the octave
/// of the first note of `s`, one more for a letter below its letter, and, when
/// `separate_steps`, one more for each earlier note of the same letter.
pub open spec fn compact_octave(s: Seq<Note>, j: int, separate_steps: bool) -> int {
    let l = s[j].pitch.letter;
    let base = if l.idx() < s[0].pitch.letter.idx() { s[0].octave + 1 } else { s[0].octave as int };
    base + if separate_steps { with_letter(s.take(j), l).len() as int } else { 0int }
}

/// The notes of `s` placed by [`compact_octave`].
pub open spec fn compacted(s: Seq<Note>, separate_steps: bool) -> Seq<Note> {
    Seq::new(s.len(), |j: int| Note { pitch: s[j].pitch, octave: compact_octave(s, j, separate_steps) as i16 })
}

/// The notes that the chord of pitches `c` voices from `bass_octave` (see
/// [`PitchChord::notes`]).
pub open spec fn voiced_notes(c: PitchChord, bass_octave: int) -> Seq<Note> {
    let ps = voiced_pitches(c.root_spec(), c.shape_spec(), c.bass_spec());
    Seq::new(ps.len(), |i: int| Note { pitch: ps[i], octave: stacked_octave(ps, bass_octave, i) as i16 })
}

/// The root is among the pitches voiced from a shape that starts with a unison.
proof fn lemma_voiced_has_root(root: Pitch, sh: Seq<Interval>, bass: Pitch) -> (i: int)
    requires
        sh.len() >= 1,
        sh[0] == Interval::mk(Quality::Perfect, 1),
    ensures
        0 <= i < voiced_pitches(root, sh, bass).len(),
        voiced_pitches(root, sh, bass)[i] == root,
{
    let t = chord_tones(root, sh);
    lemma_fifths_roundtrip(root);
    lemma_mk(Quality::Perfect, 1);
    assert(t[0] == root);
    let k = position_in(t, bass);
    let ps = voiced_pitches(root, sh, bass);
    crate::chord::pitch_chord::lemma_position_in(t, bass);
    if k < t.len() {
        let a = t.subrange(k, t.len() as int);
        let b = t.subrange(0, k);
        assert(ps == a + b);
        if k == 0 {
            assert(ps[0] == t[0]);
            0
        } else {
            assert(ps[t.len() - k] == b[0]);
            t.len() - k
        }
    } else {
        assert(ps == seq![bass] + t);
        assert(ps[1] == t[0]);
        1
    }
}

/// In the closed voicing of notes with a note of `root` whose octaves fit an
/// `i16`, the root note comes before every other note, so it stands lowest once
/// the voicing is arranged.
pub proof fn lemma_root_lowest(root: Pitch, notes: Seq<Note>)
    requires
        has_pitch(notes, root),
        forall|i: int| 0 <= i < closed_root_spec(root, notes).len() ==>
            (#[trigger] closed_root_spec(root, notes)[i]).1 <= i16::MAX,
        forall|j: int| 0 <= j < as_notes(closed_root_spec(root, notes)).len() ==>
            #[trigger] separated_octave(as_notes(closed_root_spec(root, notes)), j) <= i16::MAX,
    ensures
        arranged(closed_voicing(root, notes)).len() > 0,
        arranged(closed_voicing(root, notes))[0].pitch == root,
{
    let spec = closed_root_spec(root, notes);
    let c = as_notes(spec);
    let sep = closed_voicing(root, notes);
    let l0 = root.letter;
    lemma_closed_root_shape(root, notes);
    let o0 = spec[0].1;
    assert(c[0].pitch == root);
    assert(i16::MIN <= o0 <= i16::MAX) by {
        assert(o0 == first_pitches(notes)[pitch_position(first_pitches(notes), root)].octave);
    }
    assert(c[0].octave == o0);
    // every later note of the closed root position has the root's letter or comes after it
    assert forall|j: int| 1 <= j < c.len() implies (#[trigger] c[j]).pitch.letter == l0
        || note_lt(c[0], c[j]) by {
        assert(spec[j].0.letter == l0 || above_root(spec[j], l0, o0));
        if spec[j].0.letter != l0 {
            assert(spec[j].1 <= i16::MAX);
            assert(c[j].octave == spec[j].1);
        }
    }
    // every later note of the closed voicing comes after the root note
    assert(sep[0] == c[0]) by {
        assert(with_letter(c.take(0), c[0].pitch.letter) =~= Seq::<Note>::empty());
    }
    assert forall|j: int| 1 <= j < sep.len() implies note_lt(c[0], #[trigger] sep[j]) by {
        let t = c.take(j);
        let l = c[j].pitch.letter;
        let rank = with_letter(t, l).len();
        assert(separated_octave(c, j) <= i16::MAX);
        if l == l0 {
            assert(t[0] == c[0]);
            lemma_with_letter_len(t, l);
            lemma_letter_position(c, l, j);
            assert(letter_position(c, l) == 0);
            assert(t[letter_position(t, l)] == c[0]);
        } else if rank > 0 {
            lemma_letter_position(c, l, j);
            let p = letter_position(c, l);
            assert(t[letter_position(t, l)] == c[p]);
            assert(p != 0);
            assert(note_lt(c[0], c[p]));
        }
    }
    // so the arranged voicing starts with it
    let a = arranged(sep);
    lemma_arranged_set(sep);
    assert(sep.to_set().contains(c[0]));
    assert(a.to_set().contains(c[0]));
    let i = choose|i: int| 0 <= i < a.len() && a[i] == c[0];
    assert(a.len() > 0);
    assert(sep.to_set().contains(a[0]));
    let m = choose|m: int| 0 <= m < sep.len() && sep[m] == a[0];
    if m > 0 && i > 0 {
        assert(note_lt(c[0], a[0]));
        assert(note_lt(a[0], a[i]));
    }
}

/// A copy of the notes `v`.
fn copy_notes(v: &Vec<Note>) -> (r: Vec<Note>)
    ensures
        r@ == v@,
{
    let mut r: Vec<Note> = Vec::new();
    let mut i: usize = 0;
    while i < v.len()
        invariant
            i <= v@.len(),
            r@ == v@.take(i as int),
        decreases v@.len() - i,
    {
        r.push(v[i]);
        proof { assert(r@ =~= v@.take(i as int + 1)); }
        i = i + 1;
    }
    proof { assert(r@ =~= v@); }
    r
}

/// A chord of notes: its notes in ascending order (by octave, letter, then
/// accidental), and the chord of pitches they spell.
#[derive(Debug, PartialEq, Eq)]
pub struct NoteChord {
    notes: Vec<Note>,
    pitch_chord: PitchChord,
}

impl Clone for NoteChord {
    fn clone(&self) -> (r: NoteChord)
        ensures
            r.notes_spec() == self.notes_spec(),
            r.chord_spec().root_spec() == self.chord_spec().root_spec(),
            r.chord_spec().shape_spec() == self.chord_spec().shape_spec(),
            r.chord_spec().bass_spec() == self.chord_spec().bass_spec(),
    {
        proof { use_type_invariant(self); }
        NoteChord { notes: copy_notes(&self.notes), pitch_chord: self.pitch_chord.clone() }
    }
}

impl NoteChord {
    /// The notes.
    pub closed spec fn notes_spec(self) -> Seq<Note> {
        self.notes@
    }

    /// The chord of pitches the notes spell.
    pub closed spec fn chord_spec(self) -> PitchChord {
        self.pitch_chord
    }

    /// A chord of notes has at least one note, and its notes come in order.
    #[verifier::type_invariant]
    spec fn well_formed(self) -> bool {
        &&& self.notes@.len() > 0
        &&& notes_sorted(self.notes@)
    }

    /// The chord of the notes `notes`, each once, in ascending order, with the root
    /// [`find_root`] names; `None` when there is no note.
    pub fn new(notes: &[Note]) -> (r: Option<NoteChord>)
        requires
            note_chord_ok(notes@),
        ensures
            r is None <==> notes@.len() == 0,
            r matches Some(c) ==> {
                let a = arranged(notes@);
                &&& c.notes_spec() == a
                &&& root_of(pitches_of(a)) == Some(c.chord_spec().root_spec())
                &&& c.chord_spec().shape_spec() == closed_intervals(c.chord_spec().root_spec(), a)
                &&& c.chord_spec().bass_spec() == a[0].pitch
            },
    {
        let sorted = sort_dedup(notes);
        proof { lemma_arranged_set(notes@); }
        if sorted.len() == 0 {
            return None;
        }
        let mut pitches: Vec<Pitch> = Vec::new();
        let mut i: usize = 0;
        while i < sorted.len()
            invariant
                i <= sorted@.len(),
                pitches@ == pitches_of(sorted@).take(i as int),
            decreases sorted@.len() - i,
        {
            pitches.push(sorted[i].pitch);
            proof { assert(pitches@ =~= pitches_of(sorted@).take(i as int + 1)); }
            i = i + 1;
        }
        proof { assert(pitches@ =~= pitches_of(sorted@)); }
        let root = match find_root(pitches.as_slice()) {
            Some(p) => p,
            None => return None,
        };
        proof {
            lemma_strictly_sorted_sorted(sorted@);
            lemma_closed_rest_sorted(root, sorted@);
        }
        let pitch_chord = make_pitch_chord_inner(sorted.as_slice(), root);
        Some(NoteChord { notes: sorted, pitch_chord })
    }

    /// The chord of the notes `notes`, each once, in ascending order, with the root
    /// `root`; `None` when no note has the pitch `root`.
    pub fn with_root(notes: &[Note], root: Pitch) -> (r: Option<NoteChord>)
        requires
            has_pitch(notes@, root) ==> pitch_chord_ok(arranged(notes@), root),
        ensures
            r is None <==> !has_pitch(notes@, root),
            r matches Some(c) ==> {
                let a = arranged(notes@);
                &&& c.notes_spec() == a
                &&& c.chord_spec().root_spec() == root
                &&& c.chord_spec().shape_spec() == closed_intervals(root, a)
                &&& c.chord_spec().bass_spec() == a[0].pitch
            },
    {
        let sorted = sort_dedup(notes);
        proof { lemma_arranged_set(notes@); }
        let mut k: usize = 0;
        while k < sorted.len()
            invariant
                k <= sorted@.len(),
                sorted@ == arranged(notes@),
                notes_strictly_sorted(sorted@),
                sorted@.to_set() == notes@.to_set(),
                has_pitch(notes@, root) ==> pitch_chord_ok(arranged(notes@), root),
                forall|j: int| 0 <= j < k ==> (#[trigger] sorted@[j]).pitch != root,
            decreases sorted@.len() - k,
        {
            if sorted[k].pitch == root {
                proof {
                    assert(sorted@.to_set().contains(sorted@[k as int]));
                    assert(notes@.to_set().contains(sorted@[k as int]));
                    assert(notes@.contains(sorted@[k as int]));
                    let j = choose|j: int| 0 <= j < notes@.len() && notes@[j] == sorted@[k as int];
                    assert(notes@[j].pitch == root);
                    lemma_strictly_sorted_sorted(sorted@);
                    assert(has_pitch(sorted@, root));
                    lemma_closed_rest_sorted(root, sorted@);
                }
                let pitch_chord = make_pitch_chord_inner(sorted.as_slice(), root);
                return Some(NoteChord { notes: sorted, pitch_chord });
            }
            k = k + 1;
        }
        proof {
            if has_pitch(notes@, root) {
                let j = choose|j: int| 0 <= j < notes@.len() && notes@[j].pitch == root;
                assert(notes@.to_set().contains(notes@[j]));
                assert(sorted@.to_set().contains(notes@[j]));
            }
        }
        None
    }

    /// The notes, in ascending order.
    pub fn notes(&self) -> (r: &[Note])
        ensures
            r@ == self.notes_spec(),
    {
        self.notes.as_slice()
    }

    /// The number of notes.
    pub fn len(&self) -> (r: usize)
        ensures
            r == self.notes_spec().len(),
    {
        self.notes.len()
    }

    /// Whether the chord has no note, which never holds.
    pub fn is_empty(&self) -> (r: bool)
        ensures
            r == (self.notes_spec().len() == 0),
            !r,
    {
        proof { use_type_invariant(self); }
        self.notes.len() == 0
    }

    /// The root.
    pub fn root(&self) -> (r: Pitch)
        ensures
            r == self.chord_spec().root_spec(),
    {
        self.pitch_chord.root()
    }

    /// The lowest note.
    pub fn bass(&self) -> (r: Note)
        ensures
            r == self.notes_spec()[0],
    {
        proof { use_type_invariant(self); }
        self.notes[0]
    }

    /// Whether a note of the chord has the pitch `pitch`.
    pub fn contains_pitch(&self, pitch: Pitch) -> (r: bool)
        ensures
            r == has_pitch(self.notes_spec(), pitch),
    {
        let mut k: usize = 0;
        while k < self.notes.len()
            invariant
                k <= self.notes@.len(),
                forall|j: int| 0 <= j < k ==> (#[trigger] self.notes@[j]).pitch != pitch,
            decreases self.notes@.len() - k,
        {
            if self.notes[k].pitch == pitch {
                return true;
            }
            k = k + 1;
        }
        false
    }

    /// Whether `note` is a note of the chord.
    pub fn contains_note(&self, note: Note) -> (r: bool)
        ensures
            r == self.notes_spec().contains(note),
    {
        let mut k: usize = 0;
        while k < self.notes.len()
            invariant
                k <= self.notes@.len(),
                forall|j: int| 0 <= j < k ==> (#[trigger] self.notes@[j]) != note,
            decreases self.notes@.len() - k,
        {
            if self.notes[k] == note {
                return true;
            }
            k = k + 1;
        }
        false
    }

    /// The pitch classes of the notes.
    pub fn pitch_class_set(&self) -> (r: PitchClassSet)
        ensures
            forall|c: int| #[trigger] r.has(c) <==> exists|j: int| 0 <= j < self.notes_spec().len()
                && (#[trigger] self.notes_spec()[j]).pitch.pc() == c,
    {
        let mut classes: Vec<PitchClass> = Vec::new();
        let mut k: usize = 0;
        while k < self.notes.len()
            invariant
                k <= self.notes@.len(),
                classes@.len() == k,
                forall|j: int| 0 <= j < k ==> (#[trigger] classes@[j]).ch() == self.notes@[j].pitch.pc(),
            decreases self.notes@.len() - k,
        {
            classes.push(self.notes[k].pitch.as_pitch_class());
            k = k + 1;
        }
        let r = PitchClassSet::from_pitch_classes(classes.as_slice());
        proof {
            assert forall|c: int| #[trigger] r.has(c) <==> exists|j: int| 0 <= j < self.notes_spec().len()
                && (#[trigger] self.notes_spec()[j]).pitch.pc() == c by {
                if r.has(c) {
                    let i = choose|i: int| 0 <= i < classes@.len() && classes@[i].ch() == c;
                    assert(self.notes_spec()[i].pitch.pc() == c);
                }
                if exists|j: int| 0 <= j < self.notes_spec().len() && (#[trigger] self.notes_spec()[j]).pitch.pc() == c {
                    let j = choose|j: int| 0 <= j < self.notes_spec().len() && (#[trigger] self.notes_spec()[j]).pitch.pc() == c;
                    assert(classes@[j].ch() == c);
                }
            }
        }
        r
    }

    /// The chord of pitches the notes spell.
    pub fn as_pitch_chord(&self) -> (r: &PitchChord)
        ensures
            *r == self.chord_spec(),
    {
        &self.pitch_chord
    }

    /// The inversion of the chord of pitches (see [`PitchChord::inversion`]).
    pub fn inversion(&self) -> (r: u8)
        requires
            tones_fit(self.chord_spec().root_spec(), self.chord_spec().shape_spec()),
        ensures
            r == (if position_in(chord_tones(self.chord_spec().root_spec(), self.chord_spec().shape_spec()),
                self.chord_spec().bass_spec()) < self.chord_spec().shape_spec().len() {
                position_in(chord_tones(self.chord_spec().root_spec(), self.chord_spec().shape_spec()),
                    self.chord_spec().bass_spec()) % 256
            } else {
                0
            }),
    {
        self.pitch_chord.inversion()
    }

    /// The chord with its note `n` (counted from the bass) in the bass: the notes
    /// of [`inversion_notes`]; `None` when there is no note `n`. The chord of
    /// pitches keeps its root and shape and takes the pitch of note `n` as bass.
    fn with_inversion(&self, n: usize, separate_steps: bool) -> (r: Option<NoteChord>)
        requires
            n < self.notes_spec().len() ==> inversion_ok(self.notes_spec(), n as int, separate_steps),
        ensures
            r is None <==> n != 0 && n >= self.notes_spec().len(),
            r matches Some(c) ==> {
                &&& c.notes_spec() == (if n == 0 { self.notes_spec() } else {
                        inversion_notes(self.notes_spec(), n as int, separate_steps) })
                &&& c.chord_spec().root_spec() == self.chord_spec().root_spec()
                &&& c.chord_spec().shape_spec() == self.chord_spec().shape_spec()
                &&& c.chord_spec().bass_spec() == (if n == 0 { self.chord_spec().bass_spec() } else {
                        self.notes_spec()[n as int].pitch })
            },
    {
        if n == 0 {
            return Some(self.clone());
        }
        if n >= self.notes.len() {
            return None;
        }
        let ghost s = self.notes@;
        let len = self.notes.len();
        let bass = self.notes[n];
        let mut turned: Vec<Note> = Vec::new();
        let mut k: usize = n;
        while k < len
            invariant
                s == self.notes@,
                len == s.len(),
                n <= k <= len,
                turned@ == s.subrange(n as int, k as int),
            decreases len - k,
        {
            turned.push(self.notes[k]);
            proof { assert(turned@ =~= s.subrange(n as int, k as int + 1)); }
            k = k + 1;
        }
        let mut i: usize = 0;
        while i < n
            invariant
                s == self.notes@,
                len == s.len(),
                0 < n < len,
                i <= n,
                bass == s[n as int],
                forall|j: int| 0 <= j < n ==> #[trigger] lifted_octave(s[j], s[n as int]) <= i16::MAX,
                turned@ == inverted_notes(s, n as int).take((len - n + i) as int),
            decreases n - i,
        {
            let x = self.notes[i];
            proof { assert(lifted_octave(s[i as int], s[n as int]) <= i16::MAX); }
            let mut y = Note { pitch: x.pitch, octave: x.octave + 1 };
            if before(y, bass) {
                y = Note { pitch: x.pitch, octave: x.octave + 2 };
            }
            turned.push(y);
            proof {
                assert(inverted_notes(s, n as int)[(len - n + i) as int] == y);
                assert(turned@ =~= inverted_notes(s, n as int).take((len - n + i + 1) as int));
            }
            i = i + 1;
        }
        proof { assert(turned@ =~= inverted_notes(s, n as int)); }
        let mut notes = sort_notes(turned.as_slice());
        proof {
            lemma_sorted_notes(turned@, notes@);
            turned@.to_multiset_ensures();
            notes@.to_multiset_ensures();
            assert(notes@.len() == s.len());
        }
        if separate_steps {
            let ghost sorted = notes@;
            separate_same_letter_by_octave(&mut notes);
            proof {
                lemma_same_set(notes@, separated(sorted));
                lemma_arranged(separated(sorted), notes@);
                lemma_strictly_sorted_sorted(notes@);
            }
        }
        proof {
            turned@.to_multiset_ensures();
            notes@.to_multiset_ensures();
        }
        let pitch_chord = PitchChord::with_bass(self.pitch_chord.root(), self.pitch_chord.shape().clone(), bass.pitch);
        Some(NoteChord { notes, pitch_chord })
    }

    /// The chord in closed position: its notes in the closed root position above
    /// the root (see [`closed_root_position_inner`]), with the notes of each
    /// letter moved apart when `separate_steps`, in ascending order; when the root
    /// is not the bass, that voicing inverted onto the bass pitch (see
    /// [`inversion_notes`]) and moved by whole octaves so that the bass note stays
    /// where it was. The chord of pitches is the one the closed voicing spells
    /// (see [`make_pitch_chord_inner`]), with the bass pitch kept.
    pub fn closed_position(&self, separate_steps: bool) -> (r: NoteChord)
        requires
            closed_position_ok(self.notes_spec(), self.chord_spec().root_spec(), separate_steps),
        ensures
            r.notes_spec() == closed_position_notes(self.notes_spec(), self.chord_spec().root_spec(), separate_steps),
            r.chord_spec().root_spec() == self.chord_spec().root_spec(),
            r.chord_spec().shape_spec() == closed_intervals(self.chord_spec().root_spec(),
                closed_notes(self.notes_spec(), self.chord_spec().root_spec(), separate_steps)),
            self.chord_spec().root_spec() != self.notes_spec()[0].pitch ==> r.notes_spec()[0] == self.notes_spec()[0],
            r.chord_spec().bass_spec() == (if self.chord_spec().root_spec() == self.notes_spec()[0].pitch {
                closed_notes(self.notes_spec(), self.chord_spec().root_spec(), separate_steps)[0].pitch
            } else {
                self.notes_spec()[0].pitch
            }),
    {
        proof { use_type_invariant(self); }
        let ghost s = self.notes@;
        let root = self.root();
        let ghost cn = closed_notes(s, root, separate_steps);
        proof { lemma_closed_rest_sorted(root, s); }
        let mut notes = closed_root_position_inner(root, self.notes.as_slice());
        if separate_steps {
            let ghost c = notes@;
            separate_same_letter_by_octave(&mut notes);
            proof {
                lemma_same_set(notes@, separated(c));
                lemma_arranged(closed_voicing(root, s), notes@);
            }
        } else {
            let sorted = sort_notes(notes.as_slice());
            proof { lemma_sorted_notes(notes@, sorted@); }
            notes = sorted;
        }
        proof {
            assert(notes@ == cn);
            assert(cn.len() > 0);
            if separate_steps {
                lemma_strictly_sorted_sorted(cn);
            }
            lemma_closed_rest_sorted(root, cn);
        }
        let pitch_chord = make_pitch_chord_inner(notes.as_slice(), root);
        let closed_root = NoteChord { notes, pitch_chord };
        let bass = self.notes[0];
        if root == bass.pitch {
            return closed_root;
        }
        proof { lemma_pitch_position(cn, bass.pitch); }
        let mut k: usize = 0;
        while k < closed_root.notes.len() && closed_root.notes[k].pitch != bass.pitch
            invariant
                closed_root.notes@ == cn,
                k <= cn.len(),
                pitch_position(cn, bass.pitch) < cn.len(),
                cn[pitch_position(cn, bass.pitch)].pitch == bass.pitch,
                forall|j: int| 0 <= j < pitch_position(cn, bass.pitch) ==> (#[trigger] cn[j]).pitch != bass.pitch,
                k <= pitch_position(cn, bass.pitch),
            decreases cn.len() - k,
        {
            k = k + 1;
        }
        proof { assert(k == pitch_position(cn, bass.pitch)); }
        let inverted = match closed_root.with_inversion(k, separate_steps) {
            Some(c) => c,
            None => closed_root,
        };
        let ghost inv = inversion_notes(cn, k as int, separate_steps);
        proof {
            assert(inverted.notes@ == inv);
            use_type_invariant(&inverted);
        }
        let diff: i16 = bass.octave - inverted.notes[0].octave;
        let mut moved: Vec<Note> = Vec::new();
        let mut i: usize = 0;
        while i < inverted.notes.len()
            invariant
                inverted.notes@ == inv,
                diff == s[0].octave - inv[0].octave,
                forall|j: int| 0 <= j < inv.len() ==> i16::MIN <= #[trigger] inv[j].octave + diff <= i16::MAX,
                i <= inv.len(),
                moved@ == shifted(inv, diff as int).take(i as int),
            decreases inv.len() - i,
        {
            let x = inverted.notes[i];
            proof { assert(i16::MIN <= inv[i as int].octave + diff <= i16::MAX); }
            moved.push(Note { pitch: x.pitch, octave: x.octave + diff });
            proof { assert(moved@ =~= shifted(inv, diff as int).take(i as int + 1)); }
            i = i + 1;
        }
        proof {
            assert(moved@ =~= shifted(inv, diff as int));
            assert(moved@[0].pitch == s[0].pitch && moved@[0].octave == s[0].octave);
            assert forall|a: int, b: int| 0 <= a < b < moved@.len() implies note_le(#[trigger] moved@[a], #[trigger] moved@[b]) by {
                assert(note_le(inv[a], inv[b]));
                assert(i16::MIN <= inv[a].octave + diff <= i16::MAX);
                assert(i16::MIN <= inv[b].octave + diff <= i16::MAX);
            }
        }
        NoteChord { notes: moved, pitch_chord: inverted.pitch_chord }
    }

    /// The chord of the notes of `chord` voiced from `bass_octave` (see
    /// [`PitchChord::notes`]), on the root of `chord`.
    pub fn from_pitch_chord(chord: &PitchChord, bass_octave: i16) -> (r: NoteChord)
        requires
            tones_fit(chord.root_spec(), chord.shape_spec()),
            stacked_octave(
                voiced_pitches(chord.root_spec(), chord.shape_spec(), chord.bass_spec()),
                bass_octave as int,
                voiced_pitches(chord.root_spec(), chord.shape_spec(), chord.bass_spec()).len() - 1,
            ) <= i16::MAX,
            pitch_chord_ok(arranged(voiced_notes(*chord, bass_octave as int)), chord.root_spec()),
        ensures
            r.notes_spec() == arranged(voiced_notes(*chord, bass_octave as int)),
            r.chord_spec().root_spec() == chord.root_spec(),
            r.chord_spec().shape_spec() == closed_intervals(chord.root_spec(), r.notes_spec()),
            r.chord_spec().bass_spec() == r.notes_spec()[0].pitch,
    {
        let notes = chord.notes(bass_octave);
        let shape = chord.shape();
        proof {
            use_type_invariant(shape);
            let root = chord.root_spec();
            assert(notes@ =~= voiced_notes(*chord, bass_octave as int));
            let i = lemma_voiced_has_root(root, chord.shape_spec(), chord.bass_spec());
            assert(notes@[i].pitch == root);
            assert(has_pitch(notes@, root));
        }
        match NoteChord::with_root(notes.as_slice(), chord.root()) {
            Some(c) => c,
            None => {
                proof { assert(false); }
                NoteChord { notes: vec![Note { pitch: chord.root(), octave: bass_octave }], pitch_chord: chord.clone() }
            },
        }
    }

    /// The chord in compact position: each pitch once (its first note), each note
    /// placed by [`compact_octave`] from the lowest one, in ascending order.
    pub fn compact_position(&self, separate_steps: bool) -> (r: NoteChord)
        requires
            forall|j: int| 0 <= j < first_pitches(self.notes_spec()).len() ==>
                #[trigger] compact_octave(first_pitches(self.notes_spec()), j, separate_steps) <= i16::MAX,
        ensures
            r.notes_spec() == sorted_notes(compacted(first_pitches(self.notes_spec()), separate_steps)),
            r.chord_spec().root_spec() == self.chord_spec().root_spec(),
            r.chord_spec().shape_spec() == self.chord_spec().shape_spec(),
            r.chord_spec().bass_spec() == self.chord_spec().bass_spec(),
    {
        let deduped = self.dedup_by_pitch();
        proof { use_type_invariant(&deduped); }
        let ghost d = deduped.notes@;
        let bass = deduped.notes[0];
        let mut placed: Vec<Note> = Vec::new();
        let mut j: usize = 0;
        while j < deduped.notes.len()
            invariant
                d == deduped.notes@,
                d == first_pitches(self.notes_spec()),
                d.len() > 0,
                bass == d[0],
                forall|i: int| 0 <= i < d.len() ==> #[trigger] compact_octave(d, i, separate_steps) <= i16::MAX,
                j <= d.len(),
                placed@ == compacted(d, separate_steps).take(j as int),
            decreases d.len() - j,
        {
            let x = deduped.notes[j];
            let base: i16 = if x.pitch.letter.step() < bass.pitch.letter.step() {
                proof { assert(compact_octave(d, j as int, separate_steps) <= i16::MAX); }
                bass.octave + 1
            } else {
                bass.octave
            };
            let octave: i16 = if separate_steps {
                let (rank, _first) = letter_rank(&deduped.notes, j);
                proof { assert(compact_octave(d, j as int, separate_steps) == base + rank); }
                let o: i32 = base as i32 + rank as i32;
                o as i16
            } else {
                base
            };
            placed.push(Note { pitch: x.pitch, octave });
            proof { assert(placed@ =~= compacted(d, separate_steps).take(j as int + 1)); }
            j = j + 1;
        }
        proof { assert(placed@ =~= compacted(d, separate_steps)); }
        let notes = sort_notes(placed.as_slice());
        proof {
            lemma_sorted_notes(placed@, notes@);
            placed@.to_multiset_ensures();
            notes@.to_multiset_ensures();
        }
        NoteChord { notes, pitch_chord: deduped.pitch_chord }
    }

    /// The chord moved by `interval`: each note, and the chord of pitches.
    pub fn transpose(&self, interval: Interval) -> (r: NoteChord)
        requires
            forall|i: int| 0 <= i < self.notes_spec().len() ==> can_transpose(#[trigger] self.notes_spec()[i], interval),
            transposable(self.chord_spec().root_spec(), interval),
            transposable(self.chord_spec().bass_spec(), interval),
        ensures
            r.notes_spec() == Seq::new(self.notes_spec().len(), |i: int| transposed_note(self.notes_spec()[i], interval)),
            r.chord_spec().root_spec() == transposed(self.chord_spec().root_spec(), interval),
            r.chord_spec().shape_spec() == self.chord_spec().shape_spec(),
            r.chord_spec().bass_spec() == transposed(self.chord_spec().bass_spec(), interval),
    {
        proof { use_type_invariant(self); }
        let ghost s = self.notes@;
        proof {
            assert forall|k: int| 0 <= k < s.len() implies can_transpose(#[trigger] s[k], interval) by {
                assert(s[k] == self.notes_spec()[k]);
            }
        }
        let mut notes: Vec<Note> = Vec::new();
        let mut i: usize = 0;
        while i < self.notes.len()
            invariant
                s == self.notes@,
                forall|k: int| 0 <= k < s.len() ==> can_transpose(#[trigger] s[k], interval),
                i <= s.len(),
                notes@ == Seq::new(s.len(), |k: int| transposed_note(s[k], interval)).take(i as int),
            decreases s.len() - i,
        {
            let x = self.notes[i].transpose(interval);
            notes.push(x);
            proof {
                assert(notes@ =~= Seq::new(s.len(), |k: int| transposed_note(s[k], interval)).take(i as int + 1));
            }
            i = i + 1;
        }
        proof {
            assert(notes@ =~= Seq::new(s.len(), |k: int| transposed_note(s[k], interval)));
            use_type_invariant(&interval);
            assert forall|a: int, b: int| 0 <= a < b < notes@.len() implies note_le(#[trigger] notes@[a], #[trigger] notes@[b]) by {
                assert(note_le(s[a], s[b]));
                if note_lt(s[a], s[b]) {
                    law_transpose_keeps_order(s[a], s[b], interval);
                } else {
                    assert(s[a].pitch.letter == s[b].pitch.letter);
                    assert(s[a] == s[b]);
                }
            }
        }
        NoteChord { notes, pitch_chord: self.pitch_chord.transpose(interval) }
    }

    /// The chord with only the first note of each pitch; the chord of pitches stays.
    pub fn dedup_by_pitch(&self) -> (r: NoteChord)
        ensures
            r.notes_spec() == first_pitches(self.notes_spec()),
            r.chord_spec().root_spec() == self.chord_spec().root_spec(),
            r.chord_spec().shape_spec() == self.chord_spec().shape_spec(),
            r.chord_spec().bass_spec() == self.chord_spec().bass_spec(),
    {
        proof { use_type_invariant(self); }
        let notes = dedup_by_pitch(self.notes.as_slice());
        proof {
            lemma_first_pitches_has(self.notes@, self.notes@[0].pitch);
            lemma_first_pitches_sorted(self.notes@);
        }
        NoteChord { notes, pitch_chord: self.pitch_chord.clone() }
    }
}

} // verus!
