//! Walking through notes a semitone at a time, spelled with sharps.

use vstd::prelude::*;
use crate::note::Note;
use crate::pitch::{sharp_spelling, Pitch, PitchClass};

verus! {

/// The lowest number of semitones above C0 that a note can have (C in the lowest octave).
pub open spec fn min_repr() -> int {
    12 * i16::MIN
}

/// The highest number of semitones above C0 that a note can have (B in the highest octave).
pub open spec fn max_repr() -> int {
    12 * i16::MAX + 11
}

/// Whether `r` semitones above C0 is the height of a note.
pub open spec fn repr_ok(r: int) -> bool {
    min_repr() <= r <= max_repr()
}

/// The note spelled with sharps that lies `r` semitones above C0.
pub open spec fn note_of_repr(r: int) -> Note {
    Note { octave: (r / 12) as i16, pitch: sharp_spelling(r % 12) }
}

/// Semitones above C0 of the pitch class of a note in its octave.
pub open spec fn repr_of_note(n: Note) -> int {
    12 * n.octave + n.pitch.pc()
}

/// Moves `r` by `k` semitones: down when `reverse`, up otherwise.
pub open spec fn step_repr(r: int, reverse: bool, k: int) -> int {
    if reverse { r - k } else { r + k }
}

/// An endless walk through notes, a semitone at a time, upwards or (when reversed)
/// downwards. The walk only reads notes whose octave fits an `i16`.
#[derive(Copy, Clone, Eq, PartialEq, Debug, Hash)]
pub struct NoteGenerator {
    current: i32,
    reverse: bool,
}

/// A walk through a given number of notes.
#[derive(Eq, PartialEq, Debug, Hash)]
pub struct NoteRange {
    generator: NoteGenerator,
    remaining: usize,
}

impl NoteGenerator {
    /// Semitones above C0 of the next note.
    pub closed spec fn cur(self) -> int {
        self.current as int
    }

    /// Whether the walk goes downwards.
    pub closed spec fn rev(self) -> bool {
        self.reverse
    }

    /// The walk from `current` upwards.
    pub fn new(current: Note) -> (r: NoteGenerator)
        ensures
            r.cur() == repr_of_note(current),
            !r.rev(),
    {
        NoteGenerator { current: note_to_repr(current), reverse: false }
    }

    /// The same walk in the other direction.
    pub fn reverse(self) -> (r: NoteGenerator)
        ensures
            r.cur() == self.cur(),
            r.rev() == !self.rev(),
    {
        NoteGenerator { current: self.current, reverse: !self.reverse }
    }

    /// The walk from `current` downwards.
    pub fn reversed(current: Note) -> (r: NoteGenerator)
        ensures
            r.cur() == repr_of_note(current),
            r.rev(),
    {
        NoteGenerator::new(current).reverse()
    }

    /// The walk from `start` to `end`, `end` excluded.
    pub fn range(start: Note, end: Note) -> (r: NoteRange)
        ensures
            r.generator().cur() == repr_of_note(start),
            r.generator().rev() == (repr_of_note(start) > repr_of_note(end)),
            r.count() == crate::interval::abs(repr_of_note(end) - repr_of_note(start)),
    {
        let s = note_to_repr(start);
        let e = note_to_repr(end);
        proof { lemma_repr_of_note(start); lemma_repr_of_note(end); }
        if s <= e {
            NoteRange { generator: NoteGenerator::new(start), remaining: (e - s) as usize }
        } else {
            NoteRange { generator: NoteGenerator::reversed(start), remaining: (s - e) as usize }
        }
    }

    /// The walk from `start` to `end`, both included.
    pub fn range_inclusive(start: Note, end: Note) -> (r: NoteRange)
        ensures
            r.generator().cur() == repr_of_note(start),
            r.generator().rev() == (repr_of_note(start) > repr_of_note(end)),
            r.count() == crate::interval::abs(repr_of_note(end) - repr_of_note(start)) + 1,
    {
        let s = note_to_repr(start);
        let e = note_to_repr(end);
        proof { lemma_repr_of_note(start); lemma_repr_of_note(end); }
        if s <= e {
            NoteRange { generator: NoteGenerator::new(start), remaining: (e - s + 1) as usize }
        } else {
            NoteRange { generator: NoteGenerator::reversed(start), remaining: (s - e + 1) as usize }
        }
    }

    /// The lowest note: C in the lowest octave.
    fn min_note() -> (r: Note)
        ensures
            repr_of_note(r) == min_repr(),
    {
        Note { octave: i16::MIN, pitch: Pitch::C() }
    }

    /// The highest note: B in the highest octave.
    fn max_note() -> (r: Note)
        ensures
            repr_of_note(r) == max_repr(),
    {
        Note { octave: i16::MAX, pitch: Pitch::B() }
    }

    /// The rest of this walk, up to the highest note (or down to the lowest).
    pub fn take_until_overflow(self) -> (r: NoteRange)
        requires
            repr_ok(self.cur()),
        ensures
            r.generator().cur() == self.cur(),
            r.generator().rev() == self.rev() || r.count() == 1,
            r.count() == (if self.rev() { self.cur() - min_repr() } else { max_repr() - self.cur() }) + 1,
    {
        let current = self.peek();
        proof { lemma_note_of_repr(self.cur()); }
        if !self.reverse {
            NoteGenerator::range_inclusive(current, NoteGenerator::max_note())
        } else {
            NoteGenerator::range_inclusive(current, NoteGenerator::min_note())
        }
    }

    /// Every note, from the lowest up (or from the highest down).
    pub fn full_note_range(reverse: bool) -> (r: NoteRange)
        ensures
            r.generator().cur() == (if reverse { max_repr() } else { min_repr() }),
            r.generator().rev() == reverse,
            r.count() == max_repr() - min_repr() + 1,
    {
        if !reverse {
            NoteGenerator::range_inclusive(NoteGenerator::min_note(), NoteGenerator::max_note())
        } else {
            NoteGenerator::range_inclusive(NoteGenerator::max_note(), NoteGenerator::min_note())
        }
    }

    /// The next note of the walk, without moving.
    pub fn peek(&self) -> (r: Note)
        requires
            repr_ok(self.cur()),
        ensures
            r == note_of_repr(self.cur()),
    {
        repr_to_note(self.current)
    }

    /// The next note of the walk; the walk moves one semitone on.
    pub fn next(&mut self) -> (r: Option<Note>)
        requires
            repr_ok(old(self).cur()),
        ensures
            r == Some(note_of_repr(old(self).cur())),
            final(self).cur() == step_repr(old(self).cur(), old(self).rev(), 1),
            final(self).rev() == old(self).rev(),
    {
        let note = repr_to_note(self.current);
        if self.reverse {
            self.current = self.current - 1;
        } else {
            self.current = self.current + 1;
        }
        Some(note)
    }

    /// Skips `n` notes (at most `i32::MAX`, saturating at the bounds of `i32`),
    /// then takes the next one.
    pub fn nth(&mut self, n: usize) -> (r: Option<Note>)
        requires
            repr_ok(skipped(old(self).cur(), old(self).rev(), n as int)),
        ensures
            r == Some(note_of_repr(skipped(old(self).cur(), old(self).rev(), n as int))),
            final(self).cur() == step_repr(skipped(old(self).cur(), old(self).rev(), n as int), old(self).rev(), 1),
            final(self).rev() == old(self).rev(),
    {
        let offset: i32 = if n > 0x7fff_ffff { 0x7fff_ffff } else { n as i32 };
        let t: i64 = if self.reverse {
            self.current as i64 - offset as i64
        } else {
            self.current as i64 + offset as i64
        };
        self.current = if t > 0x7fff_ffff {
            0x7fff_ffff
        } else if t < -0x8000_0000 {
            -0x8000_0000
        } else {
            t as i32
        };
        self.next()
    }
}

/// Where the walk stands after skipping `n` notes from `r`: at most `i32::MAX`
/// notes are skipped, and the position saturates at the bounds of `i32`.
pub open spec fn skipped(r: int, reverse: bool, n: int) -> int {
    let k = if n > i32::MAX { i32::MAX as int } else { n };
    let t = step_repr(r, reverse, k);
    if t > i32::MAX { i32::MAX as int } else if t < i32::MIN { i32::MIN as int } else { t }
}

impl NoteRange {
    /// The walk that yields the notes.
    pub closed spec fn generator(self) -> NoteGenerator {
        self.generator
    }

    /// How many notes are left.
    pub closed spec fn count(self) -> int {
        self.remaining as int
    }

    /// Every note left lies within the range of notes.
    #[verifier::type_invariant]
    pub open spec fn in_range(self) -> bool {
        self.count() > 0 ==> {
            &&& repr_ok(self.generator().cur())
            &&& repr_ok(step_repr(self.generator().cur(), self.generator().rev(), self.count() - 1))
        }
    }

    /// The next note, or `None` when all have been taken.
    pub fn next(&mut self) -> (r: Option<Note>)
        ensures
            old(self).count() == 0 ==> r is None && *final(self) == *old(self),
            old(self).count() > 0 ==> {
                &&& r == Some(note_of_repr(old(self).generator().cur()))
                &&& final(self).count() == old(self).count() - 1
                &&& final(self).generator().cur() == step_repr(old(self).generator().cur(), old(self).generator().rev(), 1)
                &&& final(self).generator().rev() == old(self).generator().rev()
            },
    {
        proof { use_type_invariant(&*self); }
        if self.remaining == 0 {
            return None;
        }
        let mut g = self.generator;
        let note = g.next();
        let rest = self.remaining - 1;
        *self = NoteRange { generator: g, remaining: rest };
        note
    }

    /// How many notes are left.
    pub fn len(&self) -> (r: usize)
        ensures
            r == self.count(),
    {
        self.remaining
    }

    /// The notes left, in order.
    pub fn to_vec(self) -> (r: Vec<Note>)
        ensures
            r@ == Seq::new(self.count() as nat, |k: int| note_of_repr(step_repr(self.generator().cur(), self.generator().rev(), k))),
    {
        let mut rest = self;
        let mut v: Vec<Note> = Vec::new();
        let ghost start = self.generator().cur();
        let ghost rev = self.generator().rev();
        let ghost total = self.count();
        while rest.len() > 0
            invariant
                rest.generator().cur() == step_repr(start, rev, v@.len() as int),
                rest.generator().rev() == rev,
                rest.count() == total - v@.len(),
                v@ == Seq::new(v@.len(), |k: int| note_of_repr(step_repr(start, rev, k))),
            decreases rest.count(),
        {
            let n = rest.next();
            match n {
                Some(x) => {
                    v.push(x);
                },
                None => {},
            }
            assert(v@ =~= Seq::new(v@.len(), |k: int| note_of_repr(step_repr(start, rev, k))));
        }
        v
    }
}

/// Semitones above C0 of the pitch class of a note in its octave.
fn note_to_repr(note: Note) -> (r: i32)
    ensures
        r == repr_of_note(note),
{
    proof { lemma_repr_of_note(note); }
    (note.octave as i32) * 12 + note.pitch.as_pitch_class().chroma() as i32
}

/// The note spelled with sharps `repr` semitones above C0.
fn repr_to_note(repr: i32) -> (r: Note)
    requires
        repr_ok(repr as int),
    ensures
        r == note_of_repr(repr as int),
{
    let c = crate::arith::rem_euclid_12(repr as i64);
    let pc = match PitchClass::from_chroma(c as u8) {
        Some(pc) => pc,
        None => PitchClass::C,
    };
    let oct = crate::arith::div_euclid_12(repr as i64);
    Note { octave: oct as i16, pitch: Pitch::from_pitch_class(pc) }
}

/// Every note lies within the range of notes.
proof fn lemma_repr_of_note(n: Note)
    ensures
        repr_ok(repr_of_note(n)),
{
}

/// The note `r` semitones above C0 lies `r` semitones above C0.
proof fn lemma_note_of_repr(r: int)
    requires
        repr_ok(r),
    ensures
        repr_of_note(note_of_repr(r)) == r,
{
    crate::pitch::lemma_spellings(r % 12);
}

/// The notes collected from [`NoteGenerator::range`] from `start` to `end` (what
/// [`NoteRange::to_vec`] gives of it, by the two functions' contracts).
pub open spec fn range_notes(start: Note, end: Note) -> Seq<Note> {
    let s = repr_of_note(start);
    let e = repr_of_note(end);
    Seq::new(crate::interval::abs(e - s) as nat, |k: int| note_of_repr(step_repr(s, s > e, k)))
}

/// The notes collected from a range: as many as the semitones between the two
/// notes; the first one at the height of the start note; each next one a semitone
/// further towards the end note.
pub proof fn law_range_notes(start: Note, end: Note)
    ensures
        range_notes(start, end).len() == crate::interval::abs(repr_of_note(end) - repr_of_note(start)),
        range_notes(start, end).len() > 0 ==> repr_of_note(range_notes(start, end)[0]) == repr_of_note(start),
        forall|k: int| 0 <= k < range_notes(start, end).len() - 1 ==>
            repr_of_note(#[trigger] range_notes(start, end)[k + 1]) == repr_of_note(range_notes(start, end)[k])
                + if repr_of_note(start) > repr_of_note(end) { -1int } else { 1int },
{
    let s = repr_of_note(start);
    let e = repr_of_note(end);
    lemma_repr_of_note(start);
    lemma_repr_of_note(end);
    let ns = range_notes(start, end);
    if ns.len() > 0 {
        lemma_note_of_repr(s);
    }
    assert forall|k: int| 0 <= k < ns.len() - 1 implies
        repr_of_note(#[trigger] ns[k + 1]) == repr_of_note(ns[k]) + if s > e { -1int } else { 1int } by {
        lemma_note_of_repr(step_repr(s, s > e, k));
        lemma_note_of_repr(step_repr(s, s > e, k + 1));
    }
}

} // verus!
