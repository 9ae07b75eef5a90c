//! Clefs: which letter and octave each line and space of a five-line staff names.

use vstd::prelude::*;
use crate::notation::{GetStemDirectionParams, StemDirection};
use crate::octave_letter::{letter_at, OctaveLetter};
use crate::pitch::Letter;

verus! {

/// A line or a space of a staff, counted from the bottom: line 1 is the bottom
/// line, space 1 the space above it. Positions beyond the staff are ledger lines.
#[derive(Copy, Clone, Eq, PartialEq, Debug, Hash, Structural)]
pub enum StaffPosition {
    Line(i8),
    Space(i8),
}

impl StaffPosition {
    /// The bottom line of the staff.
    #[allow(non_snake_case)]
    pub fn BOTTOM_LINE() -> (r: StaffPosition)
        ensures
            r == StaffPosition::Line(1),
    {
        StaffPosition::Line(1)
    }

    /// The top line of the staff.
    #[allow(non_snake_case)]
    pub fn TOP_LINE() -> (r: StaffPosition)
        ensures
            r == StaffPosition::Line(5),
    {
        StaffPosition::Line(5)
    }
}

/// A G, C or F clef: the octave letter that sits on one of the five staff lines.
#[derive(Copy, Clone, Eq, PartialEq, Debug, Hash, Structural)]
pub struct PitchClef {
    anchor: OctaveLetter,
    staff_line: u8,
}

/// The percussion clef.
#[derive(Copy, Clone, Eq, PartialEq, Debug, Hash, Structural)]
pub struct PercussionClef;

/// The tablature clef.
#[derive(Copy, Clone, Eq, PartialEq, Debug, Hash, Structural)]
pub struct TablatureClef;

/// The octave letter that clef `c` puts at position `p`.
pub open spec fn note_at_position(c: PitchClef, p: StaffPosition) -> OctaveLetter {
    match p {
        StaffPosition::Line(l) => letter_at(c.anchor_spec().pos() + 2 * (l - c.line())),
        StaffPosition::Space(s) => letter_at(c.anchor_spec().pos() + 2 * (s - c.line()) + 1),
    }
}

/// Whether the octave letter at position `p` of clef `c` has an octave that fits an `i16`.
pub open spec fn position_fits(c: PitchClef, p: StaffPosition) -> bool {
    match p {
        StaffPosition::Line(l) => i16::MIN <= (c.anchor_spec().pos() + 2 * (l - c.line())) / 7 <= i16::MAX,
        StaffPosition::Space(s) => {
            &&& i16::MIN <= (c.anchor_spec().pos() + 2 * (s - c.line())) / 7 <= i16::MAX
            &&& i16::MIN <= (c.anchor_spec().pos() + 2 * (s - c.line()) + 1) / 7 <= i16::MAX
        },
    }
}

/// The position of `note` on clef `c`: lines for even distances from the clef's
/// line, spaces for odd ones. The distance in lines is taken as an `i8`.
pub open spec fn position_of(c: PitchClef, note: OctaveLetter) -> StaffPosition {
    let diff = note.pos() - c.anchor_spec().pos();
    let val = (c.line() + ((diff / 2) as i8)) as i8;
    if diff % 2 == 0 {
        StaffPosition::Line(val)
    } else {
        StaffPosition::Space(val)
    }
}

/// The sum of the letter steps from `mid` to each of `s`.
pub open spec fn offsets_sum(mid: int, s: Seq<OctaveLetter>) -> int
    decreases s.len(),
{
    if s.len() == 0 {
        0
    } else {
        offsets_sum(mid, s.drop_last()) + (s.last().pos() - mid)
    }
}

/// The lowest position among `s`.
pub open spec fn pos_min(s: Seq<OctaveLetter>) -> int
    decreases s.len(),
{
    if s.len() <= 1 {
        s[0].pos()
    } else if s.last().pos() < pos_min(s.drop_last()) {
        s.last().pos()
    } else {
        pos_min(s.drop_last())
    }
}

/// The highest position among `s`.
pub open spec fn pos_max(s: Seq<OctaveLetter>) -> int
    decreases s.len(),
{
    if s.len() <= 1 {
        s[0].pos()
    } else if s.last().pos() > pos_max(s.drop_last()) {
        s.last().pos()
    } else {
        pos_max(s.drop_last())
    }
}

/// The stem direction of `notes` on clef `c`: down when the deciding notes lie on
/// or above the middle line on balance, up otherwise; none for no notes.
pub open spec fn stem_spec(c: PitchClef, notes: Seq<OctaveLetter>, params: GetStemDirectionParams) -> Option<StemDirection> {
    let mid = c.anchor_spec().pos() + 2 * (3 - c.line());
    if notes.len() == 0 {
        None
    } else if notes.len() == 1 {
        if notes[0].pos() >= mid { Some(StemDirection::Down) } else { Some(StemDirection::Up) }
    } else {
        let sum = match params {
            GetStemDirectionParams::EndsOnly => (notes[0].pos() - mid) + (notes.last().pos() - mid),
            GetStemDirectionParams::ExtremesOnly => (pos_min(notes) - mid) + (pos_max(notes) - mid),
            GetStemDirectionParams::AllNotes => offsets_sum(mid, notes),
        };
        if sum >= 0 { Some(StemDirection::Down) } else { Some(StemDirection::Up) }
    }
}

impl PitchClef {
    /// The octave letter on the clef's line.
    pub closed spec fn anchor_spec(self) -> OctaveLetter {
        self.anchor
    }

    /// The staff line the clef sits on, from 1 (bottom) to 5 (top).
    pub closed spec fn line(self) -> int {
        self.staff_line as int
    }

    /// A clef names a C, F or G on one of the five lines.
    #[verifier::type_invariant]
    pub open spec fn well_formed(self) -> bool {
        &&& 1 <= self.line() <= 5
        &&& (self.anchor_spec().letter == Letter::C || self.anchor_spec().letter == Letter::F
            || self.anchor_spec().letter == Letter::G)
    }

    /// The clef with `anchor` on line `staff_line`, or `None` unless the anchor is a
    /// C, F or G and the line is between 1 and 5.
    pub fn new(anchor: OctaveLetter, staff_line: u8) -> (r: Option<PitchClef>)
        ensures
            r is Some <==> (1 <= staff_line <= 5 && (anchor.letter == Letter::C
                || anchor.letter == Letter::F || anchor.letter == Letter::G)),
            r matches Some(c) ==> c.anchor_spec() == anchor && c.line() == staff_line,
    {
        let letter_ok = match anchor.letter {
            Letter::C | Letter::F | Letter::G => true,
            _ => false,
        };
        if letter_ok && 1 <= staff_line && staff_line <= 5 {
            Some(PitchClef { anchor, staff_line })
        } else {
            None
        }
    }

    /// The clef with `letter` in `octave` on line `line`.
    fn fixed(letter: Letter, octave: i16, line: u8) -> (r: PitchClef)
        requires
            1 <= line <= 5,
            letter == Letter::C || letter == Letter::F || letter == Letter::G,
        ensures
            r.anchor_spec() == (OctaveLetter { octave, letter }),
            r.line() == line,
    {
        PitchClef { anchor: OctaveLetter { octave, letter }, staff_line: line }
    }

    /// The treble clef: G4 on the second line.
    #[allow(non_snake_case)]
    pub fn TREBLE() -> (r: PitchClef)
        ensures
            r.anchor_spec() == (OctaveLetter { octave: 4, letter: Letter::G }),
            r.line() == 2,
    {
        PitchClef::fixed(Letter::G, 4, 2)
    }

    /// The treble clef an octave up: G5 on the second line.
    #[allow(non_snake_case)]
    pub fn TREBLE_8VA() -> (r: PitchClef)
        ensures
            r.anchor_spec() == (OctaveLetter { octave: 5, letter: Letter::G }),
            r.line() == 2,
    {
        PitchClef::fixed(Letter::G, 5, 2)
    }

    /// The treble clef an octave down: G3 on the second line.
    #[allow(non_snake_case)]
    pub fn TREBLE_8VB() -> (r: PitchClef)
        ensures
            r.anchor_spec() == (OctaveLetter { octave: 3, letter: Letter::G }),
            r.line() == 2,
    {
        PitchClef::fixed(Letter::G, 3, 2)
    }

    /// The French violin clef: G4 on the bottom line.
    #[allow(non_snake_case)]
    pub fn FRENCH_VIOLIN() -> (r: PitchClef)
        ensures
            r.anchor_spec() == (OctaveLetter { octave: 4, letter: Letter::G }),
            r.line() == 1,
    {
        PitchClef::fixed(Letter::G, 4, 1)
    }

    /// The bass clef: F3 on the fourth line.
    #[allow(non_snake_case)]
    pub fn BASS() -> (r: PitchClef)
        ensures
            r.anchor_spec() == (OctaveLetter { octave: 3, letter: Letter::F }),
            r.line() == 4,
    {
        PitchClef::fixed(Letter::F, 3, 4)
    }

    /// The bass clef an octave up: F4 on the fourth line.
    #[allow(non_snake_case)]
    pub fn BASS_8VA() -> (r: PitchClef)
        ensures
            r.anchor_spec() == (OctaveLetter { octave: 4, letter: Letter::F }),
            r.line() == 4,
    {
        PitchClef::fixed(Letter::F, 4, 4)
    }

    /// The bass clef an octave down: F2 on the fourth line.
    #[allow(non_snake_case)]
    pub fn BASS_8VB() -> (r: PitchClef)
        ensures
            r.anchor_spec() == (OctaveLetter { octave: 2, letter: Letter::F }),
            r.line() == 4,
    {
        PitchClef::fixed(Letter::F, 2, 4)
    }

    /// The sub-bass clef: F3 on the top line.
    #[allow(non_snake_case)]
    pub fn SUB_BASS() -> (r: PitchClef)
        ensures
            r.anchor_spec() == (OctaveLetter { octave: 3, letter: Letter::F }),
            r.line() == 5,
    {
        PitchClef::fixed(Letter::F, 3, 5)
    }

    /// The F baritone clef: F3 on the middle line.
    #[allow(non_snake_case)]
    pub fn F_BARITONE() -> (r: PitchClef)
        ensures
            r.anchor_spec() == (OctaveLetter { octave: 3, letter: Letter::F }),
            r.line() == 3,
    {
        PitchClef::fixed(Letter::F, 3, 3)
    }

    /// The soprano clef: C4 on the bottom line.
    #[allow(non_snake_case)]
    pub fn SOPRANO() -> (r: PitchClef)
        ensures
            r.anchor_spec() == (OctaveLetter { octave: 4, letter: Letter::C }),
            r.line() == 1,
    {
        PitchClef::fixed(Letter::C, 4, 1)
    }

    /// The mezzo-soprano clef: C4 on the second line.
    #[allow(non_snake_case)]
    pub fn MEZZO_SOPRANO() -> (r: PitchClef)
        ensures
            r.anchor_spec() == (OctaveLetter { octave: 4, letter: Letter::C }),
            r.line() == 2,
    {
        PitchClef::fixed(Letter::C, 4, 2)
    }

    /// The alto clef: C4 on the middle line.
    #[allow(non_snake_case)]
    pub fn ALTO() -> (r: PitchClef)
        ensures
            r.anchor_spec() == (OctaveLetter { octave: 4, letter: Letter::C }),
            r.line() == 3,
    {
        PitchClef::fixed(Letter::C, 4, 3)
    }

    /// The tenor clef: C4 on the fourth line.
    #[allow(non_snake_case)]
    pub fn TENOR() -> (r: PitchClef)
        ensures
            r.anchor_spec() == (OctaveLetter { octave: 4, letter: Letter::C }),
            r.line() == 4,
    {
        PitchClef::fixed(Letter::C, 4, 4)
    }

    /// The C baritone clef: C4 on the top line.
    #[allow(non_snake_case)]
    pub fn C_BARITONE() -> (r: PitchClef)
        ensures
            r.anchor_spec() == (OctaveLetter { octave: 4, letter: Letter::C }),
            r.line() == 5,
    {
        PitchClef::fixed(Letter::C, 4, 5)
    }

    /// The octave letter on the clef's line.
    pub fn anchor(self) -> (r: OctaveLetter)
        ensures
            r == self.anchor_spec(),
    {
        self.anchor
    }

    /// The octave letter at `position`.
    pub fn get_note(self, position: StaffPosition) -> (r: OctaveLetter)
        requires
            position_fits(self, position),
        ensures
            r == note_at_position(self, position),
    {
        proof { use_type_invariant(&self); }
        match position {
            StaffPosition::Line(line) => {
                let line_offset = line as i16 - self.staff_line as i16;
                self.anchor.with_offset(line_offset * 2)
            },
            StaffPosition::Space(space) => {
                let line_offset = space as i16 - self.staff_line as i16;
                self.anchor.with_offset(line_offset * 2).with_offset(1)
            },
        }
    }

    /// The lowest and highest octave letters on the staff lines: the bottom line
    /// and the top line.
    pub fn range(self) -> (r: (OctaveLetter, OctaveLetter))
        requires
            position_fits(self, StaffPosition::Line(1)),
            position_fits(self, StaffPosition::Line(5)),
        ensures
            r.0 == note_at_position(self, StaffPosition::Line(1)),
            r.1 == note_at_position(self, StaffPosition::Line(5)),
    {
        (self.get_note(StaffPosition::BOTTOM_LINE()), self.get_note(StaffPosition::TOP_LINE()))
    }

    /// Whether `note` lies between the bottom line and the top line.
    pub fn contains(self, note: OctaveLetter) -> (r: bool)
        requires
            position_fits(self, StaffPosition::Line(1)),
            position_fits(self, StaffPosition::Line(5)),
        ensures
            r == (self.anchor_spec().pos() + 2 * (1 - self.line()) <= note.pos()
                <= self.anchor_spec().pos() + 2 * (5 - self.line())),
    {
        let (lo, hi) = self.range();
        let p = note.pos_i64();
        lo.pos_i64() <= p && p <= hi.pos_i64()
    }

    /// The staff position of `note`.
    pub fn get_position(self, note: OctaveLetter) -> (r: StaffPosition)
        requires
            i16::MIN <= note.pos() - self.anchor_spec().pos() <= i16::MAX,
            i8::MIN <= self.line() + (((note.pos() - self.anchor_spec().pos()) / 2) as i8) <= i8::MAX,
        ensures
            r == position_of(self, note),
    {
        proof { use_type_invariant(&self); }
        let diff = self.anchor.offset_to(note);
        let half = crate::arith::div_euclid_2(diff as i64);
        let half8: i8 = #[verifier::truncate] (half as i8);
        let val = self.staff_line as i8 + half8;
        if diff % 2 == 0 {
            StaffPosition::Line(val)
        } else {
            StaffPosition::Space(val)
        }
    }

    /// The stem direction for `notes`, decided by the notes that `params` picks.
    pub fn stem_direction(self, notes: &[OctaveLetter], params: GetStemDirectionParams) -> (r: Option<StemDirection>)
        ensures
            r == stem_spec(self, notes@, params),
    {
        proof { use_type_invariant(&self); }
        let mid: i64 = self.anchor.pos_i64() + 2 * (3 - self.staff_line as i64);
        let n = notes.len();
        if n == 0 {
            return None;
        }
        if n == 1 {
            return if notes[0].pos_i64() >= mid { Some(StemDirection::Down) } else { Some(StemDirection::Up) };
        }
        let sum: i128 = match params {
            GetStemDirectionParams::EndsOnly => {
                (notes[0].pos_i64() - mid) as i128 + (notes[n - 1].pos_i64() - mid) as i128
            },
            GetStemDirectionParams::ExtremesOnly => {
                let (lo, hi) = extremes(notes);
                (lo - mid) as i128 + (hi - mid) as i128
            },
            GetStemDirectionParams::AllNotes => all_offsets(notes, mid),
        };
        if sum >= 0 { Some(StemDirection::Down) } else { Some(StemDirection::Up) }
    }
}

impl OctaveLetter {
    /// Position counted in letter steps from C in octave 0, computed without overflow.
    pub fn pos_i64(self) -> (r: i64)
        ensures
            r == self.pos(),
            -300_000 <= r <= 300_000,
    {
        7 * (self.octave as i64) + self.letter.step() as i64
    }
}

/// The lowest and highest positions among `notes`.
fn extremes(notes: &[OctaveLetter]) -> (r: (i64, i64))
    requires
        notes@.len() >= 1,
    ensures
        r.0 == pos_min(notes@),
        r.1 == pos_max(notes@),
        -300_000 <= r.0 <= 300_000,
        -300_000 <= r.1 <= 300_000,
{
    let mut lo = notes[0].pos_i64();
    let mut hi = lo;
    let mut i: usize = 1;
    assert(notes@.take(1).len() == 1);
    while i < notes.len()
        invariant
            1 <= i <= notes@.len(),
            lo == pos_min(notes@.take(i as int)),
            hi == pos_max(notes@.take(i as int)),
            -300_000 <= lo <= 300_000,
            -300_000 <= hi <= 300_000,
        decreases notes@.len() - i,
    {
        let p = notes[i].pos_i64();
        assert(notes@.take(i + 1).drop_last() =~= notes@.take(i as int));
        if p < lo {
            lo = p;
        }
        if p > hi {
            hi = p;
        }
        i = i + 1;
    }
    assert(notes@.take(notes@.len() as int) =~= notes@);
    (lo, hi)
}

/// The sum of the letter steps from `mid` to each of `notes`.
fn all_offsets(notes: &[OctaveLetter], mid: i64) -> (r: i128)
    requires
        -500_000 <= mid <= 500_000,
    ensures
        r == offsets_sum(mid as int, notes@),
{
    let mut acc: i128 = 0;
    let mut i: usize = 0;
    while i < notes.len()
        invariant
            i <= notes@.len(),
            -500_000 <= mid <= 500_000,
            acc == offsets_sum(mid as int, notes@.take(i as int)),
            -1_000_000 * i <= acc <= 1_000_000 * i,
        decreases notes@.len() - i,
    {
        assert(notes@.take(i + 1).drop_last() =~= notes@.take(i as int));
        acc = acc + (notes[i].pos_i64() - mid) as i128;
        i = i + 1;
    }
    assert(notes@.take(notes@.len() as int) =~= notes@);
    acc
}

/// A single note gets its stem down when it sits on or above the clef's middle
/// (third) line, and up when it sits below it, whichever notes the parameters pick.
pub proof fn law_single_note_stem(c: PitchClef, note: OctaveLetter, params: GetStemDirectionParams)
    requires
        position_fits(c, StaffPosition::Line(3)),
    ensures
        stem_spec(c, seq![note], params) == Some(StemDirection::Down)
            <==> note.pos() >= note_at_position(c, StaffPosition::Line(3)).pos(),
        stem_spec(c, seq![note], params) == Some(StemDirection::Up)
            <==> note.pos() < note_at_position(c, StaffPosition::Line(3)).pos(),
{
    crate::octave_letter::lemma_letter_at(c.anchor_spec().pos() + 2 * (3 - c.line()));
}

/// Notes that all sit on or above the clef's middle (third) line get their stems
/// down, and notes that all sit below it get their stems up, whichever notes the
/// parameters pick.
pub proof fn law_stem_all_one_side(c: PitchClef, notes: Seq<OctaveLetter>, params: GetStemDirectionParams)
    requires
        position_fits(c, StaffPosition::Line(3)),
        notes.len() > 0,
    ensures
        (forall|i: int| 0 <= i < notes.len()
            ==> (#[trigger] notes[i]).pos() >= note_at_position(c, StaffPosition::Line(3)).pos())
            ==> stem_spec(c, notes, params) == Some(StemDirection::Down),
        (forall|i: int| 0 <= i < notes.len()
            ==> (#[trigger] notes[i]).pos() < note_at_position(c, StaffPosition::Line(3)).pos())
            ==> stem_spec(c, notes, params) == Some(StemDirection::Up),
{
    let mid = c.anchor_spec().pos() + 2 * (3 - c.line());
    crate::octave_letter::lemma_letter_at(mid);
    lemma_sides(mid, notes);
    assert(notes.last() == notes[notes.len() - 1]);
}

/// Positions all on or above `mid` (all below it) have a lowest and highest one on
/// or above it (below it), and offsets from it that sum to at least zero (less
/// than zero).
proof fn lemma_sides(mid: int, s: Seq<OctaveLetter>)
    requires
        s.len() > 0,
    ensures
        (forall|i: int| 0 <= i < s.len() ==> (#[trigger] s[i]).pos() >= mid)
            ==> pos_min(s) >= mid && pos_max(s) >= mid && offsets_sum(mid, s) >= 0,
        (forall|i: int| 0 <= i < s.len() ==> (#[trigger] s[i]).pos() < mid)
            ==> pos_min(s) < mid && pos_max(s) < mid && offsets_sum(mid, s) < 0,
    decreases s.len(),
{
    let e = s.drop_last();
    assert(s.last() == s[s.len() - 1]);
    if s.len() == 1 {
        assert(e.len() == 0);
        assert(offsets_sum(mid, e) == 0);
    } else {
        lemma_sides(mid, e);
        assert forall|i: int| 0 <= i < e.len() implies #[trigger] e[i] == s[i] by {}
    }
}

/// With the ends only, the stem goes as it would for the first and the last note
/// taken together with all notes counted.
pub proof fn law_stem_ends_only(c: PitchClef, notes: Seq<OctaveLetter>)
    requires
        notes.len() >= 2,
    ensures
        stem_spec(c, notes, GetStemDirectionParams::EndsOnly)
            == stem_spec(c, seq![notes[0], notes[notes.len() - 1]], GetStemDirectionParams::AllNotes),
{
    let mid = c.anchor_spec().pos() + 2 * (3 - c.line());
    lemma_offsets_pair(mid, notes[0], notes[notes.len() - 1]);
}

/// With the extremes only, the stem goes as it would for a lowest and a highest
/// note taken together with all notes counted.
pub proof fn law_stem_extremes_only(c: PitchClef, notes: Seq<OctaveLetter>, lo: int, hi: int)
    requires
        notes.len() >= 2,
        0 <= lo < notes.len(),
        0 <= hi < notes.len(),
        forall|i: int| 0 <= i < notes.len()
            ==> notes[lo].pos() <= (#[trigger] notes[i]).pos() <= notes[hi].pos(),
    ensures
        stem_spec(c, notes, GetStemDirectionParams::ExtremesOnly)
            == stem_spec(c, seq![notes[lo], notes[hi]], GetStemDirectionParams::AllNotes),
{
    let mid = c.anchor_spec().pos() + 2 * (3 - c.line());
    lemma_pos_extremes(notes);
    let a = choose|i: int| 0 <= i < notes.len() && pos_min(notes) == (#[trigger] notes[i]).pos();
    let b = choose|i: int| 0 <= i < notes.len() && pos_max(notes) == (#[trigger] notes[i]).pos();
    assert(notes[lo].pos() <= notes[a].pos());
    assert(notes[b].pos() <= notes[hi].pos());
    lemma_offsets_pair(mid, notes[lo], notes[hi]);
}

/// The offsets of two notes from `mid` sum to those of each.
proof fn lemma_offsets_pair(mid: int, a: OctaveLetter, b: OctaveLetter)
    ensures
        offsets_sum(mid, seq![a, b]) == (a.pos() - mid) + (b.pos() - mid),
{
    let s = seq![a, b];
    assert(s.drop_last() =~= seq![a]);
    assert(seq![a].drop_last() =~= Seq::<OctaveLetter>::empty());
    assert(offsets_sum(mid, Seq::<OctaveLetter>::empty()) == 0);
    assert(offsets_sum(mid, seq![a]) == a.pos() - mid);
}

/// The lowest and highest positions of `s` are at most and at least each position,
/// and are positions of `s`.
proof fn lemma_pos_extremes(s: Seq<OctaveLetter>)
    requires
        s.len() > 0,
    ensures
        forall|i: int| 0 <= i < s.len() ==> pos_min(s) <= (#[trigger] s[i]).pos() <= pos_max(s),
        exists|i: int| 0 <= i < s.len() && pos_min(s) == (#[trigger] s[i]).pos(),
        exists|i: int| 0 <= i < s.len() && pos_max(s) == (#[trigger] s[i]).pos(),
    decreases s.len(),
{
    if s.len() == 1 {
        assert(pos_min(s) == s[0].pos());
    } else {
        let e = s.drop_last();
        lemma_pos_extremes(e);
        assert(s.last() == s[s.len() - 1]);
        assert forall|i: int| 0 <= i < e.len() implies #[trigger] e[i] == s[i] by {}
        let a = choose|i: int| 0 <= i < e.len() && pos_min(e) == (#[trigger] e[i]).pos();
        let b = choose|i: int| 0 <= i < e.len() && pos_max(e) == (#[trigger] e[i]).pos();
        assert(s[a] == e[a]);
        assert(s[b] == e[b]);
        assert forall|i: int| 0 <= i < s.len() implies pos_min(s) <= (#[trigger] s[i]).pos() <= pos_max(s) by {
            if i < e.len() {
                assert(e[i] == s[i]);
            }
        }
    }
}

/// A note written at a staff position is read back at that position.
pub proof fn law_position_of_note(c: PitchClef, p: StaffPosition)
    requires
        1 <= c.line() <= 5,
        position_fits(c, p),
        match p {
            StaffPosition::Line(v) => v - c.line() >= i8::MIN,
            StaffPosition::Space(v) => v - c.line() >= i8::MIN,
        },
    ensures
        position_of(c, note_at_position(c, p)) == p,
{
    let a = c.anchor_spec().pos();
    match p {
        StaffPosition::Line(v) => {
            let q = a + 2 * (v - c.line());
            crate::octave_letter::lemma_letter_at(q);
            let diff = 2 * (v - c.line());
            assert(diff / 2 == v - c.line());
            assert(diff % 2 == 0);
        },
        StaffPosition::Space(v) => {
            let q = a + 2 * (v - c.line()) + 1;
            crate::octave_letter::lemma_letter_at(q);
            let diff = 2 * (v - c.line()) + 1;
            assert(diff / 2 == v - c.line());
            assert(diff % 2 == 1);
        },
    }
}

} // verus!
