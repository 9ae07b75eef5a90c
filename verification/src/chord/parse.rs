//! Reading the intervals of a chord from the tokens of a chord symbol, such as
//! `min`, `maj`, `7` and `omit5` in `Cmin(maj7)omit5`.

use vstd::prelude::*;
use crate::interval::{Interval, Quality};
use crate::pitch::AccidentalSign;

verus! {

/// A token of a chord symbol.
#[derive(Copy, Clone, Eq, PartialEq, Debug, Hash, Structural)]
pub enum ChordTk {
    /// `maj`, `M`
    Maj,
    /// `min`, `-`
    Min,
    /// `dim`, `°`
    Dim,
    /// `aug`, `+`
    Aug,
    /// `sus2`
    Sus2,
    /// `sus4`, `sus`
    Sus4,
    /// `5`
    Five,
    /// `6`
    Six,
    /// `7`
    Seven,
    /// `9`
    Nine,
    /// `11`
    Eleven,
    /// `13`
    Thirteen,
    /// `add` and a degree
    Add(u8),
    /// `omit` and a degree
    Omit(i16),
    /// an altered degree, such as `#5` or `b9`
    Alt(AccidentalSign, u8),
}

/// A position in a list of tokens: the current token, how many tokens have been
/// consumed, and the tokens after the current one.
pub struct TkCursor<'a> {
    tokens: &'a [ChordTk],
    next: usize,
    consumed: usize,
    curr: Option<ChordTk>,
}

/// The token at `i`, or `None` past the end.
pub open spec fn token_at(t: Seq<ChordTk>, i: int) -> Option<ChordTk> {
    if 0 <= i < t.len() { Some(t[i]) } else { None }
}

impl<'a> TkCursor<'a> {
    /// The tokens the cursor walks through.
    pub closed spec fn tokens_spec(self) -> Seq<ChordTk> {
        self.tokens@
    }

    /// The index of the first token after the current one.
    pub closed spec fn next_spec(self) -> int {
        self.next as int
    }

    /// How many tokens have been consumed.
    pub closed spec fn consumed_spec(self) -> int {
        self.consumed as int
    }

    /// The current token.
    pub closed spec fn curr_spec(self) -> Option<ChordTk> {
        self.curr
    }

    /// The cursor at the first token.
    pub fn new(input: &'a [ChordTk]) -> (r: TkCursor<'a>)
        ensures
            r.tokens_spec() == input@,
            r.curr_spec() == token_at(input@, 0),
            r.next_spec() == if input@.len() > 0 { 1int } else { 0int },
            r.consumed_spec() == 0,
    {
        let curr = if input.len() > 0 { Some(input[0]) } else { None };
        let next: usize = if input.len() > 0 { 1 } else { 0 };
        TkCursor { tokens: input, next, consumed: 0, curr }
    }

    /// The current token.
    pub fn curr(&self) -> (r: Option<ChordTk>)
        ensures
            r == self.curr_spec(),
    {
        self.curr
    }

    /// The token `n` places after the current one.
    pub fn peek(&self, n: usize) -> (r: Option<ChordTk>)
        requires
            self.next_spec() <= self.tokens_spec().len(),
        ensures
            r == token_at(self.tokens_spec(), self.next_spec() + n),
    {
        if n < self.tokens.len() - self.next {
            Some(self.tokens[self.next + n])
        } else {
            None
        }
    }

    /// Moves `n` tokens on (at least one): the consumed count grows by `n`, or by
    /// what is left when fewer remain.
    pub fn consume(&mut self, n: usize)
        requires
            n >= 1,
            old(self).next_spec() <= old(self).tokens_spec().len(),
            old(self).consumed_spec() + n <= usize::MAX,
        ensures
            final(self).tokens_spec() == old(self).tokens_spec(),
            final(self).consumed_spec() == old(self).consumed_spec() + if n <= old(self).tokens_spec().len() - old(self).next_spec() + 1 {
                n as int
            } else {
                old(self).tokens_spec().len() - old(self).next_spec() + 1
            },
            final(self).curr_spec() == token_at(old(self).tokens_spec(), old(self).next_spec() + n - 1),
            final(self).next_spec() == if old(self).next_spec() + n <= old(self).tokens_spec().len() {
                old(self).next_spec() + n
            } else {
                old(self).tokens_spec().len() as int
            },
    {
        let left = self.tokens.len() - self.next;
        let step = if n - 1 <= left { n } else { left + 1 };
        self.consumed = self.consumed + step;
        self.curr = if n - 1 < left { Some(self.tokens[self.next + n - 1]) } else { None };
        self.next = if n <= left { self.next + n } else { self.tokens.len() };
    }

    /// How many tokens have been consumed.
    pub fn consumed(&self) -> (r: usize)
        ensures
            r == self.consumed_spec(),
    {
        self.consumed
    }
}

/// Whether `t` is a seventh, ninth, eleventh or thirteenth.
pub open spec fn is_ext(t: ChordTk) -> bool {
    t is Seven || t is Nine || t is Eleven || t is Thirteen
}

/// The intervals an extension token adds: the seventh of quality `q`, then the
/// major ninth, the perfect eleventh and the major thirteenth as far as it reaches.
pub open spec fn ext_intervals(q: Quality, t: ChordTk) -> Seq<Interval> {
    let s = Interval::mk(q, 7);
    match t {
        ChordTk::Seven => seq![s],
        ChordTk::Nine => seq![s, Interval::mk(Quality::Major, 9)],
        ChordTk::Eleven => seq![s, Interval::mk(Quality::Major, 9), Interval::mk(Quality::Perfect, 11)],
        ChordTk::Thirteen => seq![
            s,
            Interval::mk(Quality::Major, 9),
            Interval::mk(Quality::Perfect, 11),
            Interval::mk(Quality::Major, 13),
        ],
        _ => Seq::empty(),
    }
}

/// After a triad `base` read up to token `i`: a sixth or an extension (with a
/// seventh of quality `q`) may follow.
pub open spec fn with_number(base: Seq<Interval>, t: Seq<ChordTk>, i: int, q: Quality) -> (Seq<Interval>, int) {
    if i < t.len() && t[i] is Six {
        (base.push(Interval::mk(Quality::Major, 6)), i + 1)
    } else if i < t.len() && is_ext(t[i]) {
        (base + ext_intervals(q, t[i]), i + 1)
    } else {
        (base, i)
    }
}

/// After a triad `base` read up to token `i`: `maj` must be followed by an
/// extension with a major seventh; otherwise a number with a seventh of quality `q` may follow.
pub open spec fn with_maj_or_number(base: Seq<Interval>, t: Seq<ChordTk>, i: int, q: Quality) -> Option<(Seq<Interval>, int)> {
    if i < t.len() && t[i] is Maj {
        if i + 1 < t.len() && is_ext(t[i + 1]) {
            Some((base + ext_intervals(Quality::Major, t[i + 1]), i + 2))
        } else {
            None
        }
    } else {
        Some(with_number(base, t, i, q))
    }
}

/// The intervals of the leading tokens that name the chord, and how many tokens
/// they take; `None` when they name no chord.
pub open spec fn head_of(t: Seq<ChordTk>) -> Option<(Seq<Interval>, int)> {
    let p1 = Interval::mk(Quality::Perfect, 1);
    let maj3 = Interval::mk(Quality::Major, 3);
    let min3 = Interval::mk(Quality::Minor, 3);
    let p5 = Interval::mk(Quality::Perfect, 5);
    match t[0] {
        ChordTk::Min => with_maj_or_number(seq![p1, min3, p5], t, 1, Quality::Minor),
        ChordTk::Maj => Some(with_number(seq![p1, maj3, p5], t, 1, Quality::Major)),
        ChordTk::Dim => Some(with_number(seq![p1, min3, Interval::mk(Quality::Diminished(1), 5)], t, 1, Quality::Diminished(1))),
        ChordTk::Aug => with_maj_or_number(seq![p1, maj3, Interval::mk(Quality::Augmented(1), 5)], t, 1, Quality::Minor),
        ChordTk::Sus2 => Some((seq![p1, Interval::mk(Quality::Major, 2), p5], 1)),
        ChordTk::Sus4 => Some((seq![p1, Interval::mk(Quality::Perfect, 4), p5], 1)),
        ChordTk::Five => Some((seq![p1, p5], 1)),
        ChordTk::Six => Some((seq![p1, maj3, p5, Interval::mk(Quality::Major, 6)], 1)),
        _ => if is_ext(t[0]) {
            Some((seq![p1, maj3, p5] + ext_intervals(Quality::Minor, t[0]), 1))
        } else {
            None
        },
    }
}

/// The index of the first interval of `ivls` with number `n`, or its length.
pub open spec fn first_with_number(ivls: Seq<Interval>, n: int) -> int
    decreases ivls.len(),
{
    if ivls.len() == 0 {
        0
    } else if ivls[0].num() == n {
        0
    } else {
        1 + first_with_number(ivls.drop_first(), n)
    }
}

/// Whether some interval of `ivls` has number `n`.
pub open spec fn has_number(ivls: Seq<Interval>, n: int) -> bool {
    exists|k: int| 0 <= k < ivls.len() && (#[trigger] ivls[k]).num() == n
}

/// Reading the tokens from `i` on after the chord's name: each `omit` removes the
/// interval of its degree. `Some(None)` when a degree to omit is missing or another
/// token follows; `None` when an `add` or an altered degree is reached, or a degree
/// occurs twice, which this reading does not handle.
pub open spec fn apply_rest(ivls: Seq<Interval>, t: Seq<ChordTk>, i: int) -> Option<Option<Seq<Interval>>>
    decreases t.len() - i,
{
    if i >= t.len() || i < 0 {
        Some(Some(ivls))
    } else {
        match t[i] {
            ChordTk::Omit(n) => {
                let k = first_with_number(ivls, n as int);
                if k >= ivls.len() {
                    Some(None)
                } else if has_number(ivls.remove(k), n as int) {
                    None
                } else {
                    apply_rest(ivls.remove(k), t, i + 1)
                }
            },
            ChordTk::Add(_) => None,
            ChordTk::Alt(_, _) => None,
            _ => Some(None),
        }
    }
}

/// The intervals of a chord symbol's tokens: `Some(Some(..))` for a chord,
/// `Some(None)` for tokens that make no chord, and `None` for tokens this reading
/// does not handle (an `add` or an altered degree).
pub open spec fn interpret_spec(t: Seq<ChordTk>) -> Option<Option<Seq<Interval>>> {
    if t.len() == 0 {
        Some(Some(seq![
            Interval::mk(Quality::Perfect, 1),
            Interval::mk(Quality::Major, 3),
            Interval::mk(Quality::Perfect, 5),
        ]))
    } else if t[0] is Add || t[0] is Alt {
        None
    } else if t[0] is Omit {
        Some(None)
    } else {
        match head_of(t) {
            None => Some(None),
            Some((ivls, c)) => apply_rest(ivls, t, c),
        }
    }
}

/// Pushes the intervals of extension token `tk` with a seventh of quality `q`.
fn upper_chord_ext(ivls: &mut Vec<Interval>, q: Quality, tk: ChordTk)
    requires
        is_ext(tk),
        q == Quality::Minor || q == Quality::Major || q == Quality::Diminished(1),
    ensures
        final(ivls)@ == old(ivls)@ + ext_intervals(q, tk),
{
    let seventh = match Interval::new(q, crate::interval::Number::SEVENTH()) {
        Some(s) => s,
        None => Interval::MINOR_SEVENTH(),
    };
    proof { crate::interval::lemma_mk_of(seventh); }
    let ghost start = ivls@;
    match tk {
        ChordTk::Seven => {
            ivls.push(seventh);
        },
        ChordTk::Nine => {
            ivls.push(seventh);
            ivls.push(Interval::MAJOR_NINTH());
        },
        ChordTk::Eleven => {
            ivls.push(seventh);
            ivls.push(Interval::MAJOR_NINTH());
            ivls.push(Interval::PERFECT_ELEVENTH());
        },
        _ => {
            ivls.push(seventh);
            ivls.push(Interval::MAJOR_NINTH());
            ivls.push(Interval::PERFECT_ELEVENTH());
            ivls.push(Interval::MAJOR_THIRTEENTH());
        },
    }
    assert(ivls@ =~= start + ext_intervals(q, tk));
}

/// Reads an optional sixth or extension at token `i` after a triad.
fn potential_num(ivls: &mut Vec<Interval>, tokens: &[ChordTk], i: usize, q: Quality) -> (r: usize)
    requires
        i <= tokens@.len(),
        q == Quality::Minor || q == Quality::Major || q == Quality::Diminished(1),
    ensures
        (final(ivls)@, r as int) == with_number(old(ivls)@, tokens@, i as int, q),
{
    if i < tokens.len() {
        let tk = tokens[i];
        match tk {
            ChordTk::Six => {
                ivls.push(Interval::MAJOR_SIXTH());
                return i + 1;
            },
            ChordTk::Seven | ChordTk::Nine | ChordTk::Eleven | ChordTk::Thirteen => {
                upper_chord_ext(ivls, q, tk);
                return i + 1;
            },
            _ => {},
        }
    }
    i
}

/// Reads `maj` and an extension, or an optional number, at token `i` after a triad.
fn read_maj_or_number(ivls: &mut Vec<Interval>, tokens: &[ChordTk], i: usize, q: Quality) -> (r: Option<usize>)
    requires
        i <= tokens@.len(),
        q == Quality::Minor || q == Quality::Major || q == Quality::Diminished(1),
    ensures
        match with_maj_or_number(old(ivls)@, tokens@, i as int, q) {
            Some((v, c)) => r == Some(c as usize) && final(ivls)@ == v,
            None => r is None,
        },
{
    if i < tokens.len() && tokens[i] == ChordTk::Maj {
        if i + 1 < tokens.len() {
            let tk = tokens[i + 1];
            match tk {
                ChordTk::Seven | ChordTk::Nine | ChordTk::Eleven | ChordTk::Thirteen => {
                    upper_chord_ext(ivls, Quality::Major, tk);
                    return Some(i + 2);
                },
                _ => {},
            }
        }
        return None;
    }
    Some(potential_num(ivls, tokens, i, q))
}

/// The index of the first interval with number `n`, or the length.
pub(crate) fn position_of_number(ivls: &Vec<Interval>, n: i16) -> (r: usize)
    ensures
        r == first_with_number(ivls@, n as int),
        r <= ivls@.len(),
{
    let mut k: usize = 0;
    assert(ivls@.subrange(0, ivls@.len() as int) =~= ivls@);
    while k < ivls.len()
        invariant
            k <= ivls@.len(),
            first_with_number(ivls@, n as int) == k + first_with_number(ivls@.subrange(k as int, ivls@.len() as int), n as int),
        decreases ivls@.len() - k,
    {
        let ghost rest = ivls@.subrange(k as int, ivls@.len() as int);
        assert(rest.drop_first() =~= ivls@.subrange(k + 1, ivls@.len() as int));
        if ivls[k].number().get() == n {
            return k;
        }
        k = k + 1;
    }
    assert(ivls@.subrange(k as int, ivls@.len() as int).len() == 0);
    k
}

/// Whether some interval has number `n`.
pub(crate) fn contains_number(ivls: &Vec<Interval>, n: i16) -> (r: bool)
    ensures
        r == has_number(ivls@, n as int),
{
    let mut k: usize = 0;
    while k < ivls.len()
        invariant
            k <= ivls@.len(),
            forall|j: int| 0 <= j < k ==> (#[trigger] ivls@[j]).num() != n,
        decreases ivls@.len() - k,
    {
        if ivls[k].number().get() == n {
            return true;
        }
        k = k + 1;
    }
    false
}

/// The intervals of a chord symbol's tokens, or `None` when they make no chord.
pub fn interpret(tokens: &[ChordTk]) -> (r: Option<Vec<Interval>>)
    requires
        interpret_spec(tokens@) is Some,
    ensures
        match interpret_spec(tokens@) {
            Some(Some(v)) => r matches Some(x) && x@ == v,
            _ => r is None,
        },
{
    if tokens.len() == 0 {
        let mut v: Vec<Interval> = Vec::new();
        v.push(Interval::PERFECT_UNISON());
        v.push(Interval::MAJOR_THIRD());
        v.push(Interval::PERFECT_FIFTH());
        return Some(v);
    }
    let mut ivls: Vec<Interval> = Vec::new();
    let first = tokens[0];
    let consumed: usize = match first {
        ChordTk::Min => {
            ivls.push(Interval::PERFECT_UNISON());
            ivls.push(Interval::MINOR_THIRD());
            ivls.push(Interval::PERFECT_FIFTH());
            match read_maj_or_number(&mut ivls, tokens, 1, Quality::Minor) {
                Some(c) => c,
                None => return None,
            }
        },
        ChordTk::Maj => {
            ivls.push(Interval::PERFECT_UNISON());
            ivls.push(Interval::MAJOR_THIRD());
            ivls.push(Interval::PERFECT_FIFTH());
            potential_num(&mut ivls, tokens, 1, Quality::Major)
        },
        ChordTk::Dim => {
            ivls.push(Interval::PERFECT_UNISON());
            ivls.push(Interval::MINOR_THIRD());
            ivls.push(Interval::DIMINISHED_FIFTH());
            potential_num(&mut ivls, tokens, 1, Quality::Diminished(1))
        },
        ChordTk::Aug => {
            ivls.push(Interval::PERFECT_UNISON());
            ivls.push(Interval::MAJOR_THIRD());
            ivls.push(Interval::AUGMENTED_FIFTH());
            match read_maj_or_number(&mut ivls, tokens, 1, Quality::Minor) {
                Some(c) => c,
                None => return None,
            }
        },
        ChordTk::Sus2 => {
            ivls.push(Interval::PERFECT_UNISON());
            ivls.push(Interval::MAJOR_SECOND());
            ivls.push(Interval::PERFECT_FIFTH());
            1
        },
        ChordTk::Sus4 => {
            ivls.push(Interval::PERFECT_UNISON());
            ivls.push(Interval::PERFECT_FOURTH());
            ivls.push(Interval::PERFECT_FIFTH());
            1
        },
        ChordTk::Five => {
            ivls.push(Interval::PERFECT_UNISON());
            ivls.push(Interval::PERFECT_FIFTH());
            1
        },
        ChordTk::Six => {
            ivls.push(Interval::PERFECT_UNISON());
            ivls.push(Interval::MAJOR_THIRD());
            ivls.push(Interval::PERFECT_FIFTH());
            ivls.push(Interval::MAJOR_SIXTH());
            1
        },
        ChordTk::Seven | ChordTk::Nine | ChordTk::Eleven | ChordTk::Thirteen => {
            ivls.push(Interval::PERFECT_UNISON());
            ivls.push(Interval::MAJOR_THIRD());
            ivls.push(Interval::PERFECT_FIFTH());
            upper_chord_ext(&mut ivls, Quality::Minor, first);
            1
        },
        _ => return None,
    };
    assert(head_of(tokens@) == Some((ivls@, consumed as int)));
    let mut i = consumed;
    while i < tokens.len()
        invariant
            i <= tokens@.len(),
            apply_rest(ivls@, tokens@, i as int) == apply_rest(head_of(tokens@).unwrap().0, tokens@, head_of(tokens@).unwrap().1),
            apply_rest(ivls@, tokens@, i as int) is Some,
        decreases tokens@.len() - i,
    {
        match tokens[i] {
            ChordTk::Omit(n) => {
                let k = position_of_number(&ivls, n);
                if k >= ivls.len() {
                    return None;
                }
                ivls.remove(k);
                if contains_number(&ivls, n) {
                    return None;
                }
            },
            _ => return None,
        }
        i = i + 1;
    }
    Some(ivls)
}

} // verus!
