//! Interval numbers: the diatonic size of an interval.

use vstd::prelude::*;

verus! {

/// Sign of a nonzero number.
pub open spec fn sgn(v: int) -> int {
    if v < 0 { -1 } else { 1 }
}

/// Absolute value.
pub open spec fn abs(v: int) -> int {
    if v < 0 { -v } else { v }
}

/// The simple form of `|v|`, in `[1, 8]`: compound numbers lose whole octaves,
/// and octaves (and multiples of octaves) reduce to 8.
pub open spec fn simple_abs(v: int) -> int {
    if abs(v) != 1 && (abs(v) - 1) % 7 == 0 {
        8
    } else {
        (abs(v) - 1) % 7 + 1
    }
}

/// Complete octaves spanned by an interval number, ignoring direction.
pub open spec fn octaves(v: int) -> int {
    (abs(v) - 1) / 7
}

/// Whether the interval number `v` takes perfect quality (unisons, fourths, fifths, octaves).
pub open spec fn is_perfect_number(v: int) -> bool {
    let s = simple_abs(v);
    s == 1 || s == 4 || s == 5 || s == 8
}

/// The inverted interval number, keeping direction and compound octaves.
pub open spec fn inverted_number(v: int) -> int {
    let s = simple_abs(v);
    let n = if s == 1 || s == 8 { s } else { 9 - s };
    let unsigned = if s == 8 { 7 * (octaves(v) - 1) + n } else { 7 * octaves(v) + n };
    sgn(v) * unsigned
}

/// Semitones of the major or perfect interval with number `|v|`.
pub open spec fn base_semitones(v: int) -> int {
    let s = simple_abs(v);
    let without_octave: int = if s == 1 || s == 8 {
        0
    } else if s == 2 {
        2
    } else if s == 3 {
        4
    } else if s == 4 {
        5
    } else if s == 5 {
        7
    } else if s == 6 {
        9
    } else {
        11
    };
    without_octave + 12 * octaves(v)
}

/// Letter steps covered by the interval number `v` (negative when descending).
pub open spec fn steps(v: int) -> int {
    if v > 0 { v - 1 } else { v + 1 }
}

/// The diatonic size of an interval: 1 for a unison, 3 for a third, 9 for a ninth.
/// Negative numbers are descending intervals; the number is never zero.
#[derive(Copy, Clone, Eq, PartialEq, Debug, Hash, Structural)]
pub struct Number(i16);

/// Error returned when a string is not a nonzero `i16`.
#[derive(Copy, Clone, Eq, PartialEq, Debug, Structural)]
pub struct ParseNumberError;

impl Number {
    /// An interval number is never zero.
    #[verifier::type_invariant]
    pub open spec fn nonzero(self) -> bool {
        self.value() != 0
    }

    /// The value of the interval number.
    pub closed spec fn value(self) -> int {
        self.0 as int
    }

    /// The number with value `v` (meaningful for nonzero `v` in `i16`).
    pub closed spec fn mk(v: int) -> Number {
        Number(v as i16)
    }

    /// The interval number 1.
    #[allow(non_snake_case)]
    pub fn UNISON() -> (r: Number)
        ensures
            r.value() == 1,
    {
        Number(1)
    }

    /// The interval number 2.
    #[allow(non_snake_case)]
    pub fn SECOND() -> (r: Number)
        ensures
            r.value() == 2,
    {
        Number(2)
    }

    /// The interval number 3.
    #[allow(non_snake_case)]
    pub fn THIRD() -> (r: Number)
        ensures
            r.value() == 3,
    {
        Number(3)
    }

    /// The interval number 4.
    #[allow(non_snake_case)]
    pub fn FOURTH() -> (r: Number)
        ensures
            r.value() == 4,
    {
        Number(4)
    }

    /// The interval number 5.
    #[allow(non_snake_case)]
    pub fn FIFTH() -> (r: Number)
        ensures
            r.value() == 5,
    {
        Number(5)
    }

    /// The interval number 6.
    #[allow(non_snake_case)]
    pub fn SIXTH() -> (r: Number)
        ensures
            r.value() == 6,
    {
        Number(6)
    }

    /// The interval number 7.
    #[allow(non_snake_case)]
    pub fn SEVENTH() -> (r: Number)
        ensures
            r.value() == 7,
    {
        Number(7)
    }

    /// The interval number 8.
    #[allow(non_snake_case)]
    pub fn OCTAVE() -> (r: Number)
        ensures
            r.value() == 8,
    {
        Number(8)
    }

    /// The interval number 9.
    #[allow(non_snake_case)]
    pub fn NINTH() -> (r: Number)
        ensures
            r.value() == 9,
    {
        Number(9)
    }

    /// The interval number 10.
    #[allow(non_snake_case)]
    pub fn TENTH() -> (r: Number)
        ensures
            r.value() == 10,
    {
        Number(10)
    }

    /// The interval number 11.
    #[allow(non_snake_case)]
    pub fn ELEVENTH() -> (r: Number)
        ensures
            r.value() == 11,
    {
        Number(11)
    }

    /// The interval number 12.
    #[allow(non_snake_case)]
    pub fn TWELFTH() -> (r: Number)
        ensures
            r.value() == 12,
    {
        Number(12)
    }

    /// The interval number 13.
    #[allow(non_snake_case)]
    pub fn THIRTEENTH() -> (r: Number)
        ensures
            r.value() == 13,
    {
        Number(13)
    }

    /// The interval number 14.
    #[allow(non_snake_case)]
    pub fn FOURTEENTH() -> (r: Number)
        ensures
            r.value() == 14,
    {
        Number(14)
    }

    /// The interval number 15.
    #[allow(non_snake_case)]
    pub fn FIFTEENTH() -> (r: Number)
        ensures
            r.value() == 15,
    {
        Number(15)
    }

    /// Creates an interval number, or `None` for zero.
    pub fn new(number: i16) -> (r: Option<Number>)
        ensures
            r is Some <==> number != 0,
            r matches Some(n) ==> n.value() == number && n == Number::mk(number as int),
    {
        if number != 0 {
            Some(Number(number))
        } else {
            None
        }
    }

    /// The value of the interval number; never zero.
    pub fn get(self) -> (r: i16)
        ensures
            r == self.value(),
            r != 0,
    {
        proof { use_type_invariant(&self); }
        self.0
    }

    /// The shorthand of the interval number, which is its value.
    pub fn shorthand(self) -> (r: i16)
        ensures
            r == self.value(),
            r != 0,
    {
        self.get()
    }

    /// The simple form of the number, in `[1, 8]` or `[-8, -1]`, keeping direction.
    pub fn as_simple(self) -> (r: Number)
        requires
            self.value() != i16::MIN,
        ensures
            r.value() == sgn(self.value()) * simple_abs(self.value()),
    {
        let v = self.get();
        let a = if v < 0 { -v } else { v };
        let s: i16 = if a != 1 && (a - 1) % 7 == 0 { 8 } else { (a - 1) % 7 + 1 };
        if v > 0 {
            Number(s)
        } else {
            Number(-s)
        }
    }

    /// Whether this number takes perfect quality (1, 4, 5 or 8, up to octaves).
    pub fn is_perfect(self) -> (r: bool)
        requires
            self.value() != i16::MIN,
        ensures
            r == is_perfect_number(self.value()),
    {
        let s = self.as_simple().get();
        s == 1 || s == 4 || s == 5 || s == 8 || s == -1 || s == -4 || s == -5 || s == -8
    }

    /// Whether the number is positive.
    pub fn is_ascending(self) -> (r: bool)
        ensures
            r == (self.value() > 0),
    {
        self.get() > 0
    }

    /// The number with the requested direction.
    pub fn with_direction(self, ascending: bool) -> (r: Number)
        requires
            self.value() != i16::MIN,
        ensures
            r.value() == (if ascending { abs(self.value()) } else { -abs(self.value()) }),
    {
        let v = self.get();
        if (v > 0) == ascending {
            self
        } else {
            Number(-v)
        }
    }

    /// Complete octaves in the interval, ignoring direction.
    pub fn octave_unsigned(self) -> (r: i16)
        requires
            self.value() != i16::MIN,
        ensures
            r == octaves(self.value()),
    {
        let v = self.get();
        let a = if v < 0 { -v } else { v };
        (a - 1) / 7
    }

    /// Complete octaves in the interval, negative for descending numbers.
    pub fn octave_signed(self) -> (r: i16)
        requires
            self.value() != i16::MIN,
        ensures
            r == sgn(self.value()) * octaves(self.value()),
    {
        let o = self.octave_unsigned();
        if self.get() < 0 {
            -o
        } else {
            o
        }
    }

    /// The inverted number: seconds and sevenths swap, thirds and sixths swap,
    /// fourths and fifths swap, unisons and octaves stay, within the same compound octave.
    pub fn inverted(self) -> (r: Number)
        requires
            self.value() != i16::MIN,
        ensures
            r.value() == inverted_number(self.value()),
            r.value() != i16::MIN,
    {
        let v = self.get();
        proof { lemma_inverted_bounds(v as int); }
        let s = self.as_simple().get();
        let s = if s < 0 { -s } else { s };
        let n = if s == 1 || s == 8 { s } else { 9 - s };
        let o = self.octave_unsigned();
        let unsigned = if s == 8 { 7 * (o - 1) + n } else { 7 * o + n };
        if v < 0 {
            Number(-unsigned)
        } else {
            Number(unsigned)
        }
    }

    /// Semitones of the major or perfect interval with this number.
    pub fn base_semitones_with_octave_unsigned(self) -> (r: i32)
        requires
            self.value() != i16::MIN,
        ensures
            r == base_semitones(self.value()),
    {
        let s = self.as_simple().get();
        let s = if s < 0 { -s } else { s };
        let without_octave: i32 = if s == 1 || s == 8 {
            0
        } else if s == 2 {
            2
        } else if s == 3 {
            4
        } else if s == 4 {
            5
        } else if s == 5 {
            7
        } else if s == 6 {
            9
        } else {
            11
        };
        without_octave + 12 * self.octave_unsigned() as i32
    }

    /// The number in decimal, with a `-` for descending numbers.
    pub fn to_string(self) -> (r: String)
        ensures
            r@ == crate::parse::int_text(self.value()),
    {
        crate::parse::i16_to_string(self.get())
    }

    /// Parses a nonzero decimal `i16` with an optional sign.
    pub fn parse(s: &str) -> (r: Result<Number, ParseNumberError>)
        ensures
            r is Ok <==> parse_nonzero_i16(s@) is Some,
            r matches Ok(n) ==> Some(n.value()) == parse_nonzero_i16(s@),
    {
        match crate::parse::parse_i16(s) {
            Some(v) => if v != 0 {
                Ok(Number(v))
            } else {
                Err(ParseNumberError)
            },
            None => Err(ParseNumberError),
        }
    }
}

/// The nonzero `i16` written in decimal by `s`, if any.
pub open spec fn parse_nonzero_i16(s: Seq<char>) -> Option<int> {
    match crate::parse::decimal_i16(s) {
        Some(v) => if v != 0 { Some(v) } else { None },
        None => None,
    }
}

impl core::ops::Neg for Number {
    type Output = Number;

    fn neg(self) -> (r: Number)
        ensures
            r.value() == -self.value(),
    {
        let v = self.get();
        Number(-v)
    }
}

impl vstd::std_specs::ops::NegSpecImpl for Number {
    open spec fn obeys_neg_spec() -> bool {
        false
    }

    open spec fn neg_req(self) -> bool {
        self.value() != i16::MIN
    }

    open spec fn neg_spec(self) -> Number {
        Number::mk(-self.value())
    }
}

impl core::str::FromStr for Number {
    type Err = ParseNumberError;

    fn from_str(s: &str) -> Result<Number, ParseNumberError> {
        Number::parse(s)
    }
}

/// The simple form of a number lies in `[1, 8]`, and the number is its simple
/// form plus whole octaves.
pub proof fn lemma_simple(v: int)
    requires
        v != 0,
    ensures
        1 <= simple_abs(v) <= 8,
        abs(v) == simple_abs(v) + 7 * octaves(v) - (if simple_abs(v) == 8 { 7int } else { 0int }),
        simple_abs(v) == 8 ==> octaves(v) >= 1,
        octaves(v) >= 0,
{
}

/// `Number::mk` builds the number with the given value.
pub proof fn lemma_number_mk(v: int)
    requires
        i16::MIN <= v <= i16::MAX,
    ensures
        Number::mk(v).value() == v,
        forall|b: Number| #[trigger] b.value() == v ==> b == Number::mk(v),
{
}

/// The value of an interval number is an `i16`.
pub proof fn lemma_value_range(n: Number)
    ensures
        i16::MIN <= n.value() <= i16::MAX,
{
}

/// Interval numbers with the same value are equal.
pub proof fn lemma_number_ext(a: Number, b: Number)
    ensures
        a.value() == b.value() ==> a == b,
{
}

/// Inverting keeps a nonzero number inside the range of `i16`.
pub proof fn lemma_inverted_bounds(v: int)
    requires
        v != 0,
        i16::MIN < v <= i16::MAX,
    ensures
        inverted_number(v) != 0,
        i16::MIN < inverted_number(v) <= i16::MAX,
        sgn(inverted_number(v)) == sgn(v),
        octaves(inverted_number(v)) == octaves(v),
        simple_abs(inverted_number(v)) == (if simple_abs(v) == 1 || simple_abs(v) == 8 { simple_abs(v) } else { 9 - simple_abs(v) }),
{
    lemma_simple(v);
    let a = abs(v);
    let o = octaves(v);
    let sa = simple_abs(v);
    let inv = inverted_number(v);
    let n = if sa == 1 || sa == 8 { sa } else { 9 - sa };
    let u = if sa == 8 { 7 * (o - 1) + n } else { 7 * o + n };
    assert(a - 1 == 7 * o + (a - 1) % 7);
    assert(1 <= u);
    assert(u - 1 == 7 * (if sa == 8 { o } else { o }) + (n - 1) % 7) by {
        if sa == 8 {
            assert(u - 1 == 7 * o);
        } else {
            assert(u - 1 == 7 * o + (n - 1));
        }
    }
    assert(inv == sgn(v) * u);
    assert(inv == if v < 0 { -u } else { u }) by (nonlinear_arith)
        requires
            inv == sgn(v) * u,
            sgn(v) == if v < 0 { -1int } else { 1int },
    ;
    assert(abs(inv) == u);
    assert((u - 1) / 7 == o);
    assert((u - 1) % 7 == (n - 1) % 7);
}

/// Inverting an interval number twice gives it back.
pub proof fn lemma_inverted_number_involutive(v: int)
    requires
        v != 0,
        i16::MIN < v <= i16::MAX,
    ensures
        inverted_number(inverted_number(v)) == v,
        is_perfect_number(inverted_number(v)) == is_perfect_number(v),
{
    lemma_inverted_bounds(v);
    lemma_simple(v);
    lemma_simple(inverted_number(v));
}

/// Inverting an interval number: twice gives it back; it keeps its direction and
/// its compound octaves; unisons and octaves stay as they are, and any other
/// simple number `s` becomes `9 - s`.
pub proof fn law_number_inversion(v: int)
    requires
        v != 0,
        i16::MIN < v <= i16::MAX,
    ensures
        inverted_number(inverted_number(v)) == v,
        (inverted_number(v) > 0) == (v > 0),
        octaves(inverted_number(v)) == octaves(v),
        simple_abs(v) == 1 || simple_abs(v) == 8 ==> inverted_number(v) == v,
        2 <= simple_abs(v) <= 7 ==> simple_abs(inverted_number(v)) == 9 - simple_abs(v),
{
    lemma_inverted_bounds(v);
    lemma_inverted_number_involutive(v);
    lemma_simple(v);
}

} // verus!
