//! Reading intervals from their shorthand, quality first (`M3`, `m-13`, `-M7`)
//! or number first (`3M`, `-13m`).

use vstd::prelude::*;
use crate::interval::{
    lemma_mk_of, negated_interval, parse_nonzero_i16, quality_from_chars, valid_interval, Interval,
    Number, ParseIntervalError, ParseIntervalQualityErr, ParseNumberError, Quality,
};
use crate::parse::is_digit;

verus! {

/// Whether `c` can belong to the number of a shorthand: a digit or a minus sign.
pub open spec fn is_number_char(c: char) -> bool {
    is_digit(c) || c == '-'
}

/// The first position at or after `i` whose character is (when `want`) or is not
/// (when `!want`) a number character; `s.len()` when there is none.
pub open spec fn find_from(s: Seq<char>, i: int, want: bool) -> int
    decreases s.len() - i,
{
    if i < 0 || i >= s.len() {
        s.len() as int
    } else if is_number_char(s[i]) == want {
        i
    } else {
        find_from(s, i + 1, want)
    }
}

/// The interval made of a parsed quality and a parsed number; the quality's
/// error comes first.
pub open spec fn interval_of_parts(q: Option<Quality>, n: Option<int>) -> Result<Interval, ParseIntervalError> {
    match q {
        None => Err(ParseIntervalError::QualityErr(ParseIntervalQualityErr)),
        Some(q) => match n {
            None => Err(ParseIntervalError::NumberErr(ParseNumberError)),
            Some(n) => if valid_interval(q, n) {
                Ok(Interval::mk(q, n))
            } else {
                Err(ParseIntervalError::InvalidInterval)
            },
        },
    }
}

/// The interval a shorthand names. When the text ends in a digit, the quality
/// comes first and a leading `-` makes the interval descend; otherwise the number
/// comes first. A number of `-32768` makes no valid interval.
pub open spec fn interval_from_chars(s: Seq<char>) -> Result<Interval, ParseIntervalError> {
    if s.len() == 0 {
        Err(ParseIntervalError::InvalidFormat)
    } else if is_digit(s.last()) {
        let neg = s[0] == '-';
        let t = if neg { s.subrange(1, s.len() as int) } else { s };
        let k = find_from(t, 0, true);
        if k == t.len() {
            Err(ParseIntervalError::InvalidFormat)
        } else {
            match interval_of_parts(
                quality_from_chars(t.subrange(0, k)),
                parse_nonzero_i16(t.subrange(k, t.len() as int)),
            ) {
                Ok(i) => Ok(if neg { negated_interval(i) } else { i }),
                Err(e) => Err(e),
            }
        }
    } else {
        let k = find_from(s, 0, false);
        if k == s.len() {
            Err(ParseIntervalError::InvalidFormat)
        } else {
            interval_of_parts(
                quality_from_chars(s.subrange(k, s.len() as int)),
                parse_nonzero_i16(s.subrange(0, k)),
            )
        }
    }
}

/// The first position of a number character (or of another character, when
/// `!want`), or the length of `s`.
fn find_number_char(s: &str, want: bool) -> (k: usize)
    ensures
        k == find_from(s@, 0, want),
        k <= s@.len(),
{
    let len = s.unicode_len();
    let mut i: usize = 0;
    while i < len
        invariant
            i <= len,
            len == s@.len(),
            find_from(s@, 0, want) == find_from(s@, i as int, want),
        decreases len - i,
    {
        let c = s.get_char(i);
        let is_num = ('0' <= c && c <= '9') || c == '-';
        if is_num == want {
            return i;
        }
        i = i + 1;
    }
    i
}

/// The interval of a parsed quality and number text.
fn combine(q: Result<Quality, ParseIntervalQualityErr>, n: Result<Number, ParseNumberError>) -> (r: Result<Interval, ParseIntervalError>)
    requires
        q matches Ok(q) ==> q.wf(),
    ensures
        r == interval_of_parts(
            match q { Ok(q) => Some(q), Err(_) => None },
            match n { Ok(n) => Some(n.value()), Err(_) => None },
        ),
{
    let q = match q {
        Ok(q) => q,
        Err(e) => return Err(ParseIntervalError::QualityErr(e)),
    };
    let n = match n {
        Ok(n) => n,
        Err(e) => return Err(ParseIntervalError::NumberErr(e)),
    };
    if n.get() == i16::MIN {
        return Err(ParseIntervalError::InvalidInterval);
    }
    match Interval::new(q, n) {
        Some(i) => {
            proof { lemma_mk_of(i); }
            Ok(i)
        },
        None => Err(ParseIntervalError::InvalidInterval),
    }
}

impl Interval {
    /// Parses an interval shorthand, such as `P5`, `m-13`, `-M7`, `dddd-5` or `13m`.
    pub fn parse(s: &str) -> (r: Result<Interval, ParseIntervalError>)
        ensures
            r == interval_from_chars(s@),
    {
        let len = s.unicode_len();
        if len == 0 {
            return Err(ParseIntervalError::InvalidFormat);
        }
        let last = s.get_char(len - 1);
        if '0' <= last && last <= '9' {
            let neg = s.get_char(0) == '-';
            let t = if neg { s.substring_char(1, len) } else { s };
            let k = find_number_char(t, true);
            let tl = t.unicode_len();
            if k == tl {
                return Err(ParseIntervalError::InvalidFormat);
            }
            let q = Quality::parse(t.substring_char(0, k));
            let n = Number::parse(t.substring_char(k, tl));
            match combine(q, n) {
                Ok(i) => if neg {
                    let r = i.negated();
                    proof { lemma_mk_of(r); }
                    Ok(r)
                } else {
                    Ok(i)
                },
                Err(e) => Err(e),
            }
        } else {
            let k = find_number_char(s, false);
            if k == len {
                return Err(ParseIntervalError::InvalidFormat);
            }
            let q = Quality::parse(s.substring_char(k, len));
            let n = Number::parse(s.substring_char(0, k));
            combine(q, n)
        }
    }
}

impl core::str::FromStr for Interval {
    type Err = ParseIntervalError;

    fn from_str(s: &str) -> Result<Interval, ParseIntervalError> {
        Interval::parse(s)
    }
}

} // verus!
