//! Interval qualities: perfect, major, minor, and repeated augmentation or diminution.

use vstd::prelude::*;

verus! {

/// The quality of an interval. Augmented and diminished qualities carry how many
/// times they apply (1 for augmented, 2 for doubly augmented, ...), which is never zero.
#[derive(Copy, Clone, Eq, PartialEq, Debug, Hash, Structural)]
pub enum Quality {
    Diminished(u16),
    Minor,
    Perfect,
    Major,
    Augmented(u16),
}

/// Error returned when a string does not name an interval quality.
#[derive(Copy, Clone, Eq, PartialEq, Debug, Hash, Structural)]
pub struct ParseIntervalQualityErr;

/// The inverted quality: major and minor swap, augmented and diminished swap
/// (keeping their count), perfect stays perfect.
pub open spec fn inverted_quality(q: Quality) -> Quality {
    match q {
        Quality::Perfect => Quality::Perfect,
        Quality::Major => Quality::Minor,
        Quality::Minor => Quality::Major,
        Quality::Diminished(n) => Quality::Augmented(n),
        Quality::Augmented(n) => Quality::Diminished(n),
    }
}

/// `n` copies of the character `c`.
pub open spec fn repeat_char(c: char, n: nat) -> Seq<char> {
    Seq::new(n, |i: int| c)
}

/// The shorthand of a quality: `P`, `M`, `m`, or `d`/`A` repeated by the count.
pub open spec fn quality_shorthand(q: Quality) -> Seq<char> {
    match q {
        Quality::Perfect => seq!['P'],
        Quality::Major => seq!['M'],
        Quality::Minor => seq!['m'],
        Quality::Diminished(n) => repeat_char('d', n as nat),
        Quality::Augmented(n) => repeat_char('A', n as nat),
    }
}

/// Whether every character of `s` is `c`.
pub open spec fn all_chars(s: Seq<char>, c: char) -> bool {
    forall|i: int| 0 <= i < s.len() ==> #[trigger] s[i] == c
}

/// The quality a string names, as the shorthand writes it. A run of `d` or `A`
/// counts its length modulo 2^16; a run whose length is a multiple of 2^16 names none.
pub open spec fn quality_from_chars(s: Seq<char>) -> Option<Quality> {
    if s =~= seq!['P'] {
        Some(Quality::Perfect)
    } else if s =~= seq!['M'] {
        Some(Quality::Major)
    } else if s =~= seq!['m'] {
        Some(Quality::Minor)
    } else if s.len() == 0 {
        None
    } else if s.len() % 0x10000 == 0 {
        None
    } else if all_chars(s, 'd') {
        Some(Quality::Diminished(s.len() as u16))
    } else if all_chars(s, 'A') {
        Some(Quality::Augmented(s.len() as u16))
    } else {
        None
    }
}

impl Quality {
    /// Whether an augmented or diminished quality has a count of at least one.
    pub open spec fn wf(self) -> bool {
        match self {
            Quality::Diminished(n) => n >= 1,
            Quality::Augmented(n) => n >= 1,
            _ => true,
        }
    }

    /// Singly diminished.
    #[allow(non_snake_case)]
    pub fn DIMINISHED() -> (r: Quality)
        ensures
            r == Quality::Diminished(1),
    {
        Quality::Diminished(1)
    }

    /// Singly augmented.
    #[allow(non_snake_case)]
    pub fn AUGMENTED() -> (r: Quality)
        ensures
            r == Quality::Augmented(1),
    {
        Quality::Augmented(1)
    }

    /// Whether the quality is augmented, to any degree.
    pub fn is_augmented(self) -> (r: bool)
        ensures
            r == (self is Augmented),
    {
        match self {
            Quality::Augmented(_) => true,
            _ => false,
        }
    }

    /// Whether the quality is diminished, to any degree.
    pub fn is_diminished(self) -> (r: bool)
        ensures
            r == (self is Diminished),
    {
        match self {
            Quality::Diminished(_) => true,
            _ => false,
        }
    }

    /// The shorthand: `P`, `M`, `m`, `d` repeated, or `A` repeated.
    pub fn shorthand(self) -> (r: String)
        ensures
            r@ == quality_shorthand(self),
    {
        match self {
            Quality::Perfect => {
                let s = String::from_str("P");
                proof { reveal_strlit("P"); }
                s
            },
            Quality::Major => {
                let s = String::from_str("M");
                proof { reveal_strlit("M"); }
                s
            },
            Quality::Minor => {
                let s = String::from_str("m");
                proof { reveal_strlit("m"); }
                s
            },
            Quality::Diminished(n) => repeat_str_d(n),
            Quality::Augmented(n) => repeat_str_a(n),
        }
    }

    /// The same text as [`Self::shorthand`].
    pub fn to_string(self) -> (r: String)
        ensures
            r@ == quality_shorthand(self),
    {
        self.shorthand()
    }

    /// The inverted quality.
    pub fn inverted(self) -> (r: Quality)
        ensures
            r == inverted_quality(self),
            self.wf() ==> r.wf(),
    {
        match self {
            Quality::Perfect => Quality::Perfect,
            Quality::Major => Quality::Minor,
            Quality::Minor => Quality::Major,
            Quality::Diminished(n) => Quality::Augmented(n),
            Quality::Augmented(n) => Quality::Diminished(n),
        }
    }

    /// Parses a quality shorthand: `P`, `M`, `m`, or a run of `d` or of `A`.
    pub fn parse(s: &str) -> (r: Result<Quality, ParseIntervalQualityErr>)
        ensures
            r is Ok <==> quality_from_chars(s@) is Some,
            r matches Ok(q) ==> quality_from_chars(s@) == Some(q) && q.wf(),
    {
        let len = s.unicode_len();
        if len == 0 {
            return Err(ParseIntervalQualityErr);
        }
        let first = s.get_char(0);
        if len == 1 && first == 'P' {
            return Ok(Quality::Perfect);
        }
        if len == 1 && first == 'M' {
            return Ok(Quality::Major);
        }
        if len == 1 && first == 'm' {
            return Ok(Quality::Minor);
        }
        if first != 'd' && first != 'A' {
            assert(!all_chars(s@, 'd') && !all_chars(s@, 'A'));
            return Err(ParseIntervalQualityErr);
        }
        let mut i: usize = 1;
        while i < len
            invariant
                1 <= i <= len,
                len == s@.len(),
                s@[0] == first,
                forall|j: int| 0 <= j < i ==> #[trigger] s@[j] == first,
            decreases len - i,
        {
            if s.get_char(i) != first {
                assert(!all_chars(s@, 'd') && !all_chars(s@, 'A'));
                return Err(ParseIntervalQualityErr);
            }
            i = i + 1;
        }
        let count: u16 = #[verifier::truncate] (len as u16);
        assert(count == len % 0x10000) by (bit_vector)
            requires
                count == #[verifier::truncate] (len as u16),
        ;
        if count == 0 {
            return Err(ParseIntervalQualityErr);
        }
        if first == 'd' {
            assert(all_chars(s@, 'd'));
            Ok(Quality::Diminished(count))
        } else {
            assert(all_chars(s@, 'A'));
            assert(!all_chars(s@, 'd'));
            Ok(Quality::Augmented(count))
        }
    }
}

fn repeat_str_d(n: u16) -> (r: String)
    ensures
        r@ == repeat_char('d', n as nat),
{
    let mut s = String::new();
    let mut i: u16 = 0;
    proof { reveal_strlit("d"); }
    while i < n
        invariant
            i <= n,
            s@ == repeat_char('d', i as nat),
        decreases n - i,
    {
        proof { reveal_strlit("d"); }
        s.append("d");
        i = i + 1;
        assert(s@ =~= repeat_char('d', i as nat));
    }
    s
}

fn repeat_str_a(n: u16) -> (r: String)
    ensures
        r@ == repeat_char('A', n as nat),
{
    let mut s = String::new();
    let mut i: u16 = 0;
    proof { reveal_strlit("A"); }
    while i < n
        invariant
            i <= n,
            s@ == repeat_char('A', i as nat),
        decreases n - i,
    {
        proof { reveal_strlit("A"); }
        s.append("A");
        i = i + 1;
        assert(s@ =~= repeat_char('A', i as nat));
    }
    s
}

impl core::str::FromStr for Quality {
    type Err = ParseIntervalQualityErr;

    fn from_str(s: &str) -> Result<Quality, ParseIntervalQualityErr> {
        Quality::parse(s)
    }
}

/// Inverting a quality twice gives it back.
pub proof fn lemma_inverted_quality_involutive(q: Quality)
    ensures
        inverted_quality(inverted_quality(q)) == q,
        q.wf() == inverted_quality(q).wf(),
{
}

/// Reading back the shorthand of a quality gives the quality: `P`, `M` and `m`,
/// and a run of `n` `d`s or `A`s for `n`-fold diminished or augmented.
pub proof fn law_parse_shorthand(q: Quality)
    requires
        q.wf(),
    ensures
        quality_from_chars(quality_shorthand(q)) == Some(q),
{
    let s = quality_shorthand(q);
    match q {
        Quality::Diminished(n) => {
            assert(s.len() == n && s.len() % 0x10000 != 0);
            assert(s[0] == 'd');
            assert(!(s =~= seq!['P']) && !(s =~= seq!['M']) && !(s =~= seq!['m']));
            assert(all_chars(s, 'd'));
            assert(quality_from_chars(s) == Some(Quality::Diminished(s.len() as u16)));
            assert((s.len() as u16) == n);
        },
        Quality::Augmented(n) => {
            assert(s.len() == n && s.len() % 0x10000 != 0);
            assert(s[0] == 'A');
            assert(!(s =~= seq!['P']) && !(s =~= seq!['M']) && !(s =~= seq!['m']));
            assert(all_chars(s, 'A'));
        },
        Quality::Perfect => {
            assert(s =~= seq!['P']);
        },
        Quality::Major => {
            assert(s =~= seq!['M']);
            assert(!(s =~= seq!['P'])) by { assert(s[0] != seq!['P'][0]); }
        },
        Quality::Minor => {
            assert(s =~= seq!['m']);
            assert(!(s =~= seq!['P'])) by { assert(s[0] != seq!['P'][0]); }
            assert(!(s =~= seq!['M'])) by { assert(s[0] != seq!['M'][0]); }
        },
    }
}

} // verus!
