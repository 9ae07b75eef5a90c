//! Sets of pitch classes, stored as twelve bits with C as the highest bit.

use vstd::prelude::*;
use crate::pitch::PitchClass;

verus! {

/// Whether bit `i` of `x` is set.
pub open spec fn has_bit(x: u16, i: u16) -> bool {
    (x >> i) & 1u16 == 1u16
}

/// The bit that stands for chroma `c`: C is bit 11, B is bit 0.
pub open spec fn chroma_bit(c: int) -> u16 {
    (1u16 << ((11 - c) as u16)) as u16
}

/// A set of pitch classes. Bit `11 - c` holds chroma `c`, so that the bits read
/// from C down to B.
#[derive(Copy, Clone, Eq, PartialEq, Debug, Hash, Structural)]
pub struct PitchClassSet(u16);

/// Bit `i` of `a | b`, `a & b`, `a ^ b` and `!a`, for `i < 16`.
proof fn lemma_bits(a: u16, b: u16, i: u16)
    by (bit_vector)
    requires
        i < 16,
    ensures
        ((a | b) >> i) & 1u16 == 1u16 <==> ((a >> i) & 1u16 == 1u16 || (b >> i) & 1u16 == 1u16),
        ((a & b) >> i) & 1u16 == 1u16 <==> ((a >> i) & 1u16 == 1u16 && (b >> i) & 1u16 == 1u16),
        ((a ^ b) >> i) & 1u16 == 1u16 <==> ((a >> i) & 1u16 == 1u16) != ((b >> i) & 1u16 == 1u16),
        ((a & !b) >> i) & 1u16 == 1u16 <==> ((a >> i) & 1u16 == 1u16 && !((b >> i) & 1u16 == 1u16)),
{
}

/// The single bit `1 << j` has bit `i` set exactly when `i == j`.
proof fn lemma_single_bit(i: u16, j: u16)
    by (bit_vector)
    requires
        i < 16,
        j < 16,
    ensures
        (((1u16 << j) as u16 >> i) & 1u16 == 1u16) <==> i == j,
        j < 12 ==> (1u16 << j) as u16 <= 0xfff,
        (0u16 >> i) & 1u16 != 1u16,
{
}

/// Complementing within twelve bits flips exactly the low twelve bits.
proof fn lemma_complement_bits(a: u16, i: u16)
    by (bit_vector)
    requires
        i < 12,
    ensures
        ((!a & 0xfffu16) >> i) & 1u16 == 1u16 <==> !((a >> i) & 1u16 == 1u16),
        !a & 0xfffu16 <= 0xfff,
{
}

/// Complementing twice within twelve bits gives back a twelve-bit set.
proof fn lemma_double_complement(a: u16)
    by (bit_vector)
    requires
        a <= 0xfff,
    ensures
        !(!a & 0xfffu16) & 0xfffu16 == a,
{
}

/// Combining twelve-bit sets stays within twelve bits.
proof fn lemma_twelve_bits(a: u16, b: u16, j: u16)
    by (bit_vector)
    requires
        a <= 0xfff,
        b <= 0xfff,
        j < 12,
    ensures
        a | b <= 0xfff,
        a & b <= 0xfff,
        a ^ b <= 0xfff,
        a & !b <= 0xfff,
        a | ((1u16 << j) as u16) <= 0xfff,
        a & 0xfffu16 == a,
{
}

impl PitchClassSet {
    /// The bits of the set.
    pub closed spec fn bits(self) -> u16 {
        self.0
    }

    /// The set with bits `b`.
    pub closed spec fn from_bits(b: u16) -> PitchClassSet {
        PitchClassSet(b)
    }

    /// Only the twelve low bits are ever set.
    #[verifier::type_invariant]
    pub open spec fn twelve_bits(self) -> bool {
        self.bits() <= 0xfff
    }

    /// Whether the set holds chroma `c`.
    pub open spec fn has(self, c: int) -> bool {
        0 <= c < 12 && has_bit(self.bits(), (11 - c) as u16)
    }

    /// How many of the chromas below `n` the set holds.
    pub open spec fn count_below(self, n: int) -> nat
        decreases n,
    {
        if n <= 0 {
            0
        } else {
            self.count_below(n - 1) + if self.has(n - 1) { 1nat } else { 0nat }
        }
    }

    /// The pitch classes of the set with chroma below `n`, from C up.
    pub open spec fn classes_below(self, n: int) -> Seq<PitchClass>
        decreases n,
    {
        if n <= 0 {
            Seq::empty()
        } else if self.has(n - 1) {
            self.classes_below(n - 1).push(PitchClass::from_ch(n - 1))
        } else {
            self.classes_below(n - 1)
        }
    }

    /// The set made of the bits `set`, or `None` when a bit above the twelfth is set.
    pub fn new(set: u16) -> (r: Option<PitchClassSet>)
        ensures
            r is Some <==> set <= 0xfff,
            r matches Some(s) ==> s.bits() == set,
    {
        if set <= 0xfff {
            Some(PitchClassSet(set))
        } else {
            None
        }
    }

    /// The set that holds no pitch class.
    #[allow(non_snake_case)]
    pub fn EMPTY() -> (r: PitchClassSet)
        ensures
            r.bits() == 0,
            forall|c: int| !#[trigger] r.has(c),
    {
        proof {
            assert forall|i: u16| i < 16 implies !has_bit(0, i) by {
                lemma_single_bit(i, 0);
            }
        }
        PitchClassSet(0)
    }

    /// The set that holds all twelve pitch classes.
    #[allow(non_snake_case)]
    pub fn CHROMATIC_AGGREGATE() -> (r: PitchClassSet)
        ensures
            r.bits() == 0xfff,
            forall|c: int| #[trigger] r.has(c) <==> 0 <= c < 12,
    {
        proof {
            assert forall|i: u16| i < 12 implies has_bit(0xfff, i) by {
                assert(i < 12 ==> (0xfffu16 >> i) & 1u16 == 1u16) by (bit_vector);
            }
        }
        PitchClassSet(0xfff)
    }

    /// Two sets are equal exactly when their bits are.
    pub proof fn lemma_bits_eq(self, other: PitchClassSet)
        ensures
            (self == other) <==> (self.bits() == other.bits()),
    {
    }

    /// The set holds every chroma exactly when all twelve bits are set.
    pub proof fn lemma_full(self)
        requires
            self.bits() <= 0xfff,
        ensures
            (forall|c: int| 0 <= c < 12 ==> #[trigger] self.has(c)) <==> self.bits() == 0xfff,
    {
        let x = self.bits();
        if forall|c: int| 0 <= c < 12 ==> #[trigger] self.has(c) {
            assert(self.has(0) && self.has(1) && self.has(2) && self.has(3) && self.has(4) && self.has(5));
            assert(self.has(6) && self.has(7) && self.has(8) && self.has(9) && self.has(10) && self.has(11));
            assert(x == 0xfff) by (bit_vector)
                requires
                    x <= 0xfff,
                    (x >> 0u16) & 1u16 == 1u16, (x >> 1u16) & 1u16 == 1u16, (x >> 2u16) & 1u16 == 1u16,
                    (x >> 3u16) & 1u16 == 1u16, (x >> 4u16) & 1u16 == 1u16, (x >> 5u16) & 1u16 == 1u16,
                    (x >> 6u16) & 1u16 == 1u16, (x >> 7u16) & 1u16 == 1u16, (x >> 8u16) & 1u16 == 1u16,
                    (x >> 9u16) & 1u16 == 1u16, (x >> 10u16) & 1u16 == 1u16, (x >> 11u16) & 1u16 == 1u16,
            ;
        }
        if x == 0xfff {
            assert forall|c: int| 0 <= c < 12 implies #[trigger] self.has(c) by {
                let i = (11 - c) as u16;
                assert(i < 12 ==> (0xfffu16 >> i) & 1u16 == 1u16) by (bit_vector);
            }
        }
    }

    /// The set made of the twelve low bits of `set`.
    pub fn new_masked(set: u16) -> (r: PitchClassSet)
        ensures
            r.bits() == set & 0xfffu16,
    {
        assert(set & 0xfffu16 <= 0xfff) by (bit_vector);
        PitchClassSet(set & 0xfff)
    }

    /// The bits of the set.
    pub fn get(self) -> (r: u16)
        ensures
            r == self.bits(),
            r <= 0xfff,
    {
        proof { use_type_invariant(&self); }
        self.0
    }

    /// The bit that stands for `pc`.
    fn bit(pc: PitchClass) -> (r: u16)
        ensures
            r == chroma_bit(pc.ch()),
            r <= 0xfff,
            forall|c: int| 0 <= c < 12 ==> (#[trigger] has_bit(r, (11 - c) as u16) <==> c == pc.ch()),
    {
        let i = 11 - pc.chroma() as u16;
        proof {
            lemma_single_bit(0, i);
            assert forall|c: int| 0 <= c < 12 implies (#[trigger] has_bit((1u16 << i) as u16, (11 - c) as u16) <==> c == pc.ch()) by {
                lemma_single_bit((11 - c) as u16, i);
            }
        }
        1u16 << i
    }

    /// Whether the set holds `pc`.
    pub fn is_set(self, pc: PitchClass) -> (r: bool)
        ensures
            r == self.has(pc.ch()),
    {
        let i = 11 - pc.chroma() as u16;
        (self.0 >> i) & 1 == 1
    }

    /// The set with `pc` added.
    pub fn with_set(self, pc: PitchClass) -> (r: PitchClassSet)
        ensures
            r.bits() == self.bits() | chroma_bit(pc.ch()),
            forall|c: int| #[trigger] r.has(c) <==> (self.has(c) || (c == pc.ch())),
    {
        proof { use_type_invariant(&self); }
        let b = PitchClassSet::bit(pc);
        proof {
            lemma_twelve_bits(self.0, 0, (11 - pc.ch()) as u16);
            assert forall|c: int| #[trigger] PitchClassSet(self.0 | b).has(c) <==> (self.has(c) || (c == pc.ch())) by {
                if 0 <= c < 12 {
                    lemma_bits(self.0, b, (11 - c) as u16);
                    assert(has_bit(b, (11 - c) as u16) <==> c == pc.ch());
                }
            }
        }
        PitchClassSet(self.0 | b)
    }

    /// The set with `pc` removed.
    pub fn with_cleared(self, pc: PitchClass) -> (r: PitchClassSet)
        ensures
            r.bits() == self.bits() & !chroma_bit(pc.ch()),
            forall|c: int| #[trigger] r.has(c) <==> (self.has(c) && c != pc.ch()),
    {
        proof { use_type_invariant(&self); }
        let b = PitchClassSet::bit(pc);
        proof {
            lemma_twelve_bits(self.0, b, 0);
            assert forall|c: int| #[trigger] PitchClassSet(self.0 & !b).has(c) <==> (self.has(c) && c != pc.ch()) by {
                if 0 <= c < 12 {
                    lemma_bits(self.0, b, (11 - c) as u16);
                    assert(has_bit(b, (11 - c) as u16) <==> c == pc.ch());
                }
            }
        }
        PitchClassSet(self.0 & !b)
    }

    /// The number of pitch classes in the set.
    pub fn len(self) -> (r: u8)
        ensures
            r == self.count_below(12),
    {
        let mut n: u8 = 0;
        let mut c: u8 = 0;
        while c < 12
            invariant
                c <= 12,
                n == self.count_below(c as int),
                n <= c,
            decreases 12 - c,
        {
            let pc = match PitchClass::from_chroma(c) {
                Some(pc) => pc,
                None => PitchClass::C,
            };
            if self.is_set(pc) {
                n = n + 1;
            }
            c = c + 1;
        }
        n
    }

    /// Whether the set holds no pitch class.
    pub fn is_empty(self) -> (r: bool)
        ensures
            r == (self.count_below(12) == 0),
    {
        self.len() == 0
    }

    /// The set of the given pitch classes.
    pub fn from_pitch_classes(pitch_classes: &[PitchClass]) -> (r: PitchClassSet)
        ensures
            forall|c: int| #[trigger] r.has(c) <==> exists|i: int| 0 <= i < pitch_classes@.len() && pitch_classes@[i].ch() == c,
    {
        let mut s = PitchClassSet(0);
        assert forall|c: int| !(#[trigger] s.has(c)) by {
            if 0 <= c < 12 {
                lemma_single_bit((11 - c) as u16, 0);
            }
        }
        let mut i: usize = 0;
        while i < pitch_classes.len()
            invariant
                i <= pitch_classes@.len(),
                forall|c: int| #[trigger] s.has(c) <==> exists|j: int| 0 <= j < i && pitch_classes@[j].ch() == c,
            decreases pitch_classes@.len() - i,
        {
            let pc = pitch_classes[i];
            let t = s.with_set(pc);
            assert forall|c: int| #[trigger] t.has(c) <==> exists|j: int| 0 <= j < i + 1 && pitch_classes@[j].ch() == c by {
                if t.has(c) && !s.has(c) {
                    assert(pitch_classes@[i as int].ch() == c);
                }
                if exists|j: int| 0 <= j < i + 1 && pitch_classes@[j].ch() == c {
                    let j = choose|j: int| 0 <= j < i + 1 && pitch_classes@[j].ch() == c;
                    if j < i {
                        assert(s.has(c));
                    }
                }
            }
            s = t;
            i = i + 1;
        }
        assert forall|c: int| #[trigger] s.has(c) <==> exists|i: int| 0 <= i < pitch_classes@.len() && pitch_classes@[i].ch() == c by {
        }
        s
    }

    /// The pitch classes of the set, from C up.
    pub fn pitch_classes(self) -> (r: Vec<PitchClass>)
        ensures
            r@ == self.classes_below(12),
    {
        let mut v: Vec<PitchClass> = Vec::new();
        let mut c: u8 = 0;
        while c < 12
            invariant
                c <= 12,
                v@ == self.classes_below(c as int),
            decreases 12 - c,
        {
            let pc = match PitchClass::from_chroma(c) {
                Some(pc) => pc,
                None => PitchClass::C,
            };
            if self.is_set(pc) {
                v.push(pc);
            }
            c = c + 1;
        }
        v
    }

    /// Whether every pitch class of `rhs` is in the set.
    pub fn is_superset_of(self, rhs: PitchClassSet) -> (r: bool)
        ensures
            r == (self.bits() & rhs.bits() == rhs.bits()),
    {
        (self.0 & rhs.0) == rhs.0
    }

    /// Whether every pitch class of the set is in `rhs`.
    pub fn is_subset_of(self, rhs: PitchClassSet) -> (r: bool)
        ensures
            r == (self.bits() & rhs.bits() == self.bits()),
    {
        (self.0 & rhs.0) == self.0
    }

    /// Whether the sets share no pitch class.
    pub fn disjoint(self, rhs: PitchClassSet) -> (r: bool)
        ensures
            r == (self.bits() & rhs.bits() == 0),
    {
        (self.0 & rhs.0) == 0
    }

    /// The pitch classes in either set.
    pub fn union(self, rhs: PitchClassSet) -> (r: PitchClassSet)
        ensures
            r.bits() == self.bits() | rhs.bits(),
            forall|c: int| #[trigger] r.has(c) <==> (self.has(c) || rhs.has(c)),
    {
        proof {
            use_type_invariant(&self);
            use_type_invariant(&rhs);
            lemma_twelve_bits(self.0, rhs.0, 0);
            assert forall|c: int| #[trigger] PitchClassSet(self.0 | rhs.0).has(c) <==> (self.has(c) || rhs.has(c)) by {
                if 0 <= c < 12 {
                    lemma_bits(self.0, rhs.0, (11 - c) as u16);
                }
            }
        }
        PitchClassSet(self.0 | rhs.0)
    }

    /// The pitch classes in both sets.
    pub fn intersection(self, rhs: PitchClassSet) -> (r: PitchClassSet)
        ensures
            r.bits() == self.bits() & rhs.bits(),
            r == PitchClassSet::from_bits(self.bits() & rhs.bits()),
            forall|c: int| #[trigger] r.has(c) <==> (self.has(c) && rhs.has(c)),
    {
        proof {
            use_type_invariant(&self);
            use_type_invariant(&rhs);
            lemma_twelve_bits(self.0, rhs.0, 0);
            assert forall|c: int| #[trigger] PitchClassSet(self.0 & rhs.0).has(c) <==> (self.has(c) && rhs.has(c)) by {
                if 0 <= c < 12 {
                    lemma_bits(self.0, rhs.0, (11 - c) as u16);
                }
            }
        }
        PitchClassSet(self.0 & rhs.0)
    }

    /// The pitch classes of the set that are not in `rhs`.
    pub fn difference(self, rhs: PitchClassSet) -> (r: PitchClassSet)
        ensures
            r.bits() == self.bits() & !rhs.bits(),
            forall|c: int| #[trigger] r.has(c) <==> (self.has(c) && !rhs.has(c)),
    {
        proof {
            use_type_invariant(&self);
            use_type_invariant(&rhs);
            lemma_twelve_bits(self.0, rhs.0, 0);
            assert forall|c: int| #[trigger] PitchClassSet(self.0 & !rhs.0).has(c) <==> (self.has(c) && !rhs.has(c)) by {
                if 0 <= c < 12 {
                    lemma_bits(self.0, rhs.0, (11 - c) as u16);
                }
            }
        }
        PitchClassSet(self.0 & !rhs.0)
    }

    /// The pitch classes in exactly one of the sets.
    pub fn symmetric_difference(self, rhs: PitchClassSet) -> (r: PitchClassSet)
        ensures
            r.bits() == self.bits() ^ rhs.bits(),
            r == PitchClassSet::from_bits(self.bits() ^ rhs.bits()),
            forall|c: int| #[trigger] r.has(c) <==> (self.has(c) != rhs.has(c)),
    {
        proof {
            use_type_invariant(&self);
            use_type_invariant(&rhs);
            lemma_twelve_bits(self.0, rhs.0, 0);
            assert forall|c: int| #[trigger] PitchClassSet(self.0 ^ rhs.0).has(c) <==> (self.has(c) != rhs.has(c)) by {
                if 0 <= c < 12 {
                    lemma_bits(self.0, rhs.0, (11 - c) as u16);
                }
            }
        }
        PitchClassSet(self.0 ^ rhs.0)
    }

    /// The pitch classes not in the set.
    pub fn complement(self) -> (r: PitchClassSet)
        ensures
            r.bits() == !self.bits() & 0xfffu16,
            r == PitchClassSet::from_bits(!self.bits() & 0xfffu16),
            forall|c: int| #[trigger] r.has(c) <==> (0 <= c < 12 && !self.has(c)),
    {
        proof {
            lemma_complement_bits(self.0, 0);
            assert forall|c: int| #[trigger] PitchClassSet(!self.0 & 0xfffu16).has(c) <==> (0 <= c < 12 && !self.has(c)) by {
                if 0 <= c < 12 {
                    lemma_complement_bits(self.0, (11 - c) as u16);
                }
            }
        }
        PitchClassSet(!self.0 & 0xfff)
    }

    /// The text `PitchClassSet(0b...)` with the twelve bits from C down to B.
    pub fn debug_string(self) -> (r: String)
        ensures
            r@ == seq!['P', 'i', 't', 'c', 'h', 'C', 'l', 'a', 's', 's', 'S', 'e', 't', '(', '0', 'b']
                + bit_text(self.bits(), 12) + seq![')'],
    {
        proof {
            reveal_strlit("PitchClassSet(0b");
            reveal_strlit(")");
            reveal_strlit("0");
            reveal_strlit("1");
        }
        let mut s = String::from_str("PitchClassSet(0b");
        let mut k: u16 = 12;
        while k > 0
            invariant
                k <= 12,
                s@ == seq!['P', 'i', 't', 'c', 'h', 'C', 'l', 'a', 's', 's', 'S', 'e', 't', '(', '0', 'b']
                    + bit_text(self.bits(), 12 - k),
            decreases k,
        {
            proof {
                reveal_strlit("0");
                reveal_strlit("1");
            }
            let i = k - 1;
            if (self.0 >> i) & 1 == 1 {
                s.append("1");
            } else {
                s.append("0");
            }
            assert(bit_text(self.bits(), 12 - i) == bit_text(self.bits(), 12 - k).push(
                if has_bit(self.bits(), i) { '1' } else { '0' },
            ));
            k = i;
        }
        proof { reveal_strlit(")"); }
        s.append(")");
        s
    }
}

/// The first `n` of the twelve bits of `x`, from bit 11 down, as `0` and `1` characters.
pub open spec fn bit_text(x: u16, n: int) -> Seq<char>
    decreases n,
{
    if n <= 0 {
        Seq::empty()
    } else {
        bit_text(x, n - 1).push(if has_bit(x, (12 - n) as u16) { '1' } else { '0' })
    }
}

impl Default for PitchClassSet {
    /// The empty set.
    fn default() -> (r: PitchClassSet)
        ensures
            r.bits() == 0,
    {
        PitchClassSet(0)
    }
}

impl core::ops::Not for PitchClassSet {
    type Output = PitchClassSet;

    /// The complement of the set.
    fn not(self) -> (r: PitchClassSet) {
        self.complement()
    }
}

impl vstd::std_specs::ops::NotSpecImpl for PitchClassSet {
    open spec fn obeys_not_spec() -> bool {
        true
    }

    open spec fn not_req(self) -> bool {
        true
    }

    open spec fn not_spec(self) -> PitchClassSet {
        PitchClassSet::from_bits(!self.bits() & 0xfffu16)
    }
}

impl core::ops::BitAnd for PitchClassSet {
    type Output = PitchClassSet;

    /// The intersection of the sets.
    fn bitand(self, rhs: PitchClassSet) -> (r: PitchClassSet) {
        self.intersection(rhs)
    }
}

impl vstd::std_specs::ops::BitAndSpecImpl for PitchClassSet {
    open spec fn obeys_bitand_spec() -> bool {
        true
    }

    open spec fn bitand_req(self, rhs: PitchClassSet) -> bool {
        true
    }

    open spec fn bitand_spec(self, rhs: PitchClassSet) -> PitchClassSet {
        PitchClassSet::from_bits(self.bits() & rhs.bits())
    }
}

impl core::ops::BitXor for PitchClassSet {
    type Output = PitchClassSet;

    /// The symmetric difference of the sets.
    fn bitxor(self, rhs: PitchClassSet) -> (r: PitchClassSet) {
        self.symmetric_difference(rhs)
    }
}

impl vstd::std_specs::ops::BitXorSpecImpl for PitchClassSet {
    open spec fn obeys_bitxor_spec() -> bool {
        true
    }

    open spec fn bitxor_req(self, rhs: PitchClassSet) -> bool {
        true
    }

    open spec fn bitxor_spec(self, rhs: PitchClassSet) -> PitchClassSet {
        PitchClassSet::from_bits(self.bits() ^ rhs.bits())
    }
}

/// Complementing a set twice gives it back.
pub proof fn law_double_complement(s: PitchClassSet)
    requires
        s.bits() <= 0xfff,
    ensures
        PitchClassSet::from_bits(!PitchClassSet::from_bits(!s.bits() & 0xfffu16).bits() & 0xfffu16) == s,
{
    lemma_double_complement(s.bits());
}

/// A set is a subset of another exactly when the other is a superset of it.
pub proof fn law_subset_superset(a: PitchClassSet, b: PitchClassSet)
    ensures
        (a.bits() & b.bits() == a.bits()) == (b.bits() & a.bits() == a.bits()),
{
    let x = a.bits();
    let y = b.bits();
    assert(x & y == y & x) by (bit_vector);
}

/// The pitch classes below `n` are those of the set, each once, in ascending
/// chroma order, and there are as many as the set counts below `n`.
proof fn lemma_classes_below(s: PitchClassSet, n: int)
    requires
        0 <= n <= 12,
    ensures
        s.classes_below(n).len() == s.count_below(n),
        forall|i: int| 0 <= i < s.classes_below(n).len() ==> 0 <= #[trigger] s.classes_below(n)[i].ch() < n,
        forall|i: int, j: int| 0 <= i < j < s.classes_below(n).len() ==>
            #[trigger] s.classes_below(n)[i].ch() < #[trigger] s.classes_below(n)[j].ch(),
        forall|c: int| 0 <= c < n ==> (s.has(c) <==> exists|i: int| 0 <= i < s.classes_below(n).len()
            && #[trigger] s.classes_below(n)[i].ch() == c),
    decreases n,
{
    if n > 0 {
        lemma_classes_below(s, n - 1);
        let p = s.classes_below(n - 1);
        let x = PitchClass::from_ch(n - 1);
        assert(x.ch() == n - 1);
        if s.has(n - 1) {
            let q = p.push(x);
            assert(s.classes_below(n) == q);
            assert forall|i: int| 0 <= i < q.len() implies 0 <= #[trigger] q[i].ch() < n by {
                if i < p.len() {
                    assert(q[i] == p[i]);
                }
            }
            assert forall|i: int, j: int| 0 <= i < j < q.len() implies #[trigger] q[i].ch() < #[trigger] q[j].ch() by {
                assert(q[i] == p[i]);
                if j < p.len() {
                    assert(q[j] == p[j]);
                }
            }
            assert forall|c: int| 0 <= c < n implies (s.has(c) <==> exists|i: int| 0 <= i < q.len()
                && #[trigger] q[i].ch() == c) by {
                if c < n - 1 {
                    if s.has(c) {
                        let i = choose|i: int| 0 <= i < p.len() && #[trigger] p[i].ch() == c;
                        assert(q[i] == p[i]);
                    }
                    if exists|i: int| 0 <= i < q.len() && #[trigger] q[i].ch() == c {
                        let i = choose|i: int| 0 <= i < q.len() && #[trigger] q[i].ch() == c;
                        if i < p.len() {
                            assert(q[i] == p[i]);
                        }
                    }
                } else {
                    assert(q[p.len() as int].ch() == c);
                }
            }
        } else {
            assert forall|c: int| 0 <= c < n implies (s.has(c) <==> exists|i: int| 0 <= i < p.len()
                && #[trigger] p[i].ch() == c) by {
                if c == n - 1 {
                    if exists|i: int| 0 <= i < p.len() && #[trigger] p[i].ch() == c {
                        let i = choose|i: int| 0 <= i < p.len() && #[trigger] p[i].ch() == c;
                        assert(p[i].ch() < n - 1);
                    }
                }
            }
        }
    }
}

/// The pitch classes of a set (see [`PitchClassSet::pitch_classes`]) are its
/// members, each once, in ascending chroma order; there are as many as its length.
pub proof fn law_pitch_classes(s: PitchClassSet)
    ensures
        s.classes_below(12).len() == s.count_below(12),
        forall|i: int, j: int| 0 <= i < j < s.classes_below(12).len() ==>
            #[trigger] s.classes_below(12)[i].ch() < #[trigger] s.classes_below(12)[j].ch(),
        forall|c: int| #[trigger] s.has(c) <==> exists|i: int| 0 <= i < s.classes_below(12).len()
            && #[trigger] s.classes_below(12)[i].ch() == c,
{
    lemma_classes_below(s, 12);
    assert forall|c: int| #[trigger] s.has(c) <==> exists|i: int| 0 <= i < s.classes_below(12).len()
        && #[trigger] s.classes_below(12)[i].ch() == c by {
        if !(0 <= c < 12) {
            if exists|i: int| 0 <= i < s.classes_below(12).len() && #[trigger] s.classes_below(12)[i].ch() == c {
                let i = choose|i: int| 0 <= i < s.classes_below(12).len() && #[trigger] s.classes_below(12)[i].ch() == c;
                assert(0 <= s.classes_below(12)[i].ch() < 12);
            }
        }
    }
}

/// Two values agreeing on all sixteen bits are equal.
proof fn lemma_bit_ext(x: u16, y: u16)
    by (bit_vector)
    requires
        (x >> 0u16) & 1u16 == (y >> 0u16) & 1u16, (x >> 1u16) & 1u16 == (y >> 1u16) & 1u16,
        (x >> 2u16) & 1u16 == (y >> 2u16) & 1u16, (x >> 3u16) & 1u16 == (y >> 3u16) & 1u16,
        (x >> 4u16) & 1u16 == (y >> 4u16) & 1u16, (x >> 5u16) & 1u16 == (y >> 5u16) & 1u16,
        (x >> 6u16) & 1u16 == (y >> 6u16) & 1u16, (x >> 7u16) & 1u16 == (y >> 7u16) & 1u16,
        (x >> 8u16) & 1u16 == (y >> 8u16) & 1u16, (x >> 9u16) & 1u16 == (y >> 9u16) & 1u16,
        (x >> 10u16) & 1u16 == (y >> 10u16) & 1u16, (x >> 11u16) & 1u16 == (y >> 11u16) & 1u16,
        (x >> 12u16) & 1u16 == (y >> 12u16) & 1u16, (x >> 13u16) & 1u16 == (y >> 13u16) & 1u16,
        (x >> 14u16) & 1u16 == (y >> 14u16) & 1u16, (x >> 15u16) & 1u16 == (y >> 15u16) & 1u16,
    ensures
        x == y,
{
}

/// A bit `i` is either set or clear.
proof fn lemma_bit_value(x: u16, i: u16)
    by (bit_vector)
    requires
        i < 16,
    ensures
        (x >> i) & 1u16 == 1u16 || (x >> i) & 1u16 == 0u16,
        x <= 0xfff && 12 <= i ==> (x >> i) & 1u16 == 0u16,
{
}

/// A set is a subset of another exactly when every pitch class of the first is
/// in the second.
pub proof fn law_subset_members(a: PitchClassSet, b: PitchClassSet)
    requires
        a.bits() <= 0xfff,
        b.bits() <= 0xfff,
    ensures
        (a.bits() & b.bits() == a.bits()) <==> (forall|c: int| #[trigger] a.has(c) ==> b.has(c)),
{
    let x = a.bits();
    let y = b.bits();
    if x & y == x {
        assert forall|c: int| #[trigger] a.has(c) implies b.has(c) by {
            lemma_bits(x, y, (11 - c) as u16);
        }
    }
    if forall|c: int| #[trigger] a.has(c) ==> b.has(c) {
        assert forall|i: u16| i < 16 implies ((x & y) >> i) & 1u16 == (x >> i) & 1u16 by {
            lemma_bits(x, y, i);
            lemma_bit_value(x, i);
            lemma_bit_value(y, i);
            lemma_bit_value(x & y, i);
            if i < 12 {
                assert(a.has(11 - i) ==> b.has(11 - i));
                assert((11 - (11 - i)) as u16 == i);
            }
        }
        lemma_bit_ext(x & y, x);
    }
}

} // verus!
