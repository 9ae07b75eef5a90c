//! Written note lengths (whole, half, quarter, ... with dots) and tempos.

use vstd::prelude::*;
use vstd::arithmetic::power2::{lemma_pow2_adds, lemma_pow2_pos, lemma_pow2_unfold, pow2};
use num_rational::Ratio;

verus! {

/// The greatest common divisor of `a` and `b` (Euclid's algorithm; 0 for two zeros).
pub open spec fn gcd(a: nat, b: nat) -> nat
    decreases b,
{
    if b == 0 {
        a
    } else {
        gcd(b, a % b)
    }
}

/// Whether `k` is a factor, other than 1, of both `n` and `d`.
pub open spec fn common_factor(n: int, d: int, k: int) -> bool {
    1 < k && n % k == 0 && d % k == 0
}

/// Whether `n / d` is a fraction in lowest terms with a positive denominator.
pub open spec fn lowest_terms(n: int, d: int) -> bool {
    d > 0 && forall|k: int| !#[trigger] common_factor(n, d, k)
}

/// The greatest common divisor divides both numbers, and is positive unless both are zero.
pub proof fn lemma_gcd_divides(a: nat, b: nat)
    requires
        a > 0 || b > 0,
    ensures
        gcd(a, b) > 0,
        a % gcd(a, b) == 0,
        b % gcd(a, b) == 0,
    decreases b,
{
    if b == 0 {
        vstd::arithmetic::div_mod::lemma_mod_self_0(a as int);
    } else {
        lemma_gcd_divides(b, a % b);
        let g = gcd(b, a % b);
        let q = a / b;
        let r = a % b;
        vstd::arithmetic::div_mod::lemma_fundamental_div_mod(a as int, b as int);
        vstd::arithmetic::div_mod::lemma_fundamental_div_mod(b as int, g as int);
        vstd::arithmetic::div_mod::lemma_fundamental_div_mod(r as int, g as int);
        let x = b / g;
        let y = r / g;
        assert(a == g * (x * q + y)) by (nonlinear_arith)
            requires
                a == b * q + r,
                b == g * x,
                r == g * y,
        ;
        vstd::arithmetic::div_mod::lemma_mod_multiples_basic((x * q + y) as int, g as int);
        assert((x * q + y) * g == g * (x * q + y)) by (nonlinear_arith);
    }
}

/// An odd number that divides a power of two is 1.
proof fn lemma_odd_divisor_of_pow2(g: nat, p: nat)
    requires
        g % 2 == 1,
        pow2(p) % g == 0,
    ensures
        g == 1,
    decreases p,
{
    if p == 0 {
        assert(pow2(0) == 1) by { vstd::arithmetic::power2::lemma2_to64(); }
        if g > 1 {
            vstd::arithmetic::div_mod::lemma_small_mod(1, g);
        }
    } else {
        lemma_pow2_unfold(p);
        let x = pow2((p - 1) as nat);
        let q = pow2(p) / g;
        vstd::arithmetic::div_mod::lemma_fundamental_div_mod(pow2(p) as int, g as int);
        assert(2 * x == g * q);
        if q % 2 == 1 {
            assert((g * q) % 2 == 1) by (nonlinear_arith)
                requires
                    g % 2 == 1,
                    q % 2 == 1,
            {
                let a = g / 2;
                let b = q / 2;
                assert(g == 2 * a + 1);
                assert(q == 2 * b + 1);
                assert(g * q == 2 * (2 * a * b + a + b) + 1);
            }
            assert((2 * x) % 2 == 0) by (nonlinear_arith);
        }
        let h = q / 2;
        assert(x == g * h) by (nonlinear_arith)
            requires
                2 * x == g * q,
                q % 2 == 0,
                h == q / 2,
        ;
        vstd::arithmetic::div_mod::lemma_mod_multiples_basic(h as int, g as int);
        assert(h * g == g * h) by (nonlinear_arith);
        lemma_odd_divisor_of_pow2(g, (p - 1) as nat);
    }
}

/// A power of two and an odd number have no common divisor but 1.
proof fn lemma_gcd_pow2_odd(p: nat, m: nat)
    requires
        m % 2 == 1,
    ensures
        gcd(pow2(p), m) == 1,
{
    lemma_pow2_pos(p);
    lemma_gcd_divides(pow2(p), m);
    let g = gcd(pow2(p), m);
    if g % 2 == 0 {
        let k = m / g;
        vstd::arithmetic::div_mod::lemma_fundamental_div_mod(m as int, g as int);
        assert(m % 2 == 0) by (nonlinear_arith)
            requires
                m == g * k,
                g % 2 == 0,
        {
            let a = g / 2;
            assert(g == 2 * a);
            assert(m == 2 * (a * k));
        }
    }
    lemma_odd_divisor_of_pow2(g, p);
}

/// When an odd number times `t` is a multiple of `2^p`, so is `t`.
proof fn lemma_pow2_divides_odd_product(p: nat, m: nat, t: nat)
    requires
        m % 2 == 1,
        (m * t) % pow2(p) == 0,
    ensures
        t % pow2(p) == 0,
    decreases p,
{
    if p == 0 {
        assert(pow2(0) == 1) by { vstd::arithmetic::power2::lemma2_to64(); }
        assert(t % 1 == 0) by (nonlinear_arith);
    } else {
        lemma_pow2_unfold(p);
        lemma_pow2_pos((p - 1) as nat);
        let h = pow2((p - 1) as nat);
        let q = (m * t) / pow2(p);
        vstd::arithmetic::div_mod::lemma_fundamental_div_mod((m * t) as int, pow2(p) as int);
        assert(m * t == 2 * (h * q)) by (nonlinear_arith)
            requires
                m * t == pow2(p) * q,
                pow2(p) == 2 * h,
        ;
        if t % 2 == 1 {
            assert((m * t) % 2 == 1) by (nonlinear_arith)
                requires
                    m % 2 == 1,
                    t % 2 == 1,
            {
                let a = m / 2;
                let b = t / 2;
                assert(m == 2 * a + 1);
                assert(t == 2 * b + 1);
                assert(m * t == 2 * (2 * a * b + a + b) + 1);
            }
            assert((2 * (h * q)) % 2 == 0) by (nonlinear_arith);
        }
        let u = t / 2;
        assert(t == 2 * u);
        assert(m * u == h * q) by (nonlinear_arith)
            requires
                m * t == 2 * (h * q),
                t == 2 * u,
        ;
        vstd::arithmetic::div_mod::lemma_mod_multiples_basic(q as int, h as int);
        assert(q * h == h * q) by (nonlinear_arith);
        lemma_pow2_divides_odd_product((p - 1) as nat, m, u);
        let w = u / h;
        vstd::arithmetic::div_mod::lemma_fundamental_div_mod(u as int, h as int);
        assert(t == pow2(p) * w) by (nonlinear_arith)
            requires
                t == 2 * u,
                u == h * w,
                pow2(p) == 2 * h,
        ;
        vstd::arithmetic::div_mod::lemma_mod_multiples_basic(w as int, pow2(p) as int);
        assert(w * pow2(p) == pow2(p) * w) by (nonlinear_arith);
    }
}

/// A fraction in lowest terms equal to `m / 2^p`, with `m` odd, is `m / 2^p` itself.
proof fn lemma_odd_over_pow2(t0: nat, t1: nat, p: nat, m: nat)
    requires
        lowest_terms(t0 as int, t1 as int),
        t0 * pow2(p) == m * t1,
        m % 2 == 1,
    ensures
        t0 == m,
        t1 == pow2(p),
{
    lemma_pow2_pos(p);
    vstd::arithmetic::div_mod::lemma_mod_multiples_basic(t0 as int, pow2(p) as int);
    assert(t0 * pow2(p) == pow2(p) * t0) by (nonlinear_arith);
    assert((m * t1) % pow2(p) == 0);
    lemma_pow2_divides_odd_product(p, m, t1);
    let j = t1 / pow2(p);
    vstd::arithmetic::div_mod::lemma_fundamental_div_mod(t1 as int, pow2(p) as int);
    assert(t1 == pow2(p) * j);
    assert(t0 == m * j) by (nonlinear_arith)
        requires
            t0 * pow2(p) == m * t1,
            t1 == pow2(p) * j,
            pow2(p) > 0,
    ;
    assert(j > 0) by (nonlinear_arith)
        requires
            t1 == pow2(p) * j,
            t1 > 0,
    ;
    if j > 1 {
        vstd::arithmetic::div_mod::lemma_mod_multiples_basic(m as int, j as int);
        vstd::arithmetic::div_mod::lemma_mod_multiples_basic(pow2(p) as int, j as int);
        assert(m * j == j * m && pow2(p) * j == j * pow2(p)) by (nonlinear_arith);
        assert(common_factor(t0 as int, t1 as int, j as int));
    }
    assert(t0 == m && t1 == pow2(p)) by (nonlinear_arith)
        requires
            t0 == m * j,
            t1 == pow2(p) * j,
            j == 1,
    ;
}

/// The greatest common divisor of two powers of two is the smaller one.
proof fn lemma_gcd_pow2(a: nat, b: nat)
    ensures
        gcd(pow2(a), pow2(b)) == pow2(if a <= b { a } else { b }),
{
    lemma_pow2_pos(a);
    lemma_pow2_pos(b);
    if b <= a {
        lemma_pow2_adds((a - b) as nat, b);
        vstd::arithmetic::div_mod::lemma_mod_multiples_basic(pow2((a - b) as nat) as int, pow2(b) as int);
        assert(pow2(a) % pow2(b) == 0);
        assert(gcd(pow2(a), pow2(b)) == gcd(pow2(b), 0));
    } else {
        vstd::arithmetic::power2::lemma_pow2_strictly_increases(a, b);
        vstd::arithmetic::div_mod::lemma_small_mod(pow2(a), pow2(b));
        lemma_pow2_adds((b - a) as nat, a);
        vstd::arithmetic::div_mod::lemma_mod_multiples_basic(pow2((b - a) as nat) as int, pow2(a) as int);
        assert(pow2(b) % pow2(a) == 0);
        assert(gcd(pow2(a), pow2(b)) == gcd(pow2(b), pow2(a)));
        assert(gcd(pow2(b), pow2(a)) == gcd(pow2(a), 0));
    }
}

/// The only divisor of 1 is 1.
proof fn lemma_gcd_one(m: nat)
    ensures
        gcd(1, m) == 1,
{
    if m == 1 {
        assert(gcd(1, 1) == gcd(1, 0));
    } else if m > 1 {
        vstd::arithmetic::div_mod::lemma_small_mod(1, m);
        assert(gcd(1, m) == gcd(m, 1));
        assert(gcd(m, 1) == gcd(1, 0));
    }
}

#[verifier::external_type_specification]
#[verifier::external_body]
#[verifier::reject_recursive_types(T)]
pub struct ExRatio<T>(num_rational::Ratio<T>);

/// `Ratio::from_integer` on `u32`: the fraction `t / 1`.
#[verifier::external_body]
fn ratio_from_integer(t: u32) -> (r: (u32, u32))
    ensures
        r == (t, 1u32),
{
    Ratio::from_integer(t).into_raw()
}

/// `Ratio::recip` on the `u32` fraction `n / d`: the fraction `d / n`. It panics on a
/// zero numerator, which the precondition rules out.
#[verifier::external_body]
fn ratio_recip(n: u32, d: u32) -> (r: (u32, u32))
    requires
        n != 0,
    ensures
        r == (d, n),
{
    Ratio::new_raw(n, d).recip().into_raw()
}

/// `Ratio - Ratio` on `u32` fractions `a` and `b` with positive denominators: the
/// difference in lowest terms. The precondition asks that `a` is at least `b` and
/// that the cross products and the product of the denominators fit a `u32`, which
/// keeps the subtraction, the least common multiple and the scaled numerators from
/// overflowing.
#[verifier::external_body]
fn ratio_sub(a: (u32, u32), b: (u32, u32)) -> (r: (u32, u32))
    requires
        a.1 > 0,
        b.1 > 0,
        a.0 * b.1 >= b.0 * a.1,
        a.0 * b.1 <= u32::MAX,
        b.0 * a.1 <= u32::MAX,
        a.1 * b.1 <= u32::MAX,
    ensures
        lowest_terms(r.0 as int, r.1 as int),
        r.0 * (a.1 * b.1) == (a.0 * b.1 - b.0 * a.1) * r.1,
{
    (Ratio::new_raw(a.0, a.1) - Ratio::new_raw(b.0, b.1)).into_raw()
}

/// `Ratio *= Ratio` on `u32` fractions `a` and `b` with positive denominators: the
/// product in lowest terms. It first divides the numerator of each by the greatest
/// common divisor with the denominator of the other; the precondition asks that the
/// products of what is left fit a `u32`.
#[verifier::external_body]
fn ratio_mul(a: (u32, u32), b: (u32, u32)) -> (r: (u32, u32))
    requires
        a.1 > 0,
        b.1 > 0,
        (a.0 as nat / gcd(a.0 as nat, b.1 as nat)) * (b.0 as nat / gcd(a.1 as nat, b.0 as nat)) <= u32::MAX,
        (a.1 as nat / gcd(a.1 as nat, b.0 as nat)) * (b.1 as nat / gcd(a.0 as nat, b.1 as nat)) <= u32::MAX,
    ensures
        lowest_terms(r.0 as int, r.1 as int),
        r.0 * (a.1 * b.1) == a.0 * b.0 * r.1,
{
    let mut x = Ratio::new_raw(a.0, a.1);
    x *= Ratio::new_raw(b.0, b.1);
    x.into_raw()
}

/// The numerator of a written length of `2^l` whole notes with `d` dots
/// (`2^l * (2^(d+1) - 1) / 2^d`), before reducing.
pub open spec fn length_numer(l: int, d: nat) -> int {
    (pow2(d + 1) - 1) * (if l >= 0 { pow2(l as nat) as int } else { 1 })
}

/// The denominator of a written length of `2^l` whole notes with `d` dots, before
/// reducing.
pub open spec fn length_denom(l: int, d: nat) -> int {
    pow2(d) * (if l < 0 { pow2((-l) as nat) as int } else { 1 })
}

/// A length of time in whole notes: a fraction in lowest terms.
#[derive(Debug, Copy, Clone, Eq, PartialEq)]
pub struct Duration {
    numer: u32,
    denom: u32,
}

impl Duration {
    /// The numerator of the fraction.
    pub closed spec fn numer_spec(self) -> int {
        self.numer as int
    }

    /// The denominator of the fraction.
    pub closed spec fn denom_spec(self) -> int {
        self.denom as int
    }

    /// The fraction is in lowest terms.
    #[verifier::type_invariant]
    pub open spec fn reduced(self) -> bool {
        lowest_terms(self.numer_spec(), self.denom_spec())
    }

    /// No time at all: zero whole notes.
    pub closed spec fn zero() -> Duration {
        Duration { numer: 0, denom: 1 }
    }

    /// Two durations are equal exactly when their numerators and denominators are.
    pub proof fn lemma_eq(a: Duration, b: Duration)
        ensures
            (a == b) <==> (a.numer_spec() == b.numer_spec() && a.denom_spec() == b.denom_spec()),
    {
    }

    /// No time at all: zero whole notes.
    #[allow(non_snake_case)]
    pub fn ZERO() -> (r: Duration)
        ensures
            r == Duration::zero(),
            r.numer_spec() == 0,
            r.denom_spec() == 1,
    {
        assert forall|k: int| !#[trigger] common_factor(0, 1, k) by {
            if k > 1 {
                vstd::arithmetic::div_mod::lemma_small_mod(1, k as nat);
            }
        }
        Duration { numer: 0, denom: 1 }
    }

    /// The numerator of the fraction.
    pub fn numer(&self) -> (r: u32)
        ensures
            r == self.numer_spec(),
    {
        self.numer
    }

    /// The denominator of the fraction.
    pub fn denom(&self) -> (r: u32)
        ensures
            r == self.denom_spec(),
            r > 0,
    {
        proof { use_type_invariant(self); }
        self.denom
    }

    /// `Ratio::new_raw`: the length as a `Ratio` of whole notes.
    #[verifier::external_body]
    pub fn ratio(self) -> Ratio<u32> {
        Ratio::new_raw(self.numer, self.denom)
    }
}

/// A written note length: `2^log_len` whole notes (a half note is `-1`, a
/// quarter `-2`), with a number of dots.
#[derive(Debug, Copy, Clone)]
pub struct WrittenDuration {
    log_len: i8,
    dots: u8,
}

impl WrittenDuration {
    /// The length as a power of two of a whole note.
    pub closed spec fn log_len_spec(self) -> int {
        self.log_len as int
    }

    /// The number of dots.
    pub closed spec fn dots_spec(self) -> int {
        self.dots as int
    }

    /// `2^log_len` whole notes, without dots.
    pub fn from_log_len(log_len: i8) -> (r: WrittenDuration)
        ensures
            r.log_len_spec() == log_len,
            r.dots_spec() == 0,
    {
        WrittenDuration { log_len, dots: 0 }
    }

    /// The same length with `dots` dots.
    pub fn with_dots(self, dots: u8) -> (r: WrittenDuration)
        ensures
            r.log_len_spec() == self.log_len_spec(),
            r.dots_spec() == dots,
    {
        WrittenDuration { dots, ..self }
    }

    /// The length in whole notes: `2^log_len`, and with `n` dots
    /// `2^log_len * (2 - 2^-n)`. The power, and the dots, must leave the fraction
    /// within `u32`: at most 31 halvings or doublings, at most 30 dots, and for
    /// lengths under a whole note with dots at most 31 halvings and dots together.
    pub fn duration(self) -> (r: Duration)
        requires
            -31 <= self.log_len_spec() <= 31,
            self.dots_spec() <= 30,
            self.log_len_spec() < 0 && self.dots_spec() > 0 ==> self.dots_spec() - self.log_len_spec() <= 31,
        ensures
            r.numer_spec() * length_denom(self.log_len_spec(), self.dots_spec() as nat)
                == length_numer(self.log_len_spec(), self.dots_spec() as nat) * r.denom_spec(),
    {
        let l = self.log_len;
        let d = self.dots;
        let pow: u32 = if l < 0 { (0 - (l as i32)) as u32 } else { l as u32 };
        let ghost p = pow as nat;
        proof {
            vstd::bits::lemma_u32_pow2_no_overflow(p);
            vstd::bits::lemma_u32_shl_is_mul(1, pow);
        }
        let mut base = ratio_from_integer(1u32 << pow);
        if l < 0 {
            base = ratio_recip(base.0, base.1);
        }
        proof {
            assert(pow2(0) == 1 && pow2(1) == 2) by { vstd::arithmetic::power2::lemma2_to64(); }
            assert forall|k: int| !#[trigger] common_factor(base.0 as int, base.1 as int, k) by {
                if 1 < k {
                    if l < 0 {
                        vstd::arithmetic::div_mod::lemma_small_mod(1, k as nat);
                    } else {
                        vstd::arithmetic::div_mod::lemma_small_mod(1, k as nat);
                    }
                }
            }
        }
        if d == 0 {
            proof {
                lemma_pow2_pos(p);
                assert(base.0 * length_denom(l as int, 0) == length_numer(l as int, 0) * base.1) by (nonlinear_arith)
                    requires
                        pow2(0) == 1,
                        pow2(1) == 2,
                        l < 0 ==> base == (1u32, pow2(p) as u32) && p == -l,
                        l >= 0 ==> base == (pow2(p) as u32, 1u32) && p == l,
                        pow2(p) < u32::MAX,
                ;
            }
            return Duration { numer: base.0, denom: base.1 };
        }
        let ghost dn = d as nat;
        proof {
            vstd::bits::lemma_u32_pow2_no_overflow(dn);
            vstd::bits::lemma_u32_shl_is_mul(1, d as u32);
            lemma_pow2_adds(dn, 1);
            vstd::bits::lemma_u32_pow2_no_overflow(dn + 1);
        }
        let two = ratio_from_integer(2);
        let shifted: u32 = 1u32 << d;
        let tail = ratio_sub(two, (1, shifted));
        let ghost m = pow2(dn + 1) - 1;
        proof {
            assert(tail.0 * pow2(dn) == m * tail.1) by (nonlinear_arith)
                requires
                    tail.0 * (1 * pow2(dn)) == (2 * pow2(dn) - 1 * 1) * tail.1,
                    pow2(dn + 1) == pow2(dn) * 2,
                    m == pow2(dn + 1) - 1,
            ;
            // the difference `m / 2^d` is already in lowest terms, so `tail` is it
            assert(m % 2 == 1) by {
                lemma_pow2_unfold(dn + 1);
                assert(m == 2 * pow2(dn) - 1);
            }
        }
        proof {
            lemma_odd_over_pow2(tail.0 as nat, tail.1 as nat, dn, m as nat);
            lemma_pow2_pos(dn);
            lemma_pow2_pos(p);
            if l >= 0 {
                lemma_gcd_pow2(p, dn);
                lemma_gcd_one(m as nat);
                let lo = if p <= dn { p } else { dn };
                vstd::arithmetic::power2::lemma_pow2_subtracts(lo, p);
                vstd::arithmetic::power2::lemma_pow2_subtracts(lo, dn);
                vstd::arithmetic::div_mod::lemma_div_basics(m as int);
                vstd::arithmetic::div_mod::lemma_div_basics(1 as int);
                assert(pow2(32) == 0x1_0000_0000) by { vstd::arithmetic::power2::lemma2_to64(); }
                if p <= dn {
                    assert(pow2(0) == 1);
                    vstd::arithmetic::power2::lemma_pow2_strictly_increases(dn + 1, 32);
                } else {
                    lemma_pow2_adds((p - dn) as nat, dn + 1);
                    vstd::arithmetic::power2::lemma_pow2_strictly_increases(p + 1, 33);
                    if p + 1 < 32 {
                        vstd::arithmetic::power2::lemma_pow2_strictly_increases(p + 1, 32);
                    }
                    assert(pow2((p - dn) as nat) * m == pow2(p + 1) - pow2((p - dn) as nat)) by (nonlinear_arith)
                        requires
                            m == pow2(dn + 1) - 1,
                            pow2((p - dn) as nat + (dn + 1)) == pow2((p - dn) as nat) * pow2(dn + 1),
                            (p - dn) as nat + (dn + 1) == p + 1,
                    ;
                }
            } else {
                lemma_gcd_one(pow2(dn));
                lemma_gcd_pow2_odd(p, m as nat);
                vstd::arithmetic::div_mod::lemma_div_basics(m as int);
                vstd::arithmetic::div_mod::lemma_div_basics(pow2(p) as int);
                vstd::arithmetic::div_mod::lemma_div_basics(pow2(dn) as int);
                lemma_pow2_adds(p, dn);
                vstd::bits::lemma_u32_pow2_no_overflow(p + dn);
            }
        }
        let r = ratio_mul(base, tail);
        proof {
            if l >= 0 {
                assert(r.0 * length_denom(l as int, dn) == length_numer(l as int, dn) * r.1) by (nonlinear_arith)
                    requires
                        r.0 * (1 * pow2(dn)) == pow2(p) * m * r.1,
                        length_denom(l as int, dn) == pow2(dn) * 1,
                        length_numer(l as int, dn) == m * pow2(p),
                ;
            } else {
                assert(r.0 * length_denom(l as int, dn) == length_numer(l as int, dn) * r.1) by (nonlinear_arith)
                    requires
                        r.0 * (pow2(p) * pow2(dn)) == 1 * m * r.1,
                        length_denom(l as int, dn) == pow2(dn) * pow2(p),
                        length_numer(l as int, dn) == m * 1,
                ;
            }
        }
        Duration { numer: r.0, denom: r.1 }
    }

    /// Eight whole notes.
    #[allow(non_snake_case)]
    pub fn OCTUPLE_WHOLE() -> (r: WrittenDuration)
        ensures
            r.log_len_spec() == 3 && r.dots_spec() == 0,
    {
        WrittenDuration::from_log_len(3)
    }

    /// Four whole notes.
    #[allow(non_snake_case)]
    pub fn QUADRUPLE_WHOLE() -> (r: WrittenDuration)
        ensures
            r.log_len_spec() == 2 && r.dots_spec() == 0,
    {
        WrittenDuration::from_log_len(2)
    }

    /// Two whole notes.
    #[allow(non_snake_case)]
    pub fn DOUBLE_WHOLE() -> (r: WrittenDuration)
        ensures
            r.log_len_spec() == 1 && r.dots_spec() == 0,
    {
        WrittenDuration::from_log_len(1)
    }

    /// A whole note.
    #[allow(non_snake_case)]
    pub fn WHOLE() -> (r: WrittenDuration)
        ensures
            r.log_len_spec() == 0 && r.dots_spec() == 0,
    {
        WrittenDuration::from_log_len(0)
    }

    /// A half note.
    #[allow(non_snake_case)]
    pub fn HALF() -> (r: WrittenDuration)
        ensures
            r.log_len_spec() == -1 && r.dots_spec() == 0,
    {
        WrittenDuration::from_log_len(-1)
    }

    /// A quarter note.
    #[allow(non_snake_case)]
    pub fn QUARTER() -> (r: WrittenDuration)
        ensures
            r.log_len_spec() == -2 && r.dots_spec() == 0,
    {
        WrittenDuration::from_log_len(-2)
    }

    /// An eighth note.
    #[allow(non_snake_case)]
    pub fn EIGHTH() -> (r: WrittenDuration)
        ensures
            r.log_len_spec() == -3 && r.dots_spec() == 0,
    {
        WrittenDuration::from_log_len(-3)
    }

    /// A sixteenth note.
    #[allow(non_snake_case)]
    pub fn SIXTEENTH() -> (r: WrittenDuration)
        ensures
            r.log_len_spec() == -4 && r.dots_spec() == 0,
    {
        WrittenDuration::from_log_len(-4)
    }

    /// A thirty-second note.
    #[allow(non_snake_case)]
    pub fn THIRTY_SECOND() -> (r: WrittenDuration)
        ensures
            r.log_len_spec() == -5 && r.dots_spec() == 0,
    {
        WrittenDuration::from_log_len(-5)
    }

    /// A sixty-fourth note.
    #[allow(non_snake_case)]
    pub fn SIXTY_FOURTH() -> (r: WrittenDuration)
        ensures
            r.log_len_spec() == -6 && r.dots_spec() == 0,
    {
        WrittenDuration::from_log_len(-6)
    }

    /// A hundred twenty-eighth note.
    #[allow(non_snake_case)]
    pub fn HUNDRED_TWENTY_EIGHTH() -> (r: WrittenDuration)
        ensures
            r.log_len_spec() == -7 && r.dots_spec() == 0,
    {
        WrittenDuration::from_log_len(-7)
    }

    /// A two hundred fifty-sixth note.
    #[allow(non_snake_case)]
    pub fn TWO_HUNDRED_FIFTY_SIXTH() -> (r: WrittenDuration)
        ensures
            r.log_len_spec() == -8 && r.dots_spec() == 0,
    {
        WrittenDuration::from_log_len(-8)
    }
}

/// A tempo in beats per minute, never zero.
#[derive(Copy, Clone, Debug, Eq, PartialEq, Ord, PartialOrd, Hash)]
pub struct Tempo(u16);

impl Tempo {
    /// The beats per minute.
    pub closed spec fn bpm(self) -> int {
        self.0 as int
    }

    /// A tempo is never zero beats per minute.
    #[verifier::type_invariant]
    pub open spec fn nonzero(self) -> bool {
        self.bpm() != 0
    }

    /// The tempo of `bpm` beats per minute, or `None` for zero.
    pub fn new(bpm: u16) -> (r: Option<Tempo>)
        ensures
            r is Some <==> bpm != 0,
            r matches Some(t) ==> t.bpm() == bpm,
    {
        if bpm == 0 {
            None
        } else {
            Some(Tempo(bpm))
        }
    }

    /// The beats per minute.
    pub fn get(self) -> (r: u16)
        ensures
            r == self.bpm(),
            r != 0,
    {
        proof { use_type_invariant(&self); }
        self.0
    }

    /// Larghissimo: 20 beats per minute.
    #[allow(non_snake_case)]
    pub fn LARGHISSIMO() -> (r: Tempo)
        ensures
            r.bpm() == 20,
    {
        Tempo(20)
    }

    /// Grave: 40 beats per minute.
    #[allow(non_snake_case)]
    pub fn GRAVE() -> (r: Tempo)
        ensures
            r.bpm() == 40,
    {
        Tempo(40)
    }

    /// Largo: 50 beats per minute.
    #[allow(non_snake_case)]
    pub fn LARGO() -> (r: Tempo)
        ensures
            r.bpm() == 50,
    {
        Tempo(50)
    }

    /// Adagio: 70 beats per minute.
    #[allow(non_snake_case)]
    pub fn ADAGIO() -> (r: Tempo)
        ensures
            r.bpm() == 70,
    {
        Tempo(70)
    }

    /// Andante: 80 beats per minute.
    #[allow(non_snake_case)]
    pub fn ANDANTE() -> (r: Tempo)
        ensures
            r.bpm() == 80,
    {
        Tempo(80)
    }

    /// Moderato: 110 beats per minute.
    #[allow(non_snake_case)]
    pub fn MODERATO() -> (r: Tempo)
        ensures
            r.bpm() == 110,
    {
        Tempo(110)
    }

    /// Allegro: 120 beats per minute.
    #[allow(non_snake_case)]
    pub fn ALLEGRO() -> (r: Tempo)
        ensures
            r.bpm() == 120,
    {
        Tempo(120)
    }

    /// Vivace: 140 beats per minute.
    #[allow(non_snake_case)]
    pub fn VIVACE() -> (r: Tempo)
        ensures
            r.bpm() == 140,
    {
        Tempo(140)
    }

    /// Presto: 180 beats per minute.
    #[allow(non_snake_case)]
    pub fn PRESTO() -> (r: Tempo)
        ensures
            r.bpm() == 180,
    {
        Tempo(180)
    }

    /// Prestissimo: 200 beats per minute.
    #[allow(non_snake_case)]
    pub fn PRESTISSIMO() -> (r: Tempo)
        ensures
            r.bpm() == 200,
    {
        Tempo(200)
    }
}

} // verus!
