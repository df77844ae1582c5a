//! Exact rational numbers.
//!
//! The evaluator's non-integer numbers are exact rationals with a 64-bit
//! numerator and a 32-bit denominator.  Every operation reduces its result
//! by the greatest common divisor, so equal values always have the same
//! representation, and structural equality of values coincides with
//! equality of the rationals they denote.  Arithmetic promotes both
//! operands, computes exactly in wide intermediates, reduces, and reports
//! an overflow when the reduced result does not fit the representation.

use vstd::prelude::*;

verus! {

use vstd::arithmetic::div_mod::{lemma_div_nonincreasing, lemma_div_non_zero, lemma_div_pos_is_pos};

/// Mathematical value of a rational: an unbounded numerator and denominator.
pub ghost struct Q {
    pub num: int,
    pub den: int,
}

/// Magnitude of an integer.
pub open spec fn iabs(n: int) -> nat {
    if n >= 0 {
        n as nat
    } else {
        (-n) as nat
    }
}

/// Greatest common divisor, by Euclid's algorithm.
pub open spec fn gcd(a: nat, b: nat) -> nat
    decreases b,
{
    if b == 0 {
        a
    } else {
        gcd(b, a % b)
    }
}

pub proof fn lemma_gcd_pos(a: nat, b: nat)
    requires
        b >= 1,
    ensures
        1 <= gcd(a, b) <= b,
    decreases b,
{
    if a % b == 0 {
        assert(gcd(a, b) == gcd(b, 0));
    } else {
        lemma_gcd_pos(b, a % b);
    }
}

/// The reduced form of the fraction `n / d`, for `d >= 1`: both magnitudes
/// divided by their greatest common divisor, the sign carried by the
/// numerator.
pub open spec fn q_norm(n: int, d: int) -> Q
    recommends
        d >= 1,
{
    if d <= 0 {
        Q { num: 0, den: 0 }
    } else {
        let g = gcd(iabs(n), iabs(d)) as int;
        if n >= 0 {
            Q { num: iabs(n) as int / g, den: iabs(d) as int / g }
        } else {
            Q { num: -(iabs(n) as int / g), den: iabs(d) as int / g }
        }
    }
}

/// The reduced form of `n / d` for any `d != 0`: the denominator's sign is
/// moved onto the numerator first.
pub open spec fn q_norm_signed(n: int, d: int) -> Q
    recommends
        d != 0,
{
    if d < 0 {
        q_norm(-n, -d)
    } else {
        q_norm(n, d)
    }
}

/// The exact sum of two rationals, in reduced form.
pub open spec fn q_add(a: Q, b: Q) -> Q {
    q_norm(a.num * b.den + b.num * a.den, a.den * b.den)
}

/// The exact difference of two rationals, in reduced form.
pub open spec fn q_sub(a: Q, b: Q) -> Q {
    q_norm(a.num * b.den - b.num * a.den, a.den * b.den)
}

/// The exact product of two rationals, in reduced form.
pub open spec fn q_mul(a: Q, b: Q) -> Q {
    q_norm(a.num * b.num, a.den * b.den)
}

/// The exact quotient of two rationals, in reduced form; meaningful only
/// for `b.num != 0`.
pub open spec fn q_div(a: Q, b: Q) -> Q
    recommends
        b.num != 0,
{
    q_norm_signed(a.num * b.den, a.den * b.num)
}

/// Whether a reduced rational fits the executable representation: a 64-bit
/// numerator and a 32-bit denominator.
pub open spec fn q_fits(q: Q) -> bool {
    &&& i64::MIN <= q.num <= i64::MAX
    &&& 1 <= q.den <= u32::MAX
}

/// An exact rational number; the constructors always deliver it in reduced
/// form, with the sign on the numerator and a denominator of at least 1.
#[derive(Clone, Copy, Debug, PartialEq, Eq, Structural)]
pub struct Rational {
    /// Numerator; carries the sign.
    pub num: i64,
    /// Denominator; at least 1 in every value the constructors build.
    pub den: u32,
}

impl View for Rational {
    type V = Q;

    open spec fn view(&self) -> Q {
        Q { num: self.num as int, den: self.den as int }
    }
}

impl Rational {
    /// Builds the reduced rational equal to `num / den`.
    pub fn new(num: i64, den: u32) -> (r: Rational)
        requires
            den >= 1,
        ensures
            r@ == q_norm(num as int, den as int),
    {
        let r = reduce_fraction(num as i128, den as u128);
        proof {
            let g = gcd(iabs(num as int), den as nat) as int;
            lemma_gcd_pos(iabs(num as int), den as nat);
            lemma_div_nonincreasing(iabs(num as int) as int, g);
            lemma_div_pos_is_pos(iabs(num as int) as int, g);
            lemma_div_nonincreasing(den as int, g);
            lemma_div_non_zero(den as int, g);
        }
        match r {
            Some(v) => v,
            None => Rational { num: 0, den: 1 },  // cannot happen: the input fits
        }
    }

    /// The rational equal to the integer `i`.
    pub fn from_integer(i: i64) -> (r: Rational)
        ensures
            r@ == (Q { num: i as int, den: 1 }),
            r@ == q_norm(i as int, 1),
    {
        proof {
            lemma_gcd_one_right(iabs(i as int));
            vstd::arithmetic::div_mod::lemma_div_basics(iabs(i as int) as int);
            vstd::arithmetic::div_mod::lemma_div_basics(1);
        }
        Rational { num: i, den: 1 }
    }

    /// Whether the value is exactly zero.
    pub fn is_zero(&self) -> (r: bool)
        ensures
            r == (self@.num == 0),
    {
        self.num == 0
    }

    /// The reduced sum, or `None` when it does not fit the representation.
    pub fn add(&self, other: &Rational) -> (r: Option<Rational>)
        ensures
            r is Some <==> q_fits(q_add(self@, other@)),
            r matches Some(v) ==> v@ == q_add(self@, other@) && v.den >= 1,
    {
        proof {
            lemma_mul_num_den_bounds(self.num as int, other.den as int);
            lemma_mul_num_den_bounds(other.num as int, self.den as int);
            lemma_mul_den_den_bounds(self.den as int, other.den as int);
        }
        let n = self.num as i128 * other.den as i128 + other.num as i128 * self.den as i128;
        let d = self.den as u128 * other.den as u128;
        reduce_fraction(n, d)
    }

    /// The reduced difference, or `None` when it does not fit.
    pub fn sub(&self, other: &Rational) -> (r: Option<Rational>)
        ensures
            r is Some <==> q_fits(q_sub(self@, other@)),
            r matches Some(v) ==> v@ == q_sub(self@, other@) && v.den >= 1,
    {
        proof {
            lemma_mul_num_den_bounds(self.num as int, other.den as int);
            lemma_mul_num_den_bounds(other.num as int, self.den as int);
            lemma_mul_den_den_bounds(self.den as int, other.den as int);
        }
        let n = self.num as i128 * other.den as i128 - other.num as i128 * self.den as i128;
        let d = self.den as u128 * other.den as u128;
        reduce_fraction(n, d)
    }

    /// The reduced product, or `None` when it does not fit.
    pub fn mul(&self, other: &Rational) -> (r: Option<Rational>)
        ensures
            r is Some <==> q_fits(q_mul(self@, other@)),
            r matches Some(v) ==> v@ == q_mul(self@, other@) && v.den >= 1,
    {
        proof {
            lemma_mul_num_num_bounds(self.num as int, other.num as int);
            lemma_mul_den_den_bounds(self.den as int, other.den as int);
        }
        let n = self.num as i128 * other.num as i128;
        let d = self.den as u128 * other.den as u128;
        reduce_fraction(n, d)
    }

    /// The reduced quotient, or `None` when it does not fit; the divisor
    /// must not be zero.
    pub fn div(&self, other: &Rational) -> (r: Option<Rational>)
        requires
            other@.num != 0,
        ensures
            r is Some <==> q_fits(q_div(self@, other@)),
            r matches Some(v) ==> v@ == q_div(self@, other@) && v.den >= 1,
    {
        proof {
            lemma_mul_num_den_bounds(self.num as int, other.den as int);
            lemma_mul_num_den_bounds(other.num as int, self.den as int);
            assert(self.den as int * other.num as int == other.num as int * self.den as int)
                by (nonlinear_arith);
        }
        let n = self.num as i128 * other.den as i128;
        let d = self.den as i128 * other.num as i128;
        if d < 0 {
            reduce_fraction(-n, (-d) as u128)
        } else {
            reduce_fraction(n, d as u128)
        }
    }
}

/// gcd(a, 1) is 1, so integers over 1 are already reduced.
pub proof fn lemma_gcd_one_right(a: nat)
    ensures
        gcd(a, 1) == 1,
{
    assert(gcd(a, 1) == gcd(1, 0));
}

/// Bounds for the product of a 64-bit numerator and a 32-bit denominator.
proof fn lemma_mul_num_den_bounds(a: int, b: int) by (nonlinear_arith)
    requires
        i64::MIN <= a <= i64::MAX,
        0 <= b <= u32::MAX,
    ensures
        i64::MIN * (u32::MAX as int) <= a * b <= i64::MAX * (u32::MAX as int),
{
}

/// Bounds for the product of two 64-bit numerators.
proof fn lemma_mul_num_num_bounds(a: int, b: int) by (nonlinear_arith)
    requires
        i64::MIN <= a <= i64::MAX,
        i64::MIN <= b <= i64::MAX,
    ensures
        a * b <= i64::MIN * i64::MIN,
        a * b >= i64::MIN * i64::MAX,
{
}

/// Bounds for the product of two 32-bit denominators.
proof fn lemma_mul_den_den_bounds(a: int, b: int) by (nonlinear_arith)
    requires
        0 <= a <= u32::MAX,
        0 <= b <= u32::MAX,
    ensures
        0 <= a * b <= (u32::MAX as int) * (u32::MAX as int),
{
}

/// Euclid's algorithm on machine words, equal to the spec `gcd`.
fn gcd_u128(a0: u128, b0: u128) -> (g: u128)
    ensures
        g == gcd(a0 as nat, b0 as nat),
{
    let mut a = a0;
    let mut b = b0;
    while b != 0
        invariant
            gcd(a as nat, b as nat) == gcd(a0 as nat, b0 as nat),
        decreases b,
    {
        let t = a % b;
        a = b;
        b = t;
    }
    a
}

/// Reduces `n / d` (with `d >= 1`) and returns it when it fits the
/// representation.
fn reduce_fraction(n: i128, d: u128) -> (r: Option<Rational>)
    requires
        n > i128::MIN,
    ensures
        r is Some <==> q_fits(q_norm(n as int, d as int)),
        r matches Some(v) ==> v@ == q_norm(n as int, d as int) && v.den >= 1,
{
    if d == 0 {
        // the reduced form of a zero denominator never fits
        return None;
    }
    let (mag, neg) = if n >= 0 {
        (n as u128, false)
    } else {
        ((-n) as u128, true)
    };
    let g = gcd_u128(mag, d);
    proof {
        lemma_gcd_pos(mag as nat, d as nat);
        lemma_div_nonincreasing(mag as int, g as int);
        lemma_div_pos_is_pos(mag as int, g as int);
        lemma_div_nonincreasing(d as int, g as int);
        lemma_div_non_zero(d as int, g as int);
    }
    let rn = mag / g;
    let rd = d / g;
    if rd > u32::MAX as u128 {
        return None;
    }
    if neg {
        if rn > i64::MAX as u128 + 1 {
            None
        } else if rn == i64::MAX as u128 + 1 {
            Some(Rational { num: i64::MIN, den: rd as u32 })
        } else {
            Some(Rational { num: -(rn as i64), den: rd as u32 })
        }
    } else {
        if rn > i64::MAX as u128 {
            None
        } else {
            Some(Rational { num: rn as i64, den: rd as u32 })
        }
    }
}

} // verus!
