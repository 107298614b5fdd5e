//! Exact rational arithmetic on `i64` numerator / denominator pairs.
//!
//! Every operation reduces its result by the greatest common divisor and
//! reports `None` when the reduced result does not fit the `i64` range, so
//! a value that comes back `Some` is always the mathematically exact result.

use vstd::arithmetic::div_mod::{
    lemma_fundamental_div_mod, lemma_div_multiples_vanish, lemma_mod_multiples_vanish,
    lemma_mod_self_0, lemma_small_mod,
};
use vstd::prelude::*;

verus! {

/// Mathematical model of a rational: an unbounded numerator / denominator pair.
pub struct Ratio {
    pub n: int,
    pub d: int,
}

/// A model pair denotes a rational only when its denominator is positive.
pub open spec fn rv_wf(a: Ratio) -> bool {
    a.d > 0
}

/// The two pairs denote the same rational (cross multiplication).
pub open spec fn rv_eq(a: Ratio, b: Ratio) -> bool {
    a.n * b.d == b.n * a.d
}

/// `a <= b` as rationals (for well-formed pairs).
pub open spec fn rv_le(a: Ratio, b: Ratio) -> bool {
    a.n * b.d <= b.n * a.d
}

/// `a < b` as rationals (for well-formed pairs).
pub open spec fn rv_lt(a: Ratio, b: Ratio) -> bool {
    a.n * b.d < b.n * a.d
}

/// The rational with value `n`.
pub open spec fn rv_int(n: int) -> Ratio {
    Ratio { n, d: 1 }
}

pub open spec fn rv_zero() -> Ratio {
    rv_int(0)
}

pub open spec fn rv_neg(a: Ratio) -> Ratio {
    Ratio { n: -a.n, d: a.d }
}

pub open spec fn rv_add(a: Ratio, b: Ratio) -> Ratio {
    Ratio { n: a.n * b.d + b.n * a.d, d: a.d * b.d }
}

pub open spec fn rv_sub(a: Ratio, b: Ratio) -> Ratio {
    Ratio { n: a.n * b.d - b.n * a.d, d: a.d * b.d }
}

pub open spec fn rv_mul(a: Ratio, b: Ratio) -> Ratio {
    Ratio { n: a.n * b.n, d: a.d * b.d }
}

/// Exact quotient; only meaningful when `b.n != 0`.  The sign of the divisor's
/// numerator moves into the result's numerator so that the result stays
/// well-formed.
pub open spec fn rv_div(a: Ratio, b: Ratio) -> Ratio {
    if b.n >= 0 {
        Ratio { n: a.n * b.d, d: a.d * b.n }
    } else {
        Ratio { n: -(a.n * b.d), d: -(a.d * b.n) }
    }
}

/// Magnitude of an integer.
pub open spec fn mag(n: int) -> int {
    if n < 0 {
        -n
    } else {
        n
    }
}

/// Euclid's greatest common divisor.
pub open spec fn gcd_n(a: nat, b: nat) -> nat
    decreases b,
{
    if b == 0 {
        a
    } else {
        gcd_n(b, a % b)
    }
}

/// `x` fits the symmetric `i64` range used for reduced components.
pub open spec fn ok64(x: int) -> bool {
    -(i64::MAX as int) <= x <= i64::MAX as int
}

/// The reduced form of `n / d` (for `d > 0`).
pub open spec fn norm_v(n: int, d: int) -> Ratio {
    let g = gcd_n(mag(n) as nat, d as nat) as int;
    Ratio { n: n / g, d: d / g }
}

/// Reduce `n / d` and keep it only when the reduced pair fits `i64`.
pub open spec fn mk_rat(n: int, d: int) -> Option<Ratio> {
    let r = norm_v(n, d);
    if ok64(r.n) && ok64(r.d) {
        Some(r)
    } else {
        None
    }
}

/// Reduce `n / d` (for `d > 0`, rejecting a nonpositive denominator).
pub open spec fn spec_new(n: int, d: int) -> Option<Ratio> {
    if d <= 0 {
        None
    } else {
        mk_rat(n, d)
    }
}

/// Exact sum, reduced, `None` when it leaves the machine range.
pub open spec fn spec_add(a: Ratio, b: Ratio) -> Option<Ratio> {
    mk_rat(a.n * b.d + b.n * a.d, a.d * b.d)
}

/// Exact difference, reduced, `None` when it leaves the machine range.
pub open spec fn spec_sub(a: Ratio, b: Ratio) -> Option<Ratio> {
    mk_rat(a.n * b.d - b.n * a.d, a.d * b.d)
}

/// Exact product, reduced, `None` when it leaves the machine range.
pub open spec fn spec_mul(a: Ratio, b: Ratio) -> Option<Ratio> {
    mk_rat(a.n * b.n, a.d * b.d)
}

/// Exact quotient (for `b.n != 0`), reduced, `None` when it leaves the
/// machine range.
pub open spec fn spec_div(a: Ratio, b: Ratio) -> Option<Ratio> {
    if b.n > 0 {
        mk_rat(a.n * b.d, a.d * b.n)
    } else {
        mk_rat(-(a.n * b.d), -(a.d * b.n))
    }
}

/// Euclid's algorithm divides both arguments and is positive when one is.
pub proof fn lemma_gcd_divides(a: nat, b: nat)
    requires
        a > 0 || b > 0,
    ensures
        gcd_n(a, b) > 0,
        a % gcd_n(a, b) == 0,
        b % gcd_n(a, b) == 0,
    decreases b,
{
    if b == 0 {
        lemma_mod_self_0(a as int);
        lemma_small_mod(0, a);
    } else {
        let g = gcd_n(b, a % b);
        lemma_gcd_divides(b, a % b);
        lemma_fundamental_div_mod(a as int, b as int);
        lemma_fundamental_div_mod(b as int, g as int);
        lemma_fundamental_div_mod((a % b) as int, g as int);
        let k = b as int / g as int;
        let j = (a % b) as int / g as int;
        let q = a as int / b as int;
        assert(a as int == g as int * (k * q + j)) by (nonlinear_arith)
            requires
                a as int == b as int * q + (a % b) as int,
                b as int == g as int * k,
                (a % b) as int == g as int * j,
        ;
        lemma_mod_multiples_vanish(k * q + j, 0, g as int);
        lemma_small_mod(0, g);
    }
}

/// The reduced pair denotes the same rational and is well-formed.
pub proof fn lemma_mk_value(n: int, d: int)
    requires
        d > 0,
    ensures
        rv_eq(norm_v(n, d), Ratio { n, d }),
        rv_wf(norm_v(n, d)),
{
    let g = gcd_n(mag(n) as nat, d as nat) as int;
    lemma_gcd_divides(mag(n) as nat, d as nat);
    lemma_fundamental_div_mod(mag(n), g);
    lemma_fundamental_div_mod(d, g);
    if n < 0 {
        assert(n == g * (-(mag(n) / g))) by (nonlinear_arith)
            requires
                mag(n) == g * (mag(n) / g),
                n == -mag(n),
        ;
        lemma_div_multiples_vanish(-(mag(n) / g), g);
    }
    assert(n == g * (n / g));
    assert((n / g) * d == n * (d / g)) by (nonlinear_arith)
        requires
            n == g * (n / g),
            d == g * (d / g),
    ;
    assert(d / g > 0) by (nonlinear_arith)
        requires
            d == g * (d / g),
            d > 0,
            g > 0,
    ;
}

/// Two pairs that denote the same rational agree on the sign of the numerator.
pub proof fn lemma_pos_of_eq(a: Ratio, b: Ratio)
    requires
        rv_wf(a),
        rv_wf(b),
        rv_eq(a, b),
        b.n > 0,
    ensures
        a.n > 0,
{
    assert(a.n > 0) by (nonlinear_arith)
        requires
            a.n * b.d == b.n * a.d,
            b.n > 0,
            a.d > 0,
            b.d > 0,
    ;
}

/// A successful sum denotes the exact rational sum.
pub proof fn lemma_add_value(a: Ratio, b: Ratio)
    requires
        rv_wf(a),
        rv_wf(b),
    ensures
        spec_add(a, b) matches Some(r) ==> rv_eq(r, rv_add(a, b)) && rv_wf(r),
{
    assert(a.d * b.d > 0) by (nonlinear_arith)
        requires
            a.d > 0,
            b.d > 0,
    ;
    lemma_mk_value(a.n * b.d + b.n * a.d, a.d * b.d);
}

/// A successful difference denotes the exact rational difference.
pub proof fn lemma_sub_value(a: Ratio, b: Ratio)
    requires
        rv_wf(a),
        rv_wf(b),
    ensures
        spec_sub(a, b) matches Some(r) ==> rv_eq(r, rv_sub(a, b)) && rv_wf(r),
{
    assert(a.d * b.d > 0) by (nonlinear_arith)
        requires
            a.d > 0,
            b.d > 0,
    ;
    lemma_mk_value(a.n * b.d - b.n * a.d, a.d * b.d);
}

/// A successful product denotes the exact rational product.
pub proof fn lemma_mul_value(a: Ratio, b: Ratio)
    requires
        rv_wf(a),
        rv_wf(b),
    ensures
        spec_mul(a, b) matches Some(r) ==> rv_eq(r, rv_mul(a, b)) && rv_wf(r),
{
    assert(a.d * b.d > 0) by (nonlinear_arith)
        requires
            a.d > 0,
            b.d > 0,
    ;
    lemma_mk_value(a.n * b.n, a.d * b.d);
}

/// A successful quotient denotes the exact rational quotient.
pub proof fn lemma_div_value(a: Ratio, b: Ratio)
    requires
        rv_wf(a),
        rv_wf(b),
        b.n != 0,
    ensures
        spec_div(a, b) matches Some(r) ==> rv_eq(r, rv_div(a, b)) && rv_wf(r),
{
    if b.n > 0 {
        assert(a.d * b.n > 0) by (nonlinear_arith)
            requires
                a.d > 0,
                b.n > 0,
        ;
        lemma_mk_value(a.n * b.d, a.d * b.n);
    } else {
        assert(-(a.d * b.n) > 0) by (nonlinear_arith)
            requires
                a.d > 0,
                b.n < 0,
        ;
        lemma_mk_value(-(a.n * b.d), -(a.d * b.n));
    }
}

/// The sum of two positive rationals is positive when it fits.
pub proof fn lemma_add_pos(a: Ratio, b: Ratio)
    requires
        rv_wf(a),
        rv_wf(b),
        a.n > 0,
        b.n > 0,
    ensures
        spec_add(a, b) matches Some(r) ==> r.n > 0 && rv_wf(r),
{
    lemma_add_value(a, b);
    let nn = a.n * b.d + b.n * a.d;
    let dd = a.d * b.d;
    assert(nn > 0 && dd > 0) by (nonlinear_arith)
        requires
            nn == a.n * b.d + b.n * a.d,
            dd == a.d * b.d,
            a.n > 0,
            b.n > 0,
            a.d > 0,
            b.d > 0,
    ;
    match spec_add(a, b) {
        Some(r) => {
            lemma_pos_of_eq(r, rv_add(a, b));
        },
        None => {},
    }
}

/// A product of two `i64`-range factors stays well inside `i128`.
proof fn lemma_mul_bound_64(x: int, y: int)
    by (nonlinear_arith)
    requires
        -(i64::MAX as int) <= x <= i64::MAX as int,
        -(i64::MAX as int) <= y <= i64::MAX as int,
    ensures
        -((i64::MAX as int) * (i64::MAX as int)) <= x * y <= (i64::MAX as int) * (i64::MAX as int),
{
}

/// An exact rational held in machine integers, always with `den > 0`.
#[derive(Clone, Copy, Debug, PartialEq, Eq, Structural)]
pub struct Rat {
    pub num: i64,
    pub den: i64,
}

impl View for Rat {
    type V = Ratio;

    open spec fn view(&self) -> Ratio {
        Ratio { n: self.num as int, d: self.den as int }
    }
}

/// Machine representation invariant: positive denominator, and a numerator
/// whose negation still fits (so negation is total).
pub open spec fn rat_wf(r: Rat) -> bool {
    r.den > 0 && r.num > i64::MIN
}

/// The model a fallible operation returned, if any.
pub open spec fn opt_view(r: Option<Rat>) -> Option<Ratio> {
    match r {
        Some(x) => Some(x@),
        None => None,
    }
}

/// Euclid's algorithm on machine words.
fn gcd_u(a: u128, b: u128) -> (g: u128)
    requires
        a > 0 || b > 0,
    ensures
        g as nat == gcd_n(a as nat, b as nat),
        g > 0,
{
    let mut x: u128 = a;
    let mut y: u128 = b;
    while y != 0
        invariant
            x > 0 || y > 0,
            gcd_n(x as nat, y as nat) == gcd_n(a as nat, b as nat),
        decreases y,
    {
        let t: u128 = x % y;
        x = y;
        y = t;
    }
    x
}

/// Reduce the wide pair `n / d` and move it back into `i64` components.
fn norm_parts(n: i128, d: i128) -> (r: Option<Rat>)
    requires
        d > 0,
        n > i128::MIN,
    ensures
        opt_view(r) == mk_rat(n as int, d as int),
        r matches Some(x) ==> rat_wf(x),
{
    let neg = n < 0;
    let na: u128 = (if neg {
        -n
    } else {
        n
    }) as u128;
    let du: u128 = d as u128;
    proof {
        assert(na as int == mag(n as int));
    }
    let g: u128 = gcd_u(na, du);
    let nq: u128 = na / g;
    let dq: u128 = du / g;
    proof {
        lemma_gcd_divides(na as nat, du as nat);
        lemma_fundamental_div_mod(na as int, g as int);
        lemma_fundamental_div_mod(du as int, g as int);
        assert(dq >= 1) by (nonlinear_arith)
            requires
                du as int == g as int * (dq as int),
                du > 0,
                g > 0,
        ;
        if neg {
            assert(n as int == g as int * (-(nq as int))) by (nonlinear_arith)
                requires
                    na as int == g as int * (nq as int),
                    n as int == -(na as int),
            ;
            lemma_div_multiples_vanish(-(nq as int), g as int);
        }
        assert(n as int / g as int == if neg {
            -(nq as int)
        } else {
            nq as int
        });
    }
    if nq <= (i64::MAX as u128) && dq <= (i64::MAX as u128) {
        let den: i64 = dq as i64;
        let num: i64 = if neg {
            -(nq as i64)
        } else {
            nq as i64
        };
        Some(Rat { num, den })
    } else {
        None
    }
}

impl Rat {
    /// Reduced rational `num / den`; `None` when `den` is not positive or the
    /// reduced value leaves the machine range.
    pub fn new(num: i64, den: i64) -> (r: Option<Rat>)
        ensures
            opt_view(r) == spec_new(num as int, den as int),
            r matches Some(x) ==> rat_wf(x),
    {
        if den <= 0 {
            None
        } else {
            norm_parts(num as i128, den as i128)
        }
    }

    /// Exact sum; `None` when the reduced result leaves the machine range.
    pub fn add(&self, other: &Rat) -> (r: Option<Rat>)
        requires
            rat_wf(*self),
            rat_wf(*other),
        ensures
            opt_view(r) == spec_add(self@, other@),
            r matches Some(x) ==> rat_wf(x),
    {
        proof {
            lemma_mul_bound_64(self.num as int, other.den as int);
            lemma_mul_bound_64(other.num as int, self.den as int);
            vstd::arithmetic::mul::lemma_mul_strictly_positive(self.den as int, other.den as int);
            lemma_mul_bound_64(self.den as int, other.den as int);
        }
        let p: i128 = (self.num as i128) * (other.den as i128);
        let q: i128 = (other.num as i128) * (self.den as i128);
        let dd: i128 = (self.den as i128) * (other.den as i128);
        norm_parts(p + q, dd)
    }

    /// Exact difference; `None` when the reduced result leaves the machine range.
    pub fn sub(&self, other: &Rat) -> (r: Option<Rat>)
        requires
            rat_wf(*self),
            rat_wf(*other),
        ensures
            opt_view(r) == spec_sub(self@, other@),
            r matches Some(x) ==> rat_wf(x),
    {
        proof {
            lemma_mul_bound_64(self.num as int, other.den as int);
            lemma_mul_bound_64(other.num as int, self.den as int);
            vstd::arithmetic::mul::lemma_mul_strictly_positive(self.den as int, other.den as int);
            lemma_mul_bound_64(self.den as int, other.den as int);
        }
        let p: i128 = (self.num as i128) * (other.den as i128);
        let q: i128 = (other.num as i128) * (self.den as i128);
        let dd: i128 = (self.den as i128) * (other.den as i128);
        norm_parts(p - q, dd)
    }

    /// Exact product; `None` when the reduced result leaves the machine range.
    pub fn mul(&self, other: &Rat) -> (r: Option<Rat>)
        requires
            rat_wf(*self),
            rat_wf(*other),
        ensures
            opt_view(r) == spec_mul(self@, other@),
            r matches Some(x) ==> rat_wf(x),
    {
        proof {
            lemma_mul_bound_64(self.num as int, other.num as int);
            vstd::arithmetic::mul::lemma_mul_strictly_positive(self.den as int, other.den as int);
            lemma_mul_bound_64(self.den as int, other.den as int);
        }
        let p: i128 = (self.num as i128) * (other.num as i128);
        let dd: i128 = (self.den as i128) * (other.den as i128);
        norm_parts(p, dd)
    }

    /// Exact quotient by a nonzero rational; `None` when the reduced result
    /// leaves the machine range.
    pub fn div(&self, other: &Rat) -> (r: Option<Rat>)
        requires
            rat_wf(*self),
            rat_wf(*other),
            other@.n != 0,
        ensures
            opt_view(r) == spec_div(self@, other@),
            r matches Some(x) ==> rat_wf(x),
    {
        proof {
            lemma_mul_bound_64(self.num as int, other.den as int);
            lemma_mul_bound_64(self.den as int, other.num as int);
        }
        let p: i128 = (self.num as i128) * (other.den as i128);
        let dd: i128 = (self.den as i128) * (other.num as i128);
        if other.num > 0 {
            proof {
                vstd::arithmetic::mul::lemma_mul_strictly_positive(
                    self.den as int,
                    other.num as int,
                );
            }
            norm_parts(p, dd)
        } else {
            proof {
                vstd::arithmetic::mul::lemma_mul_strictly_positive(
                    self.den as int,
                    -(other.num as int),
                );
                vstd::arithmetic::mul::lemma_mul_unary_negation(
                    self.den as int,
                    other.num as int,
                );
            }
            norm_parts(-p, -dd)
        }
    }

    /// The rational with integer value `v`.
    pub fn from_int(v: i64) -> (r: Rat)
        requires
            v > i64::MIN,
        ensures
            r@ == rv_int(v as int),
            rat_wf(r),
    {
        Rat { num: v, den: 1 }
    }

    /// Exact negation.
    pub fn neg(&self) -> (r: Rat)
        requires
            rat_wf(*self),
        ensures
            r@ == rv_neg(self@),
            rat_wf(r),
    {
        Rat { num: -self.num, den: self.den }
    }

    /// Exact comparison.
    pub fn le(&self, other: &Rat) -> (r: bool)
        requires
            rat_wf(*self),
            rat_wf(*other),
        ensures
            r == rv_le(self@, other@),
    {
        proof {
            lemma_mul_bound_64(self.num as int, other.den as int);
            lemma_mul_bound_64(other.num as int, self.den as int);
        }
        (self.num as i128) * (other.den as i128) <= (other.num as i128) * (self.den as i128)
    }

    /// Exact strict comparison.
    pub fn lt(&self, other: &Rat) -> (r: bool)
        requires
            rat_wf(*self),
            rat_wf(*other),
        ensures
            r == rv_lt(self@, other@),
    {
        proof {
            lemma_mul_bound_64(self.num as int, other.den as int);
            lemma_mul_bound_64(other.num as int, self.den as int);
        }
        (self.num as i128) * (other.den as i128) < (other.num as i128) * (self.den as i128)
    }
}

} // verus!
