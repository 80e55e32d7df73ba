//! Exact rational ray parameters.
//!
//! A ray parameter is a fraction `num / den` with a positive denominator.
//! Both parts are kept below `2^63` in magnitude, so any two well-formed
//! rationals can be compared exactly by cross-multiplying in `i128`.

use vstd::prelude::*;

verus! {

/// A rational number `num / den` with `den > 0`.
#[derive(Clone, Copy, PartialEq, Eq, Structural, Debug)]
pub struct Rat {
    pub num: i128,
    pub den: i128,
}

/// Magnitude bound on both parts of a well-formed rational: `2^63`.
pub open spec fn rat_bound() -> int {
    0x8000_0000_0000_0000
}

/// Well-formed: positive denominator, both parts below the bound in magnitude.
pub open spec fn rat_wf(r: Rat) -> bool {
    0 < r.den < rat_bound() && -rat_bound() <= r.num < rat_bound()
}

/// Order on rationals by cross-multiplication: `a <= b`.
pub open spec fn rat_le(a: Rat, b: Rat) -> bool {
    a.num * b.den <= b.num * a.den
}

/// Strict order on rationals: `a < b`.
pub open spec fn rat_lt(a: Rat, b: Rat) -> bool {
    a.num * b.den < b.num * a.den
}

/// Equality of the represented values (the pairs may differ).
pub open spec fn rat_eq(a: Rat, b: Rat) -> bool {
    a.num * b.den == b.num * a.den
}

/// The larger of two rationals (the right one when equal).
pub open spec fn spec_rat_max(a: Rat, b: Rat) -> Rat {
    if rat_le(a, b) {
        b
    } else {
        a
    }
}

/// The smaller of two rationals (the right one when equal).
pub open spec fn spec_rat_min(a: Rat, b: Rat) -> Rat {
    if rat_le(b, a) {
        b
    } else {
        a
    }
}

/// `|x| <= a` and `|y| <= b` bound the product by `a * b`.
pub proof fn lemma_abs_mul_bound(x: int, y: int, a: int, b: int)
    requires
        -a <= x <= a,
        -b <= y <= b,
    ensures
        -(a * b) <= x * y <= a * b,
{
    assert(-(a * b) <= x * y <= a * b) by (nonlinear_arith)
        requires
            -a <= x <= a,
            -b <= y <= b,
    ;
}

/// The order on rationals is transitive.
pub proof fn lemma_rat_le_trans(a: Rat, b: Rat, c: Rat)
    requires
        rat_wf(a),
        rat_wf(b),
        rat_wf(c),
        rat_le(a, b),
        rat_le(b, c),
    ensures
        rat_le(a, c),
{
    assert(a.num * c.den <= c.num * a.den) by (nonlinear_arith)
        requires
            a.den > 0,
            b.den > 0,
            c.den > 0,
            a.num * b.den <= b.num * a.den,
            b.num * c.den <= c.num * b.den,
    ;
}

/// A strict bound on the left of a chain keeps the chain strict.
pub proof fn lemma_rat_lt_le_trans(a: Rat, b: Rat, c: Rat)
    requires
        rat_wf(a),
        rat_wf(b),
        rat_wf(c),
        rat_lt(a, b),
        rat_le(b, c),
    ensures
        rat_lt(a, c),
{
    assert(a.num * c.den < c.num * a.den) by (nonlinear_arith)
        requires
            a.den > 0,
            b.den > 0,
            c.den > 0,
            a.num * b.den < b.num * a.den,
            b.num * c.den <= c.num * b.den,
    ;
}

/// A strict bound on the right of a chain keeps the chain strict.
pub proof fn lemma_rat_le_lt_trans(a: Rat, b: Rat, c: Rat)
    requires
        rat_wf(a),
        rat_wf(b),
        rat_wf(c),
        rat_le(a, b),
        rat_lt(b, c),
    ensures
        rat_lt(a, c),
{
    assert(a.num * c.den < c.num * a.den) by (nonlinear_arith)
        requires
            a.den > 0,
            b.den > 0,
            c.den > 0,
            a.num * b.den <= b.num * a.den,
            b.num * c.den < c.num * b.den,
    ;
}

/// The strict order on rationals is transitive.
pub proof fn lemma_rat_lt_trans(a: Rat, b: Rat, c: Rat)
    requires
        rat_wf(a),
        rat_wf(b),
        rat_wf(c),
        rat_lt(a, b),
        rat_lt(b, c),
    ensures
        rat_lt(a, c),
{
    assert(a.num * c.den < c.num * a.den) by (nonlinear_arith)
        requires
            a.den > 0,
            b.den > 0,
            c.den > 0,
            a.num * b.den < b.num * a.den,
            b.num * c.den < c.num * b.den,
    ;
}

/// The rational zero.
pub open spec fn rat_zero() -> Rat {
    Rat { num: 0i128, den: 1i128 }
}

/// The maximum is an upper bound of both arguments.
pub proof fn lemma_rat_max_ub(a: Rat, b: Rat)
    requires
        rat_wf(a),
        rat_wf(b),
    ensures
        rat_le(a, spec_rat_max(a, b)),
        rat_le(b, spec_rat_max(a, b)),
{
}

/// The minimum is a lower bound of both arguments.
pub proof fn lemma_rat_min_lb(a: Rat, b: Rat)
    requires
        rat_wf(a),
        rat_wf(b),
    ensures
        rat_le(spec_rat_min(a, b), a),
        rat_le(spec_rat_min(a, b), b),
{
}

/// Maximum and minimum are monotone in both arguments.
pub proof fn lemma_rat_max_min_mono(a: Rat, b: Rat, a2: Rat, b2: Rat)
    requires
        rat_wf(a),
        rat_wf(b),
        rat_wf(a2),
        rat_wf(b2),
        rat_le(a, a2),
        rat_le(b, b2),
    ensures
        rat_le(spec_rat_max(a, b), spec_rat_max(a2, b2)),
        rat_le(spec_rat_min(a, b), spec_rat_min(a2, b2)),
{
    lemma_rat_max_ub(a2, b2);
    lemma_rat_min_lb(a, b);
    let m = spec_rat_max(a, b);
    let m2 = spec_rat_max(a2, b2);
    if rat_le(a, b) {
        lemma_rat_le_trans(m, b2, m2);
    } else {
        lemma_rat_le_trans(m, a2, m2);
    }
    let n = spec_rat_min(a, b);
    let n2 = spec_rat_min(a2, b2);
    if rat_le(b2, a2) {
        lemma_rat_le_trans(n, b, n2);
    } else {
        lemma_rat_le_trans(n, a, n2);
    }
}

impl Rat {
    /// Build a rational from 64-bit parts; any such pair is well-formed.
    pub fn new(num: i64, den: i64) -> (r: Rat)
        requires
            den > 0,
        ensures
            r.num == num,
            r.den == den,
            rat_wf(r),
    {
        Rat { num: num as i128, den: den as i128 }
    }

    /// The rational for a plain integer.
    pub fn from_int(num: i64) -> (r: Rat)
        ensures
            r.num == num,
            r.den == 1,
            rat_wf(r),
    {
        Rat { num: num as i128, den: 1 }
    }

    /// Exact comparison `self <= other` by cross-multiplication.
    pub fn le(&self, other: &Rat) -> (r: bool)
        requires
            rat_wf(*self),
            rat_wf(*other),
        ensures
            r == rat_le(*self, *other),
    {
        proof {
            lemma_abs_mul_bound(self.num as int, other.den as int, rat_bound(), rat_bound());
            lemma_abs_mul_bound(other.num as int, self.den as int, rat_bound(), rat_bound());
        }
        self.num * other.den <= other.num * self.den
    }

    /// Exact comparison `self < other` by cross-multiplication.
    pub fn lt(&self, other: &Rat) -> (r: bool)
        requires
            rat_wf(*self),
            rat_wf(*other),
        ensures
            r == rat_lt(*self, *other),
    {
        proof {
            lemma_abs_mul_bound(self.num as int, other.den as int, rat_bound(), rat_bound());
            lemma_abs_mul_bound(other.num as int, self.den as int, rat_bound(), rat_bound());
        }
        self.num * other.den < other.num * self.den
    }

    /// Exact test that two rationals denote the same value.
    pub fn eq_value(&self, other: &Rat) -> (r: bool)
        requires
            rat_wf(*self),
            rat_wf(*other),
        ensures
            r == rat_eq(*self, *other),
    {
        proof {
            lemma_abs_mul_bound(self.num as int, other.den as int, rat_bound(), rat_bound());
            lemma_abs_mul_bound(other.num as int, self.den as int, rat_bound(), rat_bound());
        }
        self.num * other.den == other.num * self.den
    }

    /// The larger of two rationals.
    pub fn max(&self, other: &Rat) -> (r: Rat)
        requires
            rat_wf(*self),
            rat_wf(*other),
        ensures
            r == spec_rat_max(*self, *other),
            rat_wf(r),
    {
        if self.le(other) {
            *other
        } else {
            *self
        }
    }

    /// The smaller of two rationals.
    pub fn min(&self, other: &Rat) -> (r: Rat)
        requires
            rat_wf(*self),
            rat_wf(*other),
        ensures
            r == spec_rat_min(*self, *other),
            rat_wf(r),
    {
        if other.le(self) {
            *other
        } else {
            *self
        }
    }
}

} // verus!
