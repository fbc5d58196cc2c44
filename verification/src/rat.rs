//! Exact rational scalars.
//!
//! The matrix family is generic in spirit over any field-like scalar; this
//! library fixes one concrete, exactly representable scalar: a fraction of two
//! `i64` values with a positive denominator.  Every operation states its exact
//! result over the unbounded model [`Q`], and carries a machine-limit
//! precondition ([`q_in_range`]) wherever a stored result could outgrow the
//! 64-bit fields.  Intermediate products are computed in `i128`, which cannot
//! overflow for operands within [`RAT_LIMIT`].

use vstd::prelude::*;

verus! {

/// Largest magnitude admitted for a stored numerator or denominator (2^62),
/// chosen so that any product of two stored values fits an `i128`.
pub const RAT_LIMIT: i64 = 4611686018427387904;

/// Unbounded fraction: the mathematical model of a stored scalar.
pub struct Q {
    pub n: int,
    pub d: int,
}

/// A model fraction with a positive denominator.
pub open spec fn q_wf(a: Q) -> bool {
    a.d >= 1
}

/// Value equality of fractions, by cross multiplication.
pub open spec fn q_eq(a: Q, b: Q) -> bool {
    a.n * b.d == b.n * a.d
}

/// Value order of fractions; meaningful when both denominators are positive.
pub open spec fn q_le(a: Q, b: Q) -> bool {
    a.n * b.d <= b.n * a.d
}

/// Strict value order of fractions; meaningful when both denominators are positive.
pub open spec fn q_lt(a: Q, b: Q) -> bool {
    a.n * b.d < b.n * a.d
}

pub open spec fn q_add(a: Q, b: Q) -> Q {
    Q { n: a.n * b.d + b.n * a.d, d: a.d * b.d }
}

pub open spec fn q_sub(a: Q, b: Q) -> Q {
    Q { n: a.n * b.d - b.n * a.d, d: a.d * b.d }
}

pub open spec fn q_mul(a: Q, b: Q) -> Q {
    Q { n: a.n * b.n, d: a.d * b.d }
}

/// Division of fractions.  The model denominator may come out negative;
/// stored scalars normalise the sign, and state their result up to value
/// equality.
pub open spec fn q_div(a: Q, b: Q) -> Q {
    Q { n: a.n * b.d, d: a.d * b.n }
}

pub open spec fn q_neg(a: Q) -> Q {
    Q { n: -a.n, d: a.d }
}

pub open spec fn q_abs(a: Q) -> Q {
    Q { n: if a.n < 0 { -a.n } else { a.n }, d: a.d }
}

pub open spec fn q_int(i: int) -> Q {
    Q { n: i, d: 1 }
}

/// Division with the sign moved out of the denominator, exactly as the
/// stored scalars compute it.
pub open spec fn q_div_norm(a: Q, b: Q) -> Q {
    if b.n < 0 {
        Q { n: -(a.n * b.d), d: -(a.d * b.n) }
    } else {
        Q { n: a.n * b.d, d: a.d * b.n }
    }
}

/// Euclid's greatest common divisor, for non-negative arguments.
pub open spec fn gcd_spec(a: int, b: int) -> int
    decreases b when b >= 0
{
    if b <= 0 {
        a
    } else {
        gcd_spec(b, a % b)
    }
}

/// The exact result of [`Rat::reduced`]: the fraction in lower terms where
/// the common divisor is confirmed, the input unchanged otherwise.
pub open spec fn q_reduced(a: Q) -> Q {
    let nn = if a.n < 0 { -a.n } else { a.n };
    let g = gcd_spec(nn, a.d);
    if g <= 1 {
        a
    } else {
        let n2 = nn / g;
        let d2 = a.d / g;
        if n2 > 0x4000000000000000 || d2 < 1 || d2 > 0x4000000000000000 {
            a
        } else if n2 * g == nn && d2 * g == a.d {
            if a.n < 0 {
                Q { n: -n2, d: d2 }
            } else {
                Q { n: n2, d: d2 }
            }
        } else {
            a
        }
    }
}

/// The fraction can be stored: both fields within `RAT_LIMIT`, denominator positive.
pub open spec fn q_in_range(a: Q) -> bool {
    &&& -(RAT_LIMIT as int) <= a.n <= RAT_LIMIT as int
    &&& 1 <= a.d <= RAT_LIMIT as int
}

/// The quotient can be stored once its sign is normalised: both cross
/// products within `RAT_LIMIT` in magnitude.
pub open spec fn q_div_ok(a: Q, b: Q) -> bool {
    &&& -(RAT_LIMIT as int) <= a.n * b.d <= RAT_LIMIT as int
    &&& -(RAT_LIMIT as int) <= a.d * b.n <= RAT_LIMIT as int
}

/// Bound on a product from bounds on its factors.
pub proof fn lemma_mul_bound(a: int, b: int, m1: int, m2: int)
    by (nonlinear_arith)
    requires
        -m1 <= a <= m1,
        -m2 <= b <= m2,
        0 <= m1,
        0 <= m2,
    ensures
        -(m1 * m2) <= a * b <= m1 * m2,
{
}

/// A product of positive factors is positive.
pub proof fn lemma_mul_pos(a: int, b: int)
    by (nonlinear_arith)
    requires
        a >= 1,
        b >= 1,
    ensures
        a * b >= 1,
{
}

/// Value equality of fractions is transitive when denominators are nonzero.
pub proof fn lemma_q_eq_trans(a: Q, b: Q, c: Q)
    by (nonlinear_arith)
    requires
        b.d != 0,
        q_eq(a, b),
        q_eq(b, c),
    ensures
        q_eq(a, c),
{
}

/// A product of nonzero factors is nonzero.
pub proof fn lemma_mul_nonzero(a: int, b: int)
    by (nonlinear_arith)
    requires
        a != 0,
        b != 0,
    ensures
        a * b != 0,
{
}

/// A product of a positive and a negative factor is negative.
pub proof fn lemma_mul_pos_neg(a: int, b: int)
    by (nonlinear_arith)
    requires
        a >= 1,
        b <= -1,
    ensures
        a * b <= -1,
{
}

/// Multiplication distributes over subtraction, up to value equality.
pub proof fn lemma_qmul_sub_distrib(c: Q, a: Q, b: Q)
    ensures
        q_eq(q_sub(q_mul(c, a), q_mul(c, b)), q_mul(c, q_sub(a, b))),
{
    let x: int = a.n * b.d - b.n * a.d;
    let acd: int = c.n * c.d;
    let ln: int = (c.n * a.n) * (c.d * b.d) - (c.n * b.n) * (c.d * a.d);
    let ld: int = (c.d * a.d) * (c.d * b.d);
    assert((c.n * a.n) * (c.d * b.d) == acd * (a.n * b.d)) by (nonlinear_arith)
        requires
            acd == c.n * c.d,
    ;
    assert((c.n * b.n) * (c.d * a.d) == acd * (b.n * a.d)) by (nonlinear_arith)
        requires
            acd == c.n * c.d,
    ;
    assert(acd * (a.n * b.d) - acd * (b.n * a.d) == acd * x) by (nonlinear_arith)
        requires
            x == a.n * b.d - b.n * a.d,
    ;
    assert(ln == (c.n * c.d) * x);
    assert(ld == (c.d * c.d) * (a.d * b.d)) by (nonlinear_arith)
        requires
            ld == (c.d * a.d) * (c.d * b.d),
    ;
    assert(((c.n * c.d) * x) * (c.d * (a.d * b.d)) == (c.n * x) * ((c.d * c.d) * (a.d * b.d)))
        by (nonlinear_arith);
}

/// Dividing a product by one of its factors gives back the other.
pub proof fn lemma_qdiv_mul_cancel(t: Q, d: Q)
    by (nonlinear_arith)
    ensures
        q_eq(q_div(q_mul(t, d), d), t),
{
}

/// Replacing the dividend by an equal value keeps the quotient's value.
pub proof fn lemma_qdiv_congr_num(x: Q, y: Q, d: Q)
    by (nonlinear_arith)
    requires
        q_eq(x, y),
    ensures
        q_eq(q_div(x, d), q_div(y, d)),
{
}

/// Negating numerator and denominator together keeps the value, so the
/// sign-normalised quotient equals the raw one.
pub proof fn lemma_q_div_flip(a: Q, b: Q, r: Q)
    by (nonlinear_arith)
    requires
        r.n == -(a.n * b.d),
        r.d == -(a.d * b.n),
    ensures
        q_eq(r, q_div(a, b)),
{
}

/// `s` is the floor of the square root of the non-negative fraction `x`,
/// at the granularity of `s`'s own denominator: `s*s <= x < (s + 1/s.d)^2`.
pub open spec fn sqrt_bracket(s: Q, x: Q) -> bool {
    &&& 0 <= s.n
    &&& 1 <= s.d
    &&& q_le(q_mul(s, s), x)
    &&& x.n * (s.d * s.d) < ((s.n + 1) * (s.n + 1)) * x.d
}

/// Floor of the integer square root, by bisection.
pub fn isqrt_u128(x: u128) -> (r: u128)
    requires
        (x as int) < 0x40000000000000000000000000000000,
    ensures
        (r as int) * (r as int) <= x as int,
        (x as int) < ((r as int) + 1) * ((r as int) + 1),
        r < 0x8000000000000000,
{
    let mut lo: u128 = 0;
    let mut hi: u128 = 0x8000000000000000;
    assert((0x8000000000000000 as int) * (0x8000000000000000 as int)
        == 0x40000000000000000000000000000000) by (nonlinear_arith);
    while hi - lo > 1
        invariant
            lo < hi <= 0x8000000000000000,
            (lo as int) * (lo as int) <= x as int,
            (x as int) < (hi as int) * (hi as int),
        decreases hi - lo,
    {
        let mid: u128 = lo + (hi - lo) / 2;
        proof {
            lemma_mul_bound(mid as int, mid as int, 0x8000000000000000, 0x8000000000000000);
        }
        if mid * mid <= x {
            lo = mid;
        } else {
            hi = mid;
        }
    }
    lo
}

/// Floor of the square root of a non-negative fraction, carried out on a
/// denominator 256 times finer than the input's.
pub fn sqrt_scaled(a: Rat) -> (r: Rat)
    requires
        a.wf(),
        0 <= a@.n,
        a@.n <= 0x10000000000,
        a@.d <= 0x10000000000,
    ensures
        r.wf(),
        r@.d == a@.d * 256,
        sqrt_bracket(r@, a@),
{
    proof {
        lemma_mul_bound(a.num as int, a.den as int, 0x10000000000, 0x10000000000);
        assert((a.num as int) * (a.den as int) >= 0) by (nonlinear_arith)
            requires
                0 <= a.num as int,
                0 <= a.den as int,
        ;
    }
    let prod: u128 = ((a.num as i128) * (a.den as i128)) as u128;
    let arg: u128 = prod * 65536;
    let s: u128 = isqrt_u128(arg);
    proof {
        assert((s as int) <= 0x1000000000000) by (nonlinear_arith)
            requires
                0 <= s as int,
                (s as int) * (s as int) <= arg as int,
                arg as int <= 0x1000000000000000000000000,
        ;
        lemma_sqrt_scaled_bracket(a@, s as int);
    }
    Rat { num: s as i64, den: a.den * 256 }
}

/// Turns the integer bracket of the scaled square root into the fraction
/// bracket that [`sqrt_scaled`] states.
proof fn lemma_sqrt_scaled_bracket(a: Q, s: int)
    requires
        1 <= a.d,
        0 <= a.n,
        0 <= s,
        s * s <= (a.n * a.d) * 65536,
        (a.n * a.d) * 65536 < (s + 1) * (s + 1),
    ensures
        sqrt_bracket((Q { n: s, d: a.d * 256 }), a),
{
    let sd: int = a.d * 256;
    assert(1 <= sd);
    assert((s * s) * a.d <= ((a.n * a.d) * 65536) * a.d) by (nonlinear_arith)
        requires
            s * s <= (a.n * a.d) * 65536,
            1 <= a.d,
    ;
    assert(((a.n * a.d) * 65536) * a.d == a.n * (sd * sd)) by (nonlinear_arith)
        requires
            sd == a.d * 256,
    ;
    assert(q_le(q_mul((Q { n: s, d: sd }), (Q { n: s, d: sd })), a));
    assert(a.n * (sd * sd) < ((s + 1) * (s + 1)) * a.d) by (nonlinear_arith)
        requires
            (a.n * a.d) * 65536 < (s + 1) * (s + 1),
            1 <= a.d,
            sd == a.d * 256,
    ;
}

/// An exact scalar: the fraction `num / den`, kept with `den >= 1`.
#[derive(Clone, Copy)]
pub struct Rat {
    pub num: i64,
    pub den: i64,
}

impl View for Rat {
    type V = Q;

    open spec fn view(&self) -> Q {
        Q { n: self.num as int, d: self.den as int }
    }
}

impl Rat {
    /// The stored fields are within `RAT_LIMIT` and the denominator is positive.
    pub open spec fn wf(self) -> bool {
        q_in_range(self@)
    }

    pub fn new(num: i64, den: i64) -> (r: Rat)
        requires
            -RAT_LIMIT <= num <= RAT_LIMIT,
            1 <= den <= RAT_LIMIT,
        ensures
            r.wf(),
            r@ == (Q { n: num as int, d: den as int }),
    {
        Rat { num, den }
    }

    pub fn from_int(num: i64) -> (r: Rat)
        requires
            -RAT_LIMIT <= num <= RAT_LIMIT,
        ensures
            r.wf(),
            r@ == q_int(num as int),
    {
        Rat { num, den: 1 }
    }

    pub fn zero() -> (r: Rat)
        ensures
            r.wf(),
            r@ == q_int(0),
    {
        Rat { num: 0, den: 1 }
    }

    pub fn one() -> (r: Rat)
        ensures
            r.wf(),
            r@ == q_int(1),
    {
        Rat { num: 1, den: 1 }
    }

    pub fn add(self, other: Rat) -> (r: Rat)
        requires
            self.wf(),
            other.wf(),
            q_in_range(q_add(self@, other@)),
        ensures
            r.wf(),
            r@ == q_add(self@, other@),
    {
        proof {
            lemma_mul_bound(self.num as int, other.den as int, RAT_LIMIT as int, RAT_LIMIT as int);
            lemma_mul_bound(other.num as int, self.den as int, RAT_LIMIT as int, RAT_LIMIT as int);
            lemma_mul_bound(self.den as int, other.den as int, RAT_LIMIT as int, RAT_LIMIT as int);
        }
        let n: i128 = (self.num as i128) * (other.den as i128) + (other.num as i128) * (self.den as i128);
        let d: i128 = (self.den as i128) * (other.den as i128);
        Rat { num: n as i64, den: d as i64 }
    }

    pub fn sub(self, other: Rat) -> (r: Rat)
        requires
            self.wf(),
            other.wf(),
            q_in_range(q_sub(self@, other@)),
        ensures
            r.wf(),
            r@ == q_sub(self@, other@),
    {
        proof {
            lemma_mul_bound(self.num as int, other.den as int, RAT_LIMIT as int, RAT_LIMIT as int);
            lemma_mul_bound(other.num as int, self.den as int, RAT_LIMIT as int, RAT_LIMIT as int);
            lemma_mul_bound(self.den as int, other.den as int, RAT_LIMIT as int, RAT_LIMIT as int);
        }
        let n: i128 = (self.num as i128) * (other.den as i128) - (other.num as i128) * (self.den as i128);
        let d: i128 = (self.den as i128) * (other.den as i128);
        Rat { num: n as i64, den: d as i64 }
    }

    pub fn mul(self, other: Rat) -> (r: Rat)
        requires
            self.wf(),
            other.wf(),
            q_in_range(q_mul(self@, other@)),
        ensures
            r.wf(),
            r@ == q_mul(self@, other@),
    {
        proof {
            lemma_mul_bound(self.num as int, other.num as int, RAT_LIMIT as int, RAT_LIMIT as int);
            lemma_mul_bound(self.den as int, other.den as int, RAT_LIMIT as int, RAT_LIMIT as int);
        }
        let n: i128 = (self.num as i128) * (other.num as i128);
        let d: i128 = (self.den as i128) * (other.den as i128);
        Rat { num: n as i64, den: d as i64 }
    }

    pub fn div(self, other: Rat) -> (r: Rat)
        requires
            self.wf(),
            other.wf(),
            other@.n != 0,
            q_div_ok(self@, other@),
        ensures
            r.wf(),
            q_eq(r@, q_div(self@, other@)),
    {
        proof {
            lemma_mul_bound(self.num as int, other.den as int, RAT_LIMIT as int, RAT_LIMIT as int);
            lemma_mul_bound(self.den as int, other.num as int, RAT_LIMIT as int, RAT_LIMIT as int);
            if other.num < 0 {
                lemma_mul_pos_neg(self.den as int, other.num as int);
            } else {
                lemma_mul_pos(self.den as int, other.num as int);
            }
        }
        if other.num < 0 {
            let n: i128 = -((self.num as i128) * (other.den as i128));
            let d: i128 = -((self.den as i128) * (other.num as i128));
            let r = Rat { num: n as i64, den: d as i64 };
            proof {
                lemma_q_div_flip(self@, other@, r@);
            }
            r
        } else {
            let n: i128 = (self.num as i128) * (other.den as i128);
            let d: i128 = (self.den as i128) * (other.num as i128);
            Rat { num: n as i64, den: d as i64 }
        }
    }

    pub fn neg(self) -> (r: Rat)
        requires
            self.wf(),
        ensures
            r.wf(),
            r@ == q_neg(self@),
    {
        Rat { num: -self.num, den: self.den }
    }

    pub fn abs(self) -> (r: Rat)
        requires
            self.wf(),
        ensures
            r.wf(),
            r@ == q_abs(self@),
    {
        if self.num < 0 {
            Rat { num: -self.num, den: self.den }
        } else {
            self
        }
    }

    /// Tolerance equality of the exact scalar: the tolerance of an exactly
    /// represented value is zero, so this is equality of values, which still
    /// differs from structural equality (`3/2` against `6/4`).
    pub fn fuzzy_eq(self, other: Rat) -> (r: bool)
        requires
            self.wf(),
            other.wf(),
        ensures
            r == q_eq(self@, other@),
    {
        proof {
            lemma_mul_bound(self.num as int, other.den as int, RAT_LIMIT as int, RAT_LIMIT as int);
            lemma_mul_bound(other.num as int, self.den as int, RAT_LIMIT as int, RAT_LIMIT as int);
        }
        (self.num as i128) * (other.den as i128) == (other.num as i128) * (self.den as i128)
    }

    /// Structural equality of the stored representation.
    pub fn exact_eq(self, other: Rat) -> (r: bool)
        ensures
            r == (self@ == other@),
    {
        self.num == other.num && self.den == other.den
    }

    pub fn lt(self, other: Rat) -> (r: bool)
        requires
            self.wf(),
            other.wf(),
        ensures
            r == q_lt(self@, other@),
    {
        proof {
            lemma_mul_bound(self.num as int, other.den as int, RAT_LIMIT as int, RAT_LIMIT as int);
            lemma_mul_bound(other.num as int, self.den as int, RAT_LIMIT as int, RAT_LIMIT as int);
        }
        (self.num as i128) * (other.den as i128) < (other.num as i128) * (self.den as i128)
    }

    pub fn le(self, other: Rat) -> (r: bool)
        requires
            self.wf(),
            other.wf(),
        ensures
            r == q_le(self@, other@),
    {
        proof {
            lemma_mul_bound(self.num as int, other.den as int, RAT_LIMIT as int, RAT_LIMIT as int);
            lemma_mul_bound(other.num as int, self.den as int, RAT_LIMIT as int, RAT_LIMIT as int);
        }
        (self.num as i128) * (other.den as i128) <= (other.num as i128) * (self.den as i128)
    }

    pub fn is_zero(self) -> (r: bool)
        requires
            self.wf(),
        ensures
            r == q_eq(self@, q_int(0)),
    {
        self.num == 0
    }

    /// Brings the fraction to lower terms where a common factor is found;
    /// the value is kept exactly, and the stored fields are exactly those of
    /// the [`q_reduced`] mirror, so callers can predict them.
    pub fn reduced(self) -> (r: Rat)
        requires
            self.wf(),
        ensures
            r.wf(),
            q_eq(r@, self@),
            r@ == q_reduced(self@),
    {
        let nn: u64 = if self.num < 0 {
            (-self.num) as u64
        } else {
            self.num as u64
        };
        let dd: u64 = self.den as u64;
        let mut ga: u64 = nn;
        let mut gb: u64 = dd;
        while gb != 0
            invariant
                ga <= 0x7fffffffffffffff,
                gb <= 0x7fffffffffffffff,
                gcd_spec(ga as int, gb as int) == gcd_spec(nn as int, dd as int),
            decreases gb,
        {
            let t: u64 = ga % gb;
            ga = gb;
            gb = t;
        }
        proof {
            assert(gcd_spec(ga as int, 0) == ga as int);
            assert(ga as int == gcd_spec(nn as int, dd as int));
        }
        if ga <= 1 {
            return self;
        }
        let n2: u64 = nn / ga;
        let d2: u64 = dd / ga;
        if n2 > 0x4000000000000000 || d2 < 1 || d2 > 0x4000000000000000 {
            return self;
        }
        proof {
            lemma_mul_bound(n2 as int, ga as int, 0x4000000000000000, 0x7fffffffffffffff);
            lemma_mul_bound(d2 as int, ga as int, 0x4000000000000000, 0x7fffffffffffffff);
        }
        if (n2 as u128) * (ga as u128) == nn as u128
            && (d2 as u128) * (ga as u128) == dd as u128 {
            proof {
                assert((n2 as int) * (dd as int) == (nn as int) * (d2 as int))
                    by (nonlinear_arith)
                    requires
                        (n2 as int) * (ga as int) == nn as int,
                        (d2 as int) * (ga as int) == dd as int,
                ;
                assert((-(n2 as int)) * (dd as int) == (-(nn as int)) * (d2 as int))
                    by (nonlinear_arith)
                    requires
                        (n2 as int) * (dd as int) == (nn as int) * (d2 as int),
                ;
            }
            if self.num < 0 {
                Rat { num: -(n2 as i64), den: d2 as i64 }
            } else {
                Rat { num: n2 as i64, den: d2 as i64 }
            }
        } else {
            self
        }
    }

    /// Total form of `add`: `None` exactly when the result would not fit.
    pub fn checked_add(self, other: Rat) -> (r: Option<Rat>)
        requires
            self.wf(),
            other.wf(),
        ensures
            match r {
                Some(v) => v.wf() && v@ == q_add(self@, other@) && q_in_range(
                    q_add(self@, other@),
                ),
                None => !q_in_range(q_add(self@, other@)),
            },
    {
        proof {
            lemma_mul_bound(self.num as int, other.den as int, RAT_LIMIT as int, RAT_LIMIT as int);
            lemma_mul_bound(other.num as int, self.den as int, RAT_LIMIT as int, RAT_LIMIT as int);
            lemma_mul_bound(self.den as int, other.den as int, RAT_LIMIT as int, RAT_LIMIT as int);
            lemma_mul_pos(self.den as int, other.den as int);
        }
        let n: i128 = (self.num as i128) * (other.den as i128) + (other.num as i128) * (self.den as i128);
        let d: i128 = (self.den as i128) * (other.den as i128);
        if -(RAT_LIMIT as i128) <= n && n <= RAT_LIMIT as i128 && d <= RAT_LIMIT as i128 {
            Some(Rat { num: n as i64, den: d as i64 })
        } else {
            None
        }
    }

    /// Total form of `sub`: `None` exactly when the result would not fit.
    pub fn checked_sub(self, other: Rat) -> (r: Option<Rat>)
        requires
            self.wf(),
            other.wf(),
        ensures
            match r {
                Some(v) => v.wf() && v@ == q_sub(self@, other@) && q_in_range(
                    q_sub(self@, other@),
                ),
                None => !q_in_range(q_sub(self@, other@)),
            },
    {
        proof {
            lemma_mul_bound(self.num as int, other.den as int, RAT_LIMIT as int, RAT_LIMIT as int);
            lemma_mul_bound(other.num as int, self.den as int, RAT_LIMIT as int, RAT_LIMIT as int);
            lemma_mul_bound(self.den as int, other.den as int, RAT_LIMIT as int, RAT_LIMIT as int);
            lemma_mul_pos(self.den as int, other.den as int);
        }
        let n: i128 = (self.num as i128) * (other.den as i128) - (other.num as i128) * (self.den as i128);
        let d: i128 = (self.den as i128) * (other.den as i128);
        if -(RAT_LIMIT as i128) <= n && n <= RAT_LIMIT as i128 && d <= RAT_LIMIT as i128 {
            Some(Rat { num: n as i64, den: d as i64 })
        } else {
            None
        }
    }

    /// Total form of `mul`: `None` exactly when the result would not fit.
    pub fn checked_mul(self, other: Rat) -> (r: Option<Rat>)
        requires
            self.wf(),
            other.wf(),
        ensures
            match r {
                Some(v) => v.wf() && v@ == q_mul(self@, other@) && q_in_range(
                    q_mul(self@, other@),
                ),
                None => !q_in_range(q_mul(self@, other@)),
            },
    {
        proof {
            lemma_mul_bound(self.num as int, other.num as int, RAT_LIMIT as int, RAT_LIMIT as int);
            lemma_mul_bound(self.den as int, other.den as int, RAT_LIMIT as int, RAT_LIMIT as int);
            lemma_mul_pos(self.den as int, other.den as int);
        }
        let n: i128 = (self.num as i128) * (other.num as i128);
        let d: i128 = (self.den as i128) * (other.den as i128);
        if -(RAT_LIMIT as i128) <= n && n <= RAT_LIMIT as i128 && d <= RAT_LIMIT as i128 {
            Some(Rat { num: n as i64, den: d as i64 })
        } else {
            None
        }
    }

    /// Total form of `div` for a divisor of nonzero value: `None` exactly
    /// when the result would not fit.
    pub fn checked_div(self, other: Rat) -> (r: Option<Rat>)
        requires
            self.wf(),
            other.wf(),
            other@.n != 0,
        ensures
            match r {
                Some(v) => v.wf() && v@ == q_div_norm(self@, other@) && q_eq(
                    v@,
                    q_div(self@, other@),
                ) && q_div_ok(self@, other@),
                None => !q_div_ok(self@, other@),
            },
    {
        proof {
            lemma_mul_bound(self.num as int, other.den as int, RAT_LIMIT as int, RAT_LIMIT as int);
            lemma_mul_bound(self.den as int, other.num as int, RAT_LIMIT as int, RAT_LIMIT as int);
            if other.num < 0 {
                lemma_mul_pos_neg(self.den as int, other.num as int);
            } else {
                lemma_mul_pos(self.den as int, other.num as int);
            }
        }
        let n0: i128 = (self.num as i128) * (other.den as i128);
        let d0: i128 = (self.den as i128) * (other.num as i128);
        let n: i128 = if other.num < 0 { -n0 } else { n0 };
        let d: i128 = if other.num < 0 { -d0 } else { d0 };
        if -(RAT_LIMIT as i128) <= n && n <= RAT_LIMIT as i128 && d <= RAT_LIMIT as i128 {
            let v = Rat { num: n as i64, den: d as i64 };
            proof {
                if other.num < 0 {
                    lemma_q_div_flip(self@, other@, v@);
                }
            }
            Some(v)
        } else {
            None
        }
    }
}

} // verus!
