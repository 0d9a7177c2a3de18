//! Exact rational numbers.
//!
//! The ghost type [`Ratio`] models a fraction as a pair of unbounded
//! integers; all contracts of the rasterizer are stated over it. The
//! executable type [`Rat`] carries the same fraction in two `i128`
//! fields; the callers prove that every intermediate value stays in
//! range, so the executable arithmetic is exact.

use vstd::prelude::*;
use vstd::arithmetic::div_mod::{lemma_div_is_ordered, lemma_fundamental_div_mod, lemma_fundamental_div_mod_converse};

verus! {

/// A fraction `n / d` of unbounded integers.
pub ghost struct Ratio {
    pub n: int,
    pub d: int,
}

/// Well-formed fraction: the denominator is positive.
pub open spec fn rok(r: Ratio) -> bool {
    r.d > 0
}

/// Both fractions denote the same rational number (cross multiplication).
pub open spec fn rat_eq(a: Ratio, b: Ratio) -> bool {
    a.n * b.d == b.n * a.d
}

/// The integer `i` as a fraction.
pub open spec fn rint(i: int) -> Ratio {
    Ratio { n: i, d: 1 }
}

pub open spec fn radd(a: Ratio, b: Ratio) -> Ratio {
    Ratio { n: a.n * b.d + b.n * a.d, d: a.d * b.d }
}

pub open spec fn rsub(a: Ratio, b: Ratio) -> Ratio {
    Ratio { n: a.n * b.d - b.n * a.d, d: a.d * b.d }
}

pub open spec fn rmul(a: Ratio, b: Ratio) -> Ratio {
    Ratio { n: a.n * b.n, d: a.d * b.d }
}

/// Division; meaningful only when `b.n != 0`. The sign of the resulting
/// denominator follows the sign of `b.n`.
pub open spec fn rdiv(a: Ratio, b: Ratio) -> Ratio {
    Ratio { n: a.n * b.d, d: a.d * b.n }
}

/// Floor of the denoted value, for a positive denominator.
pub open spec fn rfloor(a: Ratio) -> int {
    a.n / a.d
}

/// Ceiling of the denoted value, for a positive denominator.
pub open spec fn rceil(a: Ratio) -> int {
    (a.n + a.d - 1) / a.d
}

/// Nearest integer, rounding halves up; intended for `a >= 0`.
pub open spec fn rround(a: Ratio) -> int {
    (2 * a.n + a.d) / (2 * a.d)
}

/// The value clamped into `[0, 1]`, for a positive denominator.
pub open spec fn rclamp01(r: Ratio) -> Ratio {
    if r.n < 0 {
        Ratio { n: 0, d: 1 }
    } else if r.n > r.d {
        Ratio { n: 1, d: 1 }
    } else {
        r
    }
}

/// The ceiling is monotone in the numerator, for one denominator.
pub proof fn lemma_rceil_mono(a: Ratio, b: Ratio)
    requires
        rok(a),
        a.d == b.d,
        a.n <= b.n,
    ensures
        rceil(a) <= rceil(b),
{
    lemma_div_is_ordered(a.n + a.d - 1, b.n + b.d - 1, a.d);
}

/// `rceil(a)` is the unique integer `c` with `d*(c-1) < n <= d*c`.
pub proof fn lemma_rceil_char(a: Ratio, c: int)
    requires
        rok(a),
        c == rceil(a),
    ensures
        a.d * (c - 1) < a.n <= a.d * c,
{
    lemma_fundamental_div_mod(a.n + a.d - 1, a.d);
    let q = (a.n + a.d - 1) / a.d;
    let r = (a.n + a.d - 1) % a.d;
    assert(a.n + a.d - 1 == a.d * q + r);
    assert(0 <= r < a.d);
    assert(a.d * (q - 1) < a.n <= a.d * q) by (nonlinear_arith)
        requires
            a.d > 0,
            a.n + a.d - 1 == a.d * q + r,
            0 <= r < a.d,
    ;
}

pub proof fn lemma_mul_bound(a: int, b: int, ba: int, bb: int)
    by (nonlinear_arith)
    requires
        -ba <= a <= ba,
        -bb <= b <= bb,
        0 <= ba,
        0 <= bb,
    ensures
        -(ba * bb) <= a * b <= ba * bb,
{
}

/// Multiply two integers whose magnitudes are bounded by the given ghost
/// bounds; the bounds prove that the product stays in range.
pub fn mulb(a: i128, b: i128, Ghost(ba): Ghost<int>, Ghost(bb): Ghost<int>) -> (r: i128)
    requires
        -ba <= a <= ba,
        -bb <= b <= bb,
        0 <= ba,
        0 <= bb,
        ba * bb < 0x8000_0000_0000_0000_0000_0000_0000_0000,
    ensures
        r == a * b,
        -(ba * bb) <= r <= ba * bb,
{
    proof {
        lemma_mul_bound(a as int, b as int, ba, bb);
    }
    a * b
}

/// An executable fraction. `n` is the numerator, `d` the (positive)
/// denominator; the pair denotes exactly `n / d`.
#[derive(Clone, Copy)]
pub struct Rat {
    pub n: i128,
    pub d: i128,
}

impl View for Rat {
    type V = Ratio;

    open spec fn view(&self) -> Ratio {
        Ratio { n: self.n as int, d: self.d as int }
    }
}

impl Rat {
    /// Floor of the denoted value.
    pub fn floor(&self) -> (c: i128)
        requires
            rok(self@),
            -0x4000_0000_0000_0000_0000_0000_0000_0000 < self.n,
            self.n < 0x4000_0000_0000_0000_0000_0000_0000_0000,
            self.d < 0x4000_0000_0000_0000_0000_0000_0000_0000,
        ensures
            c == rfloor(self@),
    {
        if self.n >= 0 {
            let q: u128 = (self.n as u128) / (self.d as u128);
            q as i128
        } else {
            let m: u128 = (((-self.n) as u128) + (self.d as u128) - 1) / (self.d as u128);
            proof {
                let n = self.n as int;
                let d = self.d as int;
                lemma_fundamental_div_mod(-n + d - 1, d);
                let k = (-n + d - 1) / d;
                let r = (-n + d - 1) % d;
                assert(-n + d - 1 == d * k + r);
                assert(0 <= r < d);
                assert(n == d * (-k) + (d - 1 - r)) by (nonlinear_arith)
                    requires
                        -n + d - 1 == d * k + r,
                ;
                lemma_fundamental_div_mod_converse(n, d, -k, d - 1 - r);
                assert(rfloor(self@) == -k);
                assert(m == k);
            }
            -(m as i128)
        }
    }

    /// Nearest integer to the denoted value, rounding halves up.
    pub fn round(&self) -> (c: i128)
        requires
            rok(self@),
            -0x1000_0000_0000_0000_0000_0000_0000_0000 < self.n,
            self.n < 0x1000_0000_0000_0000_0000_0000_0000_0000,
            self.d < 0x1000_0000_0000_0000_0000_0000_0000_0000,
        ensures
            c == rround(self@),
    {
        let twice = Rat { n: self.n * 2 + self.d, d: self.d * 2 };
        twice.floor()
    }

    /// Ceiling of the denoted value.
    pub fn ceil(&self) -> (c: i128)
        requires
            rok(self@),
            -0x4000_0000_0000_0000_0000_0000_0000_0000 < self.n,
            self.n < 0x4000_0000_0000_0000_0000_0000_0000_0000,
            self.d < 0x4000_0000_0000_0000_0000_0000_0000_0000,
        ensures
            c == rceil(self@),
    {
        if self.n >= 0 {
            let q: u128 = ((self.n as u128) + (self.d as u128) - 1) / (self.d as u128);
            proof {
                assert(q == (self.n + self.d - 1) as int / self.d as int);
            }
            q as i128
        } else {
            let m: u128 = ((-self.n) as u128) / (self.d as u128);
            proof {
                let n = self.n as int;
                let d = self.d as int;
                lemma_fundamental_div_mod(-n, d);
                let k = (-n) / d;
                let r = (-n) % d;
                assert(-n == d * k + r);
                assert(0 <= r < d);
                assert(n + d - 1 == d * (-k) + (d - 1 - r)) by (nonlinear_arith)
                    requires
                        -n == d * k + r,
                ;
                lemma_fundamental_div_mod_converse(n + d - 1, d, -k, d - 1 - r);
                assert(rceil(self@) == -k);
                assert(m == k);
            }
            -(m as i128)
        }
    }
}

} // verus!
