//! Fixed-point vectors and the integer arithmetic the engine is built on.
//!
//! Lengths and speeds are integers in thousandths of a world unit; a
//! coefficient such as restitution is an integer in thousandths of one.

use vstd::prelude::*;
use vstd::arithmetic::div_mod::{
    lemma_div_by_multiple,
    lemma_div_by_multiple_is_strongly_ordered,
    lemma_div_is_ordered,
};
use vstd::arithmetic::mul::lemma_mul_inequality;

verus! {

/// The fixed-point value of one: a coefficient of `SCALE` leaves a value unchanged.
pub const SCALE: u64 = 1000;

/// A vector of three fixed-point components.
#[derive(Clone, Copy, Debug, PartialEq, Eq, Structural)]
pub struct Vec3i {
    pub x: i64,
    pub y: i64,
    pub z: i64,
}

impl Vec3i {
    pub fn new(x: i64, y: i64, z: i64) -> (r: Vec3i)
        ensures
            r == (Vec3i { x, y, z }),
    {
        Vec3i { x, y, z }
    }
}

/// `v` multiplied by the coefficient `k / SCALE`, rounded toward zero.
pub open spec fn scale_fraction(v: int, k: int) -> int {
    if v >= 0 {
        (v * k) / (SCALE as int)
    } else {
        -(((-v) * k) / (SCALE as int))
    }
}

/// Scaling a non-negative value by a coefficient in `[0, 1]` keeps it in
/// `[0, a]`, and a coefficient below one makes a positive value strictly smaller.
pub proof fn lemma_fraction_bounded(a: int, k: int)
    requires
        0 <= a,
        0 <= k <= SCALE,
    ensures
        0 <= (a * k) / (SCALE as int) <= a,
        k < SCALE && a > 0 ==> (a * k) / (SCALE as int) < a,
{
    let s = SCALE as int;
    assert(0 <= a * k) by (nonlinear_arith)
        requires
            0 <= a,
            0 <= k,
    ;
    lemma_mul_inequality(k, s, a);
    assert(a * k <= a * s) by (nonlinear_arith)
        requires
            k * a <= s * a,
    ;
    lemma_div_is_ordered(a * k, a * s, s);
    lemma_div_by_multiple(a, s);
    lemma_div_is_ordered(0, a * k, s);
    if k < SCALE && a > 0 {
        assert(a * k < a * s) by (nonlinear_arith)
            requires
                k < s,
                a > 0,
        ;
        lemma_div_by_multiple_is_strongly_ordered(a * k, a * s, a, s);
    }
}

/// `v` scaled by the coefficient `k / SCALE`, rounded toward zero.
pub fn scale_by_fraction(v: i64, k: u64) -> (r: i64)
    requires
        k <= SCALE,
    ensures
        r == scale_fraction(v as int, k as int),
{
    let m: i128 = v as i128;
    if m >= 0 {
        proof {
            lemma_fraction_bounded(m as int, k as int);
        }
        let p: u128 = (m as u128) * (k as u128);
        (p / (SCALE as u128)) as i64
    } else {
        proof {
            lemma_fraction_bounded(-m, k as int);
        }
        let p: u128 = ((-m) as u128) * (k as u128);
        let q: i128 = (p / (SCALE as u128)) as i128;
        (-q) as i64
    }
}

/// `r` is the integer square root of `n`.
pub open spec fn is_isqrt(n: int, r: int) -> bool {
    0 <= r && r * r <= n < (r + 1) * (r + 1)
}

/// The largest `r` with `r * r <= n`, found by bisection.
pub fn isqrt(n: u64) -> (r: u64)
    ensures
        is_isqrt(n as int, r as int),
{
    // invariant: lo * lo <= n < hi * hi
    let mut lo: u64 = 0;
    let mut hi: u64 = 0x1_0000_0000;
    assert(n < hi * hi);
    while hi - lo > 1
        invariant
            lo < hi <= 0x1_0000_0000,
            lo * lo <= n,
            n < hi * hi,
        decreases hi - lo,
    {
        let mid: u64 = lo + (hi - lo) / 2;
        assert(mid * mid <= 0x1_0000_0000 * 0x1_0000_0000) by (nonlinear_arith)
            requires
                mid < 0x1_0000_0000,
        ;
        if (mid as u128) * (mid as u128) <= n as u128 {
            lo = mid;
        } else {
            hi = mid;
        }
    }
    assert(hi == lo + 1);
    lo
}

} // verus!
