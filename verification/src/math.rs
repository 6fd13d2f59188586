//! Fixed-point scalar arithmetic.
//!
//! A scalar is an `i64` holding a real value scaled by [`SCALE`]: the
//! stored number `v` stands for the real `v / SCALE`.  Products and
//! quotients of scalars therefore carry an explicit division or
//! multiplication by `SCALE`, rounded towards zero, which [`tdiv`]
//! captures at the specification level.

use vstd::prelude::*;

verus! {

/// Number of fixed-point steps per unit: a scalar `v` denotes `v / SCALE`.
pub const SCALE: i64 = 65536;

/// `SCALE` as a mathematical integer, for use in specifications.
pub open spec fn scale() -> int {
    65536
}

/// Magnitude of an integer.
pub open spec fn abs(a: int) -> int {
    if a >= 0 {
        a
    } else {
        -a
    }
}

/// Quotient of `a` and `b` rounded towards zero: the rounding Rust's own
/// integer division uses.  Meaningful only for `b != 0`.
pub open spec fn tdiv(a: int, b: int) -> int {
    if (a < 0) != (b < 0) {
        -(abs(a) / abs(b))
    } else {
        abs(a) / abs(b)
    }
}

/// A quotient is no larger in magnitude than its dividend.
pub proof fn lemma_tdiv_bound(a: int, b: int)
    requires
        b != 0,
    ensures
        abs(tdiv(a, b)) <= abs(a),
        abs(a) < abs(b) ==> tdiv(a, b) == 0,
{
    let q = abs(a) / abs(b);
    assert(0 <= q <= abs(a) && (abs(a) < abs(b) ==> q == 0)) by (nonlinear_arith)
        requires abs(b) >= 1, abs(a) >= 0, q == abs(a) / abs(b);
}

/// The quotient scaled back by the divisor stays within the dividend.
pub proof fn lemma_tdiv_mul_bound(a: int, b: int)
    requires
        b > 0,
    ensures
        abs(tdiv(a, b) * b) <= abs(a),
{
    let q = abs(a) / abs(b);
    assert(0 <= q * b <= abs(a)) by (nonlinear_arith)
        requires b >= 1, abs(a) >= 0, q == abs(a) / b;
    assert((-q) * b == -(q * b)) by (nonlinear_arith);
}

/// The product of two `i64` values fits in an `i128`.
proof fn lemma_wide_mul_fits(a: int, b: int)
    requires
        -0x8000_0000_0000_0000 <= a,
        a < 0x8000_0000_0000_0000,
        -0x8000_0000_0000_0000 <= b,
        b < 0x8000_0000_0000_0000,
    ensures
        -0x4000_0000_0000_0000_0000_0000_0000_0000 <= a * b,
        a * b <= 0x4000_0000_0000_0000_0000_0000_0000_0000,
{
    assert(-0x4000_0000_0000_0000_0000_0000_0000_0000 <= a * b
        && a * b <= 0x4000_0000_0000_0000_0000_0000_0000_0000) by (nonlinear_arith)
        requires
            -0x8000_0000_0000_0000 <= a,
            a < 0x8000_0000_0000_0000,
            -0x8000_0000_0000_0000 <= b,
            b < 0x8000_0000_0000_0000,
    ;
}

/// A quotient is bounded by any multiple of the divisor that dominates the
/// dividend.
pub proof fn lemma_tdiv_quot_bound(a: int, b: int, m: int)
    requires
        b > 0,
        0 <= m,
        abs(a) <= m * b,
    ensures
        abs(tdiv(a, b)) <= m,
{
    let q = abs(a) / b;
    assert(q <= m) by (nonlinear_arith)
        requires b >= 1, 0 <= m, abs(a) <= m * b, q == abs(a) / b;
}

/// Exact wide product of two machine scalars.
pub fn wide_mul(a: i64, b: i64) -> (r: i128)
    ensures
        r == a as int * b as int,
        -0x4000_0000_0000_0000_0000_0000_0000_0000 <= r,
        r <= 0x4000_0000_0000_0000_0000_0000_0000_0000,
{
    proof {
        lemma_wide_mul_fits(a as int, b as int);
    }
    (a as i128) * (b as i128)
}

/// Quotient of two wide scalars, rounded towards zero.
pub fn tdiv_i128(a: i128, b: i128) -> (r: i128)
    requires
        b != 0,
        a != i128::MIN,
        b != i128::MIN,
    ensures
        r == tdiv(a as int, b as int),
{
    let an: u128 = if a >= 0 { a as u128 } else { (-a) as u128 };
    let bn: u128 = if b >= 0 { b as u128 } else { (-b) as u128 };
    let q: u128 = an / bn;
    proof {
        assert(q == abs(a as int) / abs(b as int));
        lemma_tdiv_bound(a as int, b as int);
    }
    if (a < 0) != (b < 0) {
        -(q as i128)
    } else {
        q as i128
    }
}

/// Fixed-point product: multiplies two scalars and rescales, rounding
/// towards zero.
pub fn mul_fx(a: i64, b: i64) -> (r: i64)
    requires
        -0x8000_0000_0000_0000 <= tdiv(a as int * b as int, scale()),
        tdiv(a as int * b as int, scale()) < 0x8000_0000_0000_0000,
    ensures
        r == tdiv(a as int * b as int, scale()),
{
    let p = wide_mul(a, b);
    let q = tdiv_i128(p, 65536);
    q as i64
}

/// Fixed-point quotient: `a / b` as scaled reals, rounding towards zero.
pub fn div_fx(a: i64, b: i64) -> (r: i64)
    requires
        b != 0,
        -0x8000_0000_0000_0000 <= tdiv(a as int * scale(), b as int),
        tdiv(a as int * scale(), b as int) < 0x8000_0000_0000_0000,
    ensures
        r == tdiv(a as int * scale(), b as int),
{
    let p = wide_mul(a, SCALE);
    let q = tdiv_i128(p, b as i128);
    q as i64
}

/// Magnitudes multiply: a bound on each factor bounds the product.
pub proof fn lemma_mul_abs_bound(a: int, b: int, m: int, n: int)
    requires
        abs(a) <= m,
        abs(b) <= n,
    ensures
        abs(a * b) <= m * n,
{
    assert(abs(a * b) <= m * n) by (nonlinear_arith)
        requires abs(a) <= m, abs(b) <= n;
}

/// Multiplying both sides of a bound by a nonnegative factor keeps it.
pub proof fn lemma_mul_le_mono(a: int, b: int, c: int)
    requires
        0 <= a <= b,
        0 <= c,
    ensures
        a * c <= b * c,
{
    assert(a * c <= b * c) by (nonlinear_arith)
        requires 0 <= a <= b, 0 <= c;
}

/// Floor of the square root of `n`, as a recursively defined specification.
pub open spec fn sqrt_floor(n: int) -> int
    decreases n,
{
    if n < 1 {
        0
    } else {
        let s = sqrt_floor(n - 1);
        if (s + 1) * (s + 1) <= n {
            s + 1
        } else {
            s
        }
    }
}

/// `sqrt_floor(n)` is the integer whose square brackets `n`.
pub proof fn lemma_sqrt_floor_bounds(n: int)
    requires
        n >= 0,
    ensures
        sqrt_floor(n) >= 0,
        sqrt_floor(n) * sqrt_floor(n) <= n,
        n < (sqrt_floor(n) + 1) * (sqrt_floor(n) + 1),
    decreases n,
{
    if n >= 1 {
        lemma_sqrt_floor_bounds(n - 1);
        let s = sqrt_floor(n - 1);
        if (s + 1) * (s + 1) <= n {
            assert(n == (s + 1) * (s + 1));
            assert((s + 1) * (s + 1) < (s + 2) * (s + 2)) by (nonlinear_arith)
                requires s >= 0;
        }
    }
}

/// Any `r` whose square brackets `n` is `sqrt_floor(n)`.
pub proof fn lemma_sqrt_floor_unique(n: int, r: int)
    requires
        n >= 0,
        r >= 0,
        r * r <= n,
        n < (r + 1) * (r + 1),
    ensures
        r == sqrt_floor(n),
{
    lemma_sqrt_floor_bounds(n);
    let s = sqrt_floor(n);
    if r < s {
        assert((r + 1) * (r + 1) <= s * s) by (nonlinear_arith)
            requires 0 <= r, r < s;
    }
    if s < r {
        assert((s + 1) * (s + 1) <= r * r) by (nonlinear_arith)
            requires 0 <= s, s < r;
    }
}

/// Floor of the square root of a wide machine integer.
pub fn isqrt(n: u128) -> (r: u128)
    ensures
        r == sqrt_floor(n as int),
        r < 0x1_0000_0000_0000_0000,
{
    let mut lo: u128 = 0;
    let mut hi: u128 = 0x1_0000_0000_0000_0000;
    // Binary search for the greatest root whose square does not exceed `n`:
    // the loop brackets `n` between `lo * lo` and `hi * hi`.
    while hi - lo > 1
        invariant
            lo < hi <= 0x1_0000_0000_0000_0000,
            (lo * lo) as int <= n as int,
            (n as int) < (hi as int) * (hi as int),
        decreases hi - lo,
    {
        let mid: u128 = lo + (hi - lo) / 2;
        assert(mid * mid < 0xffff_ffff_ffff_ffff_ffff_ffff_ffff_ffff) by (nonlinear_arith)
            requires mid < 0x1_0000_0000_0000_0000;
        if mid * mid <= n {
            lo = mid;
        } else {
            hi = mid;
        }
    }
    proof {
        lemma_sqrt_floor_unique(n as int, lo as int);
    }
    lo
}

} // verus!
