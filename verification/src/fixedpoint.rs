//! Fixed-point scalar arithmetic: the global scale, truncating division as
//! Rust computes it, and a verified integer square root.

use vstd::prelude::*;

verus! {

/// Number of fixed-point units in one pixel and in one second.
pub const SCALE: i64 = 1000;

/// The square root of two, in `SCALE` units, rounded down.
pub const SQRT2_FIXED: i64 = 1414;

/// Magnitude of an integer.
pub open spec fn abs_val(x: int) -> int {
    if x >= 0 {
        x
    } else {
        -x
    }
}

/// Quotient of `a` by `b` with the fraction truncated toward zero, the way
/// Rust's `/` rounds on machine integers.
pub open spec fn div_tz(a: int, b: int) -> int {
    if (a >= 0) == (b >= 0) {
        abs_val(a) / abs_val(b)
    } else {
        -(abs_val(a) / abs_val(b))
    }
}

/// The square root of `n`, rounded down.
pub open spec fn sqrt_floor(n: nat) -> nat
    decreases n,
{
    if n == 0 {
        0
    } else {
        let r = sqrt_floor((n - 1) as nat);
        if (r + 1) * (r + 1) <= n {
            r + 1
        } else {
            r
        }
    }
}

/// `r` is the square root of `n` rounded down.
pub open spec fn is_sqrt(n: int, r: int) -> bool {
    0 <= r && r * r <= n && n < (r + 1) * (r + 1)
}

/// `sqrt_floor` meets the rounded-down square root property.
pub proof fn lemma_sqrt_floor_is_sqrt(n: nat)
    ensures
        is_sqrt(n as int, sqrt_floor(n) as int),
    decreases n,
{
    if n == 0 {
    } else {
        let r = sqrt_floor((n - 1) as nat);
        lemma_sqrt_floor_is_sqrt((n - 1) as nat);
        if (r + 1) * (r + 1) <= n {
            assert((r + 1) * (r + 1) < (r + 2) * (r + 2)) by (nonlinear_arith)
                requires
                    r >= 0,
            ;
        }
    }
}

/// No two integers are the rounded-down square root of the same number.
pub proof fn lemma_sqrt_unique(n: int, r: int)
    requires
        is_sqrt(n, r),
    ensures
        n >= 0,
        r == sqrt_floor(n as nat) as int,
{
    assert(r * r >= 0) by (nonlinear_arith)
        requires
            r >= 0,
    ;
    let s = sqrt_floor(n as nat) as int;
    lemma_sqrt_floor_is_sqrt(n as nat);
    if r < s {
        assert((r + 1) * (r + 1) <= s * s) by (nonlinear_arith)
            requires
                0 <= r + 1 <= s,
        ;
        assert(false);
    }
    if s < r {
        assert((s + 1) * (s + 1) <= r * r) by (nonlinear_arith)
            requires
                0 <= s + 1 <= r,
        ;
        assert(false);
    }
}

/// A product of bounded factors is bounded by the product of the bounds.
pub proof fn lemma_mul_bound(a: int, b: int, ab: int, bb: int)
    by (nonlinear_arith)
    requires
        -ab <= a <= ab,
        -bb <= b <= bb,
    ensures
        -(ab * bb) <= a * b <= ab * bb,
{
}

/// A square is never negative.
pub proof fn lemma_square_nonneg(a: int)
    by (nonlinear_arith)
    ensures
        a * a >= 0,
{
}

/// A rounded-down square root of a value at most `m * m` is at most `m`.
pub proof fn lemma_sqrt_bound(n: int, r: int, m: int)
    by (nonlinear_arith)
    requires
        0 <= r,
        r * r <= n,
        0 <= m,
        n <= m * m,
    ensures
        r <= m,
{
}

/// A rounded-down square root of a positive value is positive.
pub proof fn lemma_sqrt_pos(n: int, r: int)
    by (nonlinear_arith)
    requires
        0 <= r,
        1 <= n,
        n < (r + 1) * (r + 1),
    ensures
        1 <= r,
{
}

/// A square of a nonzero integer is at least one.
pub proof fn lemma_square_pos(a: int)
    by (nonlinear_arith)
    ensures
        a != 0 ==> a * a >= 1,
{
}

/// Any value whose square is at most `n` is at most the rounded-down
/// square root of `n`.
pub proof fn lemma_sqrt_dominates(n: int, r: int, x: int)
    by (nonlinear_arith)
    requires
        0 <= r,
        0 <= x,
        x * x <= n,
        n < (r + 1) * (r + 1),
    ensures
        x <= r,
{
}

/// Squaring ignores the sign.
pub proof fn lemma_abs_square(a: int)
    ensures
        abs_val(a) * abs_val(a) == a * a,
{
    assert((-a) * (-a) == a * a) by (nonlinear_arith);
}

/// A nonnegative value at most `m` times the divisor divides to at most `m`.
pub proof fn lemma_div_pos_bound(a: int, b: int, m: int)
    by (nonlinear_arith)
    requires
        0 <= a,
        1 <= b,
        0 <= m,
        a <= m * b,
    ensures
        0 <= a / b <= m,
{
}

/// A value at least as large as the divisor divides to at least one.
pub proof fn lemma_div_lower(a: int, b: int)
    by (nonlinear_arith)
    requires
        1 <= b <= a,
    ensures
        1 <= a / b,
{
}

/// Truncating division is insensitive to moving the sign of the dividend.
pub proof fn lemma_abs_mul(u: int, scale: int)
    by (nonlinear_arith)
    requires
        0 <= scale,
    ensures
        abs_val(u * scale) == abs_val(u) * scale,
{
}

/// Scaling a value by `scale` and dividing by a bound on its magnitude
/// leaves a result of magnitude at most `scale`.
pub proof fn lemma_scaled_div_bound(u: int, len: int, scale: int)
    requires
        1 <= len,
        abs_val(u) <= len,
        0 <= scale,
    ensures
        abs_val(div_tz(u * scale, len)) <= scale,
{
    lemma_abs_mul(u, scale);
    assert(abs_val(u) * scale <= scale * len) by (nonlinear_arith)
        requires
            0 <= abs_val(u) <= len,
            0 <= scale,
    ;
    lemma_div_pos_bound(abs_val(u * scale), len, scale);
    assert(div_tz(u * scale, len) == if u * scale >= 0 {
        abs_val(u * scale) / len
    } else {
        -(abs_val(u * scale) / len)
    });
}

/// A dividend of magnitude at most `m` times the divisor leaves a
/// truncated quotient of magnitude at most `m`.
pub proof fn lemma_div_tz_bound(a: int, b: int, m: int)
    requires
        1 <= b,
        0 <= m,
        abs_val(a) <= m * b,
    ensures
        abs_val(div_tz(a, b)) <= m,
{
    lemma_div_pos_bound(abs_val(a), b, m);
}

/// The numerator of a line-offset test is bounded by three times the
/// product of a bound on the coefficients and a bound on the coordinates.
pub proof fn lemma_offset_bound(a: int, b: int, v0y: int, px: int, py: int, den: int, m: int)
    by (nonlinear_arith)
    requires
        0 <= den,
        -den <= a <= den,
        -den <= b <= den,
        -m <= px <= m,
        -m <= py <= m,
        -m <= v0y <= m,
        0 <= m,
    ensures
        -(3 * (den * m)) <= a * px - b * py + v0y * b <= 3 * (den * m),
{
}

/// The integer square root of `n`, rounded down, by bisection.
pub fn isqrt(n: u64) -> (r: u64)
    ensures
        r == sqrt_floor(n as nat),
        is_sqrt(n as int, r as int),
{
    proof {
        lemma_sqrt_floor_is_sqrt(n as nat);
    }
    let mut lo: u64 = 0;
    let mut hi: u64 = 4294967296;
    while lo + 1 < hi
        invariant
            lo < hi <= 4294967296,
            (lo as int) * (lo as int) <= n as int,
            (n as int) < (hi as int) * (hi as int),
        decreases hi - lo,
    {
        let mid: u64 = lo + (hi - lo) / 2;
        proof {
            assert((mid as int) * (mid as int) <= 0x10000000000000000int) by (nonlinear_arith)
                requires
                    0 <= mid <= 0x100000000,
            ;
        }
        if (mid as u128) * (mid as u128) <= (n as u128) {
            lo = mid;
        } else {
            hi = mid;
        }
    }
    proof {
        lemma_sqrt_unique(n as int, lo as int);
    }
    lo
}

/// Quotient of `a` by `b`, truncated toward zero, computed on magnitudes.
pub fn div_trunc(a: i64, b: i64) -> (q: i64)
    requires
        b != 0,
        a != i64::MIN,
        b != i64::MIN,
    ensures
        q == div_tz(a as int, b as int),
        abs_val(q as int) <= abs_val(a as int),
{
    let ua: u64 = if a < 0 {
        (-a) as u64
    } else {
        a as u64
    };
    let ub: u64 = if b < 0 {
        (-b) as u64
    } else {
        b as u64
    };
    let uq: u64 = ua / ub;
    proof {
        assert(ua as int / ub as int <= ua as int) by (nonlinear_arith)
            requires
                ub as int >= 1,
                ua as int >= 0,
        ;
    }
    let qi: i64 = uq as i64;
    if (a < 0) != (b < 0) {
        -qi
    } else {
        qi
    }
}

} // verus!
