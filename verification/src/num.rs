//! Exact integer arithmetic helpers for the world model.
//!
//! World coordinates are plain `i64` values, so every geometric question the
//! game asks (flooring a position into a region, truncating a fixed-point
//! product, taking the length of a displacement) reduces to one of the
//! verified routines below.

use vstd::prelude::*;

verus! {

use vstd::arithmetic::div_mod::{
    lemma_fundamental_div_mod,
    lemma_div_is_ordered,
    lemma_div_multiples_vanish,
    lemma_div_pos_is_pos,
};

/// Truncating division (rounds toward zero), the rounding a hardware `/`
/// performs on signed integers.
pub open spec fn tdiv(a: int, b: int) -> int
    recommends
        b > 0,
{
    if a >= 0 {
        a / b
    } else {
        -((-a) / b)
    }
}

/// Absolute value, for use in specifications.
pub open spec fn iabs(a: int) -> int {
    if a >= 0 {
        a
    } else {
        -a
    }
}

/// `x * y` stays within the product of the bounds of `x` and `y`.
pub proof fn lemma_mul_bound(x: int, y: int, bx: int, by: int)
    requires
        -bx <= x <= bx,
        -by <= y <= by,
        0 <= bx,
        0 <= by,
    ensures
        -(bx * by) <= x * y <= bx * by,
{
    assert(-(bx * by) <= x * y <= bx * by) by (nonlinear_arith)
        requires
            -bx <= x <= bx,
            -by <= y <= by,
            0 <= bx,
            0 <= by,
    ;
}

/// If a square is below another square of a nonnegative number, so is the
/// absolute value of its root.
pub proof fn lemma_sq_lt(a: int, b: int)
    requires
        a * a < b * b,
        b >= 0,
    ensures
        -b < a < b,
{
    assert(-b < a < b) by (nonlinear_arith)
        requires
            a * a < b * b,
            b >= 0,
    ;
}

/// The quotient of a truncating division is bounded whenever the dividend is.
pub proof fn lemma_tdiv_bound(a: int, b: int, c: int)
    requires
        b > 0,
        c >= 0,
        -(c * b) <= a <= c * b,
    ensures
        -c <= tdiv(a, b) <= c,
{
    assert(c * b == b * c);
    if a >= 0 {
        lemma_div_is_ordered(a, b * c, b);
        lemma_div_multiples_vanish(c, b);
        lemma_div_pos_is_pos(a, b);
    } else {
        lemma_div_is_ordered(-a, b * c, b);
        lemma_div_multiples_vanish(c, b);
        lemma_div_pos_is_pos(-a, b);
    }
}

/// Truncating division is monotone in the dividend.
pub proof fn lemma_tdiv_monotone(a: int, b: int, d: int)
    requires
        d > 0,
        a <= b,
    ensures
        tdiv(a, d) <= tdiv(b, d),
{
    if a >= 0 {
        lemma_div_is_ordered(a, b, d);
    } else if b < 0 {
        lemma_div_is_ordered(-b, -a, d);
    } else {
        lemma_div_pos_is_pos(-a, d);
        lemma_div_pos_is_pos(b, d);
    }
}

/// Flooring division of a signed coordinate by a positive span.
///
/// The result is the mathematical floor of `a / b`, also for negative `a`,
/// matching the spec-level `/` on `int` for a positive divisor.
pub fn div_floor_i64(a: i64, b: i64) -> (q: i64)
    requires
        b > 0,
        a > i64::MIN,
    ensures
        q == a as int / b as int,
{
    let neg: bool = a < 0;
    let ua: u64 = if neg {
        (-a) as u64
    } else {
        a as u64
    };
    let ub: u64 = b as u64;
    let uq: u64 = ua / ub;
    let ur: u64 = ua % ub;
    proof {
        lemma_fundamental_div_mod(ua as int, ub as int);
    }
    if neg {
        if ur == 0 {
            proof {
                lemma_div_multiples_vanish(-(uq as int), ub as int);
                assert(a as int == (ub as int) * (-(uq as int))) by (nonlinear_arith)
                    requires
                        ua == (ub as int) * (uq as int),
                        a == -(ua as int),
                ;
            }
            -(uq as i64)
        } else {
            proof {
                let qq: int = -(uq as int) - 1;
                let rr: int = ub as int - ur as int;
                assert(a as int == qq * (ub as int) + rr) by (nonlinear_arith)
                    requires
                        ua == (ub as int) * (uq as int) + ur,
                        a == -(ua as int),
                        qq == -(uq as int) - 1,
                        rr == ub as int - ur as int,
                ;
                vstd::arithmetic::div_mod::lemma_fundamental_div_mod_converse_div(
                    a as int,
                    ub as int,
                    qq,
                    rr,
                );
            }
            -(uq as i64) - 1
        }
    } else {
        uq as i64
    }
}

/// Truncating division of a signed value by a positive divisor: the
/// rounding applied when a fixed-point product is scaled back.
pub fn div_trunc_i64(a: i64, b: i64) -> (q: i64)
    requires
        b > 0,
        a > i64::MIN,
    ensures
        q == tdiv(a as int, b as int),
{
    let neg: bool = a < 0;
    let ua: u64 = if neg {
        (-a) as u64
    } else {
        a as u64
    };
    let ub: u64 = b as u64;
    let uq: u64 = ua / ub;
    proof {
        lemma_div_pos_is_pos(ua as int, ub as int);
        vstd::arithmetic::div_mod::lemma_div_nonincreasing(ua as int, ub as int);
    }
    if neg {
        -(uq as i64)
    } else {
        uq as i64
    }
}

/// Integer square root: the largest integer whose square does not exceed `n`.
pub fn isqrt_u64(n: u64) -> (r: u64)
    requires
        n <= 0x4000_0000_0000_0000,
    ensures
        r * r <= n < (r + 1) * (r + 1),
{
    let mut lo: u64 = 0;
    let mut hi: u64 = 0x8000_0000;
    proof {
        assert((0x8000_0000u64 + 1) * (0x8000_0000u64 + 1) > 0x4000_0000_0000_0000)
            by (nonlinear_arith);
    }
    while lo < hi
        invariant
            lo <= hi <= 0x8000_0000,
            lo * lo <= n,
            n < (hi + 1) * (hi + 1),
        decreases hi - lo,
    {
        let mid: u64 = (lo + hi + 1) / 2;
        assert(lo < mid <= hi);
        proof {
            assert(mid * mid <= 0x4000_0000_0000_0000) by (nonlinear_arith)
                requires
                    mid <= 0x8000_0000u64,
            ;
        }
        if mid * mid <= n {
            lo = mid;
        } else {
            hi = mid - 1;
        }
    }
    lo
}

/// The integer square root of a nonnegative number, as the unique value
/// whose square brackets it.
pub open spec fn spec_sqrt(n: int) -> int {
    choose|r: int| 0 <= r && #[trigger] (r * r) <= n && n < (r + 1) * (r + 1)
}

/// Any value whose square brackets `n` is the integer square root of `n`.
pub proof fn lemma_sqrt_unique(n: int, r: int)
    requires
        0 <= r,
        r * r <= n,
        n < (r + 1) * (r + 1),
    ensures
        spec_sqrt(n) == r,
{
    assert(exists|x: int| 0 <= x && #[trigger] (x * x) <= n && n < (x + 1) * (x + 1)) by {
        assert(r * r <= n);
    }
    let r2 = spec_sqrt(n);
    assert(0 <= r2 && r2 * r2 <= n && n < (r2 + 1) * (r2 + 1));
    assert(r2 == r) by (nonlinear_arith)
        requires
            0 <= r,
            r * r <= n,
            n < (r + 1) * (r + 1),
            0 <= r2,
            r2 * r2 <= n,
            n < (r2 + 1) * (r2 + 1),
    ;
}

/// Binary logarithm, rounded down, as a recursive halving count.
pub open spec fn spec_ilog2(n: nat) -> nat
    decreases n,
{
    if n < 2 {
        0
    } else {
        1 + spec_ilog2(n / 2)
    }
}

/// Floor of the binary logarithm of a positive number.
pub fn ilog2_u64(n: u64) -> (r: u64)
    requires
        n >= 1,
    ensures
        r == spec_ilog2(n as nat),
{
    let mut v: u64 = n;
    let mut r: u64 = 0;
    while v >= 2
        invariant
            1 <= v <= n,
            r <= 64,
            spec_ilog2(n as nat) == r + spec_ilog2(v as nat),
        decreases v,
    {
        proof {
            assert(spec_ilog2(v as nat) == 1 + spec_ilog2((v / 2) as nat));
            assert(r + 1 <= 64) by {
                assert(v as nat >= 2);
                lemma_ilog2_le_64(v as nat);
                assert(spec_ilog2(v as nat) >= 1);
                lemma_ilog2_le_64(n as nat);
            }
        }
        v = v / 2;
        r = r + 1;
    }
    r
}

/// A value below `2^k` halves to zero in fewer than `k` steps.
proof fn lemma_ilog2_bound(n: nat, k: nat)
    requires
        k >= 1,
        n < vstd::arithmetic::power2::pow2(k),
    ensures
        spec_ilog2(n) < k,
    decreases k,
{
    vstd::arithmetic::power2::lemma_pow2_unfold(k);
    if n >= 2 {
        assert(n < 2 * vstd::arithmetic::power2::pow2((k - 1) as nat));
        assert(n / 2 < vstd::arithmetic::power2::pow2((k - 1) as nat));
        if k == 1 {
            vstd::arithmetic::power2::lemma2_to64();
            assert(false);
        } else {
            lemma_ilog2_bound(n / 2, (k - 1) as nat);
        }
    }
}

/// The halving count of a 64-bit value never exceeds 64.
pub proof fn lemma_ilog2_le_64(n: nat)
    requires
        n < 0x1_0000_0000_0000_0000,
    ensures
        spec_ilog2(n) <= 64,
{
    vstd::arithmetic::power2::lemma2_to64();
    assert(vstd::arithmetic::power2::pow2(32) * vstd::arithmetic::power2::pow2(32)
        == vstd::arithmetic::power2::pow2(64)) by {
        vstd::arithmetic::power2::lemma_pow2_adds(32, 32);
    }
    lemma_ilog2_bound(n, 64);
}

/// The smaller of two signed values.
pub fn min_i64(a: i64, b: i64) -> (m: i64)
    ensures
        m == if a <= b {
            a as int
        } else {
            b as int
        },
{
    if a <= b {
        a
    } else {
        b
    }
}

} // verus!
