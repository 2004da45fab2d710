//! Exact integer arithmetic the physics rests on: truncated division and the
//! floor of a square root.

use vstd::prelude::*;
use vstd::arithmetic::div_mod::lemma_div_multiples_vanish;

verus! {

/// Quotient of `a` by positive `b`, rounded toward zero.
pub open spec fn trunc_div(a: int, b: int) -> int
    recommends
        b >= 1,
{
    if a >= 0 {
        a / b
    } else {
        -((-a) / b)
    }
}

/// `r` is the floor of the square root of `n`.
pub open spec fn is_sqrt_floor(n: int, r: int) -> bool {
    0 <= r && r * r <= n && n < (r + 1) * (r + 1)
}

/// The floor of the square root of a non-negative integer.
pub open spec fn sqrt_floor(n: int) -> int {
    choose|r: int| is_sqrt_floor(n, r)
}

/// At most one integer brackets `n` as its floor square root.
pub proof fn lemma_sqrt_floor_unique(n: int, r1: int, r2: int)
    by (nonlinear_arith)
    requires
        is_sqrt_floor(n, r1),
        is_sqrt_floor(n, r2),
    ensures
        r1 == r2,
{
}

/// A bracketing witness pins `sqrt_floor` down.
pub proof fn lemma_sqrt_floor_of(n: int, r: int)
    requires
        is_sqrt_floor(n, r),
    ensures
        sqrt_floor(n) == r,
{
    let r0 = choose|r0: int| is_sqrt_floor(n, r0);
    lemma_sqrt_floor_unique(n, r0, r);
}

/// The floor square root is zero exactly on zero.
pub proof fn lemma_sqrt_floor_zero(n: int, r: int)
    by (nonlinear_arith)
    requires
        is_sqrt_floor(n, r),
    ensures
        (r == 0) <==> (n == 0),
{
}

/// Truncated division recovers an exact multiple.
pub proof fn lemma_trunc_div_exact(q: int, b: int)
    requires
        b >= 1,
    ensures
        trunc_div(q * b, b) == q,
{
    if q >= 0 {
        assert(q * b >= 0 && q * b == b * q) by (nonlinear_arith)
            requires q >= 0 && b >= 1;
        lemma_div_multiples_vanish(q, b);
    } else {
        assert(q * b < 0 && -(q * b) == b * (-q)) by (nonlinear_arith)
            requires q < 0 && b >= 1;
        lemma_div_multiples_vanish(-q, b);
    }
}

/// A truncated quotient whose numerator is bounded by `b * c` is bounded by `c`.
pub proof fn lemma_trunc_div_bound(a: int, b: int, c: int)
    requires
        b >= 1,
        0 <= c,
        -(b * c) <= a <= b * c,
    ensures
        -c <= trunc_div(a, b) <= c,
{
    if a >= 0 {
        vstd::arithmetic::div_mod::lemma_multiply_divide_le(a, b, c);
        vstd::arithmetic::div_mod::lemma_div_pos_is_pos(a, b);
    } else {
        vstd::arithmetic::div_mod::lemma_multiply_divide_le(-a, b, c);
        vstd::arithmetic::div_mod::lemma_div_pos_is_pos(-a, b);
    }
}

/// Every non-negative integer has a floor square root.
pub proof fn lemma_sqrt_floor_exists(n: int)
    requires
        n >= 0,
    ensures
        is_sqrt_floor(n, sqrt_floor(n)),
    decreases n,
{
    if n == 0 {
        assert(is_sqrt_floor(0, 0)) by (nonlinear_arith);
        lemma_sqrt_floor_of(0, 0);
    } else {
        lemma_sqrt_floor_exists(n - 1);
        let r = sqrt_floor(n - 1);
        if n < (r + 1) * (r + 1) {
            assert(is_sqrt_floor(n, r));
            lemma_sqrt_floor_of(n, r);
        } else {
            assert(is_sqrt_floor(n, r + 1)) by (nonlinear_arith)
                requires
                    is_sqrt_floor(n - 1, r) && n >= (r + 1) * (r + 1);
            lemma_sqrt_floor_of(n, r + 1);
        }
    }
}

/// The remainder a truncated division leaves is smaller than the divisor in
/// magnitude.
pub proof fn lemma_trunc_div_decompose(a: int, b: int)
    requires
        b >= 1,
    ensures
        -b < a - trunc_div(a, b) * b < b,
{
    if a >= 0 {
        vstd::arithmetic::div_mod::lemma_fundamental_div_mod(a, b);
        vstd::arithmetic::div_mod::lemma_mod_bound(a, b);
        assert(b * (a / b) == (a / b) * b) by (nonlinear_arith);
    } else {
        vstd::arithmetic::div_mod::lemma_fundamental_div_mod(-a, b);
        vstd::arithmetic::div_mod::lemma_mod_bound(-a, b);
        assert(b * ((-a) / b) == ((-a) / b) * b) by (nonlinear_arith);
        assert(a - (-((-a) / b)) * b == -((-a) - ((-a) / b) * b)) by (nonlinear_arith);
    }
}

/// A product of bounded factors is bounded by the product of the bounds.
pub proof fn lemma_mul_bounds(a: int, b: int, al: int, bl: int)
    by (nonlinear_arith)
    requires
        0 <= al,
        0 <= bl,
        -al <= a <= al,
        -bl <= b <= bl,
    ensures
        -(al * bl) <= a * b <= al * bl,
{
}

/// Floor of the square root, by bisection.
pub fn isqrt_u128(n: u128) -> (r: u64)
    requires
        n < 0x4000_0000_0000_0000_0000_0000_0000_0000u128,
    ensures
        is_sqrt_floor(n as int, r as int),
        r as int == sqrt_floor(n as int),
{
    let mut lo: u128 = 0;
    let mut hi: u128 = 0x8000_0000_0000_0000u128;
    while lo + 1 < hi
        invariant
            lo < hi <= 0x8000_0000_0000_0000u128,
            (lo as int) * (lo as int) <= n as int,
            (n as int) < (hi as int) * (hi as int),
        decreases hi - lo,
    {
        let mid = lo + (hi - lo) / 2;
        assert(lo < mid < hi);
        proof {
            assert((mid as int) * (mid as int) < 0x4000_0000_0000_0000_0000_0000_0000_0000)
                by (nonlinear_arith)
                requires 0 <= (mid as int) && (mid as int) < 0x8000_0000_0000_0000;
        }
        if mid * mid <= n {
            lo = mid;
        } else {
            hi = mid;
        }
    }
    assert(hi == lo + 1);
    assert(is_sqrt_floor(n as int, lo as int));
    proof {
        lemma_sqrt_floor_of(n as int, lo as int);
    }
    lo as u64
}

/// Quotient rounded toward zero, on machine integers.
pub fn quot_i128(a: i128, b: i128) -> (q: i128)
    requires
        1 <= b,
        -0x4000_0000_0000_0000_0000_0000_0000_0000i128 <= a
            <= 0x4000_0000_0000_0000_0000_0000_0000_0000i128,
    ensures
        q == trunc_div(a as int, b as int),
        -0x4000_0000_0000_0000_0000_0000_0000_0000i128 <= q
            <= 0x4000_0000_0000_0000_0000_0000_0000_0000i128,
{
    if a >= 0 {
        let q0 = (a as u128) / (b as u128);
        proof {
            vstd::arithmetic::div_mod::lemma_div_nonincreasing(a as int, b as int);
            vstd::arithmetic::div_mod::lemma_div_pos_is_pos(a as int, b as int);
        }
        q0 as i128
    } else {
        let q0 = ((-a) as u128) / (b as u128);
        proof {
            vstd::arithmetic::div_mod::lemma_div_nonincreasing(-a as int, b as int);
            vstd::arithmetic::div_mod::lemma_div_pos_is_pos(-a as int, b as int);
        }
        -(q0 as i128)
    }
}

} // verus!
