//! Overflow-checked fixed-point helpers over 128-bit signed amounts.
use vstd::prelude::*;

verus! {

/// Quotient of `x` by `d` rounded toward zero, as Rust's integer division does.
pub open spec fn trunc_div(x: int, d: int) -> int {
    if x == 0 {
        0
    } else if x > 0 && d > 0 {
        x / d
    } else if x < 0 && d < 0 {
        (-x) / (-d)
    } else if x < 0 {
        -((-x) / d)
    } else {
        -(x / (-d))
    }
}

/// Whether an integer fits in an `i128`.
pub open spec fn fits_i128(x: int) -> bool {
    i128::MIN <= x <= i128::MAX
}

/// `a * b / d` (rounded toward zero) when the product fits, the divisor is
/// non-zero and the quotient fits; `None` otherwise.
pub open spec fn mul_div_spec(a: int, b: int, d: int) -> Option<int> {
    if !fits_i128(a * b) || d == 0 || !fits_i128(trunc_div(a * b, d)) {
        None
    } else {
        Some(trunc_div(a * b, d))
    }
}

/// An optional machine integer seen as an optional mathematical one.
pub open spec fn opt_int(r: Option<i128>) -> Option<int> {
    match r {
        Some(v) => Some(v as int),
        None => None,
    }
}

/// Computes `a * b / d` with checked multiplication and division.
pub fn mul_div(a: i128, b: i128, d: i128) -> (r: Option<i128>)
    ensures
        opt_int(r) == mul_div_spec(a as int, b as int, d as int),
{
    match a.checked_mul(b) {
        None => None,
        Some(p) => p.checked_div(d),
    }
}

/// Largest `r` with `r * r <= x`.
pub open spec fn is_isqrt(x: int, r: int) -> bool {
    0 <= r && r * r <= x && x < (r + 1) * (r + 1)
}

/// The integer square root of a non-negative `x`.
pub open spec fn isqrt_spec(x: int) -> int {
    choose|r: int| is_isqrt(x, r)
}

/// The integer square root is unique, so `isqrt_spec` names any value found.
pub proof fn lemma_isqrt_spec(x: int, r: int)
    requires
        is_isqrt(x, r),
    ensures
        isqrt_spec(x) == r,
{
    let c = isqrt_spec(x);
    assert(is_isqrt(x, c));
    if c < r {
        assert((c + 1) * (c + 1) <= r * r) by (nonlinear_arith)
            requires
                0 <= c < r,
        ;
    } else if r < c {
        assert((r + 1) * (r + 1) <= c * c) by (nonlinear_arith)
            requires
                0 <= r < c,
        ;
    }
}

/// For positive `y`, one Babylonian step `(x / y + y) / 2` never drops below
/// the integer square root: its successor squared still exceeds `x`.
proof fn lemma_babylonian_step(x: int, y: int)
    requires
        x >= 0,
        y > 0,
    ensures
        ((x / y + y) / 2 + 1) * ((x / y + y) / 2 + 1) > x,
{
    let q = x / y;
    let n = (q + y) / 2;
    assert(x < (q + 1) * y) by (nonlinear_arith)
        requires
            q == x / y,
            y > 0,
            x >= 0,
    ;
    assert(2 * n + 2 >= q + y + 1);
    assert((q + y + 1) * (q + y + 1) >= 4 * ((q + 1) * y)) by (nonlinear_arith);
    assert(4 * ((n + 1) * (n + 1)) >= (q + y + 1) * (q + y + 1)) by (nonlinear_arith)
        requires
            2 * n + 2 >= q + y + 1,
            q >= 0,
            y > 0,
    ;
}

/// When a Babylonian step does not descend, the current value squared is at most `x`.
proof fn lemma_babylonian_stop(x: int, z: int)
    requires
        x >= 0,
        z > 0,
        (x / z + z) / 2 >= z,
    ensures
        z * z <= x,
{
    let q = x / z;
    assert(q >= z);
    assert(z * q <= x) by (nonlinear_arith)
        requires
            q == x / z,
            z > 0,
            x >= 0,
    ;
    assert(z * z <= z * q) by (nonlinear_arith)
        requires
            q >= z,
            z > 0,
    ;
}

/// Integer square root by the Babylonian method, over unsigned values.
pub(crate) fn isqrt_u128(x: u128) -> (r: u128)
    requires
        x <= i128::MAX,
    ensures
        is_isqrt(x as int, r as int),
{
    if x == 0 {
        assert(is_isqrt(0, 0)) by (nonlinear_arith);
        return 0;
    }
    let mut z: u128 = x;
    let mut y: u128 = (x + 1) / 2;
    assert(x / x == 1 && (x + 1) * (x + 1) > x) by (nonlinear_arith)
        requires
            x > 0,
    ;
    while y < z
        invariant
            0 < x <= i128::MAX,
            0 < z <= x,
            y == (x / z + z) / 2,
            (z + 1) * (z + 1) > x,
        decreases z,
    {
        proof {
            lemma_babylonian_step(x as int, z as int);
            assert(y > 0) by (nonlinear_arith)
                requires
                    (y + 1) * (y + 1) > x,
                    y >= 0,
                    x > 0,
            ;
            assert((x as int) / (y as int) <= x as int) by (nonlinear_arith)
                requires
                    y > 0,
                    x > 0,
            ;
        }
        z = y;
        y = (x / y + y) / 2;
    }
    proof {
        lemma_babylonian_stop(x as int, z as int);
    }
    z
}

} // verus!
