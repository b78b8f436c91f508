//! Fixed-point arithmetic: the numeric ground the whole kernel stands on.
//!
//! A fixed-point value is an integer holding the physical quantity times
//! [`crate::SCALE`].  Products and quotients are defined by truncating
//! division toward zero, mirrored exactly by the spec functions here.

use vstd::prelude::*;

use crate::SCALE;

verus! {

/// Magnitude of a mathematical integer.
pub open spec fn abs_int(a: int) -> int {
    if a >= 0 {
        a
    } else {
        -a
    }
}

/// Quotient of `a` by `b`, rounded toward zero (the rounding used by all
/// fixed-point operations of this library).
pub open spec fn tdiv(a: int, b: int) -> int {
    if (a >= 0) == (b >= 0) {
        abs_int(a) / abs_int(b)
    } else {
        -(abs_int(a) / abs_int(b))
    }
}

/// Product of two fixed-point values.
pub open spec fn fmul(a: int, b: int) -> int {
    tdiv(a * b, SCALE as int)
}

/// Quotient of two fixed-point values.
pub open spec fn fdiv(a: int, b: int) -> int {
    tdiv(a * SCALE, b)
}

/// The magnitude of a truncated quotient never exceeds the magnitude of
/// the dividend, and shrinks with the divisor.
pub proof fn lemma_tdiv_bound(a: int, b: int)
    requires
        b >= 1,
    ensures
        abs_int(tdiv(a, b)) <= abs_int(a) / b,
        abs_int(tdiv(a, b)) <= abs_int(a),
{
    let m = abs_int(a);
    assert(m / b <= m) by (nonlinear_arith)
        requires
            m >= 0,
            b >= 1,
    ;
    assert(m / b >= 0) by (nonlinear_arith)
        requires
            m >= 0,
            b >= 1,
    ;
}

/// Truncating division toward zero on wide integers.
pub fn tdiv_i128(a: i128, b: i128) -> (r: i128)
    requires
        a > i128::MIN,
        b > 0,
    ensures
        r == tdiv(a as int, b as int),
        abs_int(r as int) <= abs_int(a as int) / (b as int),
        abs_int(r as int) <= abs_int(a as int),
{
    proof {
        lemma_tdiv_bound(a as int, b as int);
    }
    let ua: u128 = if a >= 0 {
        a as u128
    } else {
        (-a) as u128
    };
    let ub: u128 = b as u128;
    let q: u128 = ua / ub;
    proof {
        assert(ua as int / ub as int <= ua as int) by (nonlinear_arith)
            requires
                ua >= 0,
                ub >= 1,
        ;
    }
    if a >= 0 {
        q as i128
    } else {
        -(q as i128)
    }
}

/// Fixed-point product on wide integers.
pub fn fmul_i128(a: i128, b: i128) -> (r: i128)
    requires
        i128::MIN < a * b <= i128::MAX,
    ensures
        r == fmul(a as int, b as int),
        abs_int(r as int) <= abs_int((a as int) * (b as int)) / (SCALE as int),
{
    tdiv_i128(a * b, SCALE as i128)
}

/// A product of bounded factors is bounded by the product of the bounds.
pub proof fn lemma_abs_mul_le(a: int, b: int, ma: int, mb: int)
    requires
        abs_int(a) <= ma,
        abs_int(b) <= mb,
    ensures
        abs_int(a * b) <= ma * mb,
{
    assert(abs_int(a * b) <= ma * mb) by (nonlinear_arith)
        requires
            abs_int(a) <= ma,
            abs_int(b) <= mb,
    ;
}

/// A division bound transfers through a larger dividend bound.
pub proof fn lemma_abs_div_le(a: int, b: int, m: int)
    requires
        abs_int(a) <= m,
        b >= 1,
    ensures
        abs_int(a) / b <= m / b,
        abs_int(a) / b <= m,
{
    assert(abs_int(a) / b <= m / b && m / b <= m) by (nonlinear_arith)
        requires
            0 <= abs_int(a) <= m,
            b >= 1,
    ;
}

/// Fixed-point quotient on wide integers.
pub fn fdiv_i128(a: i128, b: i128) -> (r: i128)
    requires
        i128::MIN < a * SCALE <= i128::MAX,
        b > 0,
    ensures
        r == fdiv(a as int, b as int),
        abs_int(r as int) <= abs_int((a as int) * (SCALE as int)) / (b as int),
        abs_int(r as int) <= abs_int((a as int) * (SCALE as int)),
{
    tdiv_i128(a * (SCALE as i128), b)
}

/// Whether `r` is the integer square root of `x`, rounded down.
pub open spec fn is_sqrt_floor(x: int, r: int) -> bool {
    0 <= r && r * r <= x && x < (r + 1) * (r + 1)
}

/// The integer square root of `x`, rounded down.
pub open spec fn sqrt_floor(x: int) -> int
    recommends
        x >= 0,
{
    choose|r: int| is_sqrt_floor(x, r)
}

/// Every nonnegative integer has a floor square root.
pub proof fn lemma_sqrt_floor_exists(x: int)
    requires
        x >= 0,
    ensures
        is_sqrt_floor(x, sqrt_floor(x)),
    decreases x,
{
    if x == 0 {
        assert(is_sqrt_floor(0, 0));
    } else {
        lemma_sqrt_floor_exists(x - 1);
        let r = sqrt_floor(x - 1);
        if (r + 1) * (r + 1) == x {
            assert((r + 1 + 1) * (r + 1 + 1) > x) by (nonlinear_arith)
                requires
                    r >= 0,
                    (r + 1) * (r + 1) == x,
            ;
            assert(is_sqrt_floor(x, r + 1));
        } else {
            assert(is_sqrt_floor(x, r));
        }
    }
}

/// The floor square root is unique.
pub proof fn lemma_sqrt_floor_unique(x: int, r: int)
    requires
        x >= 0,
        is_sqrt_floor(x, r),
    ensures
        r == sqrt_floor(x),
{
    lemma_sqrt_floor_exists(x);
    let s = sqrt_floor(x);
    assert(r == s) by (nonlinear_arith)
        requires
            0 <= r,
            0 <= s,
            r * r <= x,
            x < (r + 1) * (r + 1),
            s * s <= x,
            x < (s + 1) * (s + 1),
    ;
}

/// Squares grow with their (nonnegative) argument, so a bound on the
/// square bounds the root.
pub proof fn lemma_sqrt_floor_le(x: int, m: int)
    requires
        0 <= x,
        0 <= m,
        x < m * m,
    ensures
        sqrt_floor(x) < m,
{
    lemma_sqrt_floor_exists(x);
    let s = sqrt_floor(x);
    assert(s < m) by (nonlinear_arith)
        requires
            0 <= s,
            0 <= m,
            s * s <= x,
            x < m * m,
    ;
}

/// Integer square root by bisection.
pub fn isqrt_u128(x: u128) -> (r: u64)
    ensures
        r == sqrt_floor(x as int),
        is_sqrt_floor(x as int, r as int),
{
    let mut lo: u64 = 0;
    let mut hi: u64 = if x >= u64::MAX as u128 {
        u64::MAX
    } else {
        x as u64
    };
    proof {
        assert((x as int) < (hi as int + 1) * (hi as int + 1)) by (nonlinear_arith)
            requires
                hi == u64::MAX && x <= u128::MAX || hi == x && x < u64::MAX as u128,
        ;
    }
    while lo < hi
        invariant
            lo <= hi,
            (lo as int) * (lo as int) <= x as int,
            (x as int) < (hi as int + 1) * (hi as int + 1),
        decreases hi - lo,
    {
        let mid: u64 = hi - (hi - lo) / 2;
        proof {
            assert((mid as int) * (mid as int) <= (u64::MAX as int) * (u64::MAX as int))
                by (nonlinear_arith)
                requires
                    0 <= mid <= u64::MAX,
            ;
        }
        let sq: u128 = (mid as u128) * (mid as u128);
        if sq <= x {
            lo = mid;
        } else {
            hi = mid - 1;
        }
    }
    proof {
        lemma_sqrt_floor_unique(x as int, lo as int);
    }
    lo
}

/// Square root of a nonnegative fixed-point value, rounded down in the
/// last raw step.
pub open spec fn sqrt_fixed(v: int) -> int {
    sqrt_floor(v * SCALE)
}

/// Computes [`sqrt_fixed`] for wide nonnegative inputs.
pub fn sqrt_fixed_i128(v: i128) -> (r: u64)
    requires
        0 <= v,
        v * SCALE <= u128::MAX,
    ensures
        r == sqrt_fixed(v as int),
{
    isqrt_u128((v as u128) * (SCALE as u128))
}

/// Fixed-point product of two narrow values; the result is wide, and no
/// intermediate can overflow.
pub fn fmul_i64(a: i64, b: i64) -> (r: i128)
    requires
        true,
    ensures
        r == fmul(a as int, b as int),
        abs_int(r as int) <= abs_int((a as int) * (b as int)) / (SCALE as int),
{
    proof {
        assert(i128::MIN < (a as int) * (b as int) <= i128::MAX) by (nonlinear_arith)
            requires
                i64::MIN <= a <= i64::MAX,
                i64::MIN <= b <= i64::MAX,
        ;
    }
    tdiv_i128((a as i128) * (b as i128), SCALE as i128)
}

/// Division is exact on products: `(a*b)/b == a`.
pub proof fn lemma_tdiv_exact(a: int, b: int)
    requires
        b > 0,
    ensures
        tdiv(a * b, b) == a,
{
    assert(abs_int(a * b) == abs_int(a) * b) by (nonlinear_arith)
        requires
            b > 0,
    ;
    assert((abs_int(a) * b) / b == abs_int(a)) by (nonlinear_arith)
        requires
            b > 0,
    ;
    assert(a < 0 ==> a * b < 0) by (nonlinear_arith)
        requires
            b > 0,
    ;
    assert(a >= 0 ==> a * b >= 0) by (nonlinear_arith)
        requires
            b > 0,
    ;
}

/// One term of the fixed-point Taylor expansion of the exponential:
/// `x^j / j!`, built by repeated fixed-point multiplication.
pub open spec fn exp_term(x: int, j: nat) -> int
    decreases j,
{
    if j == 0 {
        SCALE as int
    } else {
        tdiv(fmul(exp_term(x, (j - 1) as nat), x), j as int)
    }
}

/// The fixed-point Taylor expansion of the exponential, up to the
/// `k`-th term.
pub open spec fn exp_sum(x: int, k: nat) -> int
    decreases k,
{
    if k == 0 {
        exp_term(x, 0)
    } else {
        exp_sum(x, (k - 1) as nat) + exp_term(x, k)
    }
}

/// The exponential of a fixed-point value, defined as the Taylor
/// polynomial of degree eight evaluated in fixed-point arithmetic.
pub open spec fn exp_fixed_spec(x: int) -> int {
    exp_sum(x, 8)
}

/// Every Taylor term of a small argument is bounded by two units.
proof fn lemma_exp_term_bound(x: int, j: nat)
    requires
        abs_int(x) <= 2 * SCALE,
        1 <= j,
    ensures
        abs_int(exp_term(x, j)) <= 2 * SCALE,
    decreases j,
{
    let s = SCALE as int;
    if j == 1 {
        lemma_tdiv_exact(x, s);
        assert(exp_term(x, 1) == tdiv(tdiv(s * x, s), 1));
        assert(s * x == x * s) by (nonlinear_arith);
        assert(tdiv(s * x, s) == x);
        assert(tdiv(x, 1) == x) by {
            assert(abs_int(x) / 1 == abs_int(x)) by (nonlinear_arith);
        }
    } else {
        lemma_exp_term_bound(x, (j - 1) as nat);
        let prev = exp_term(x, (j - 1) as nat);
        lemma_abs_mul_le(prev, x, 2 * s, 2 * s);
        lemma_tdiv_bound(prev * x, s);
        lemma_abs_div_le(prev * x, s, (2 * s) * (2 * s));
        lemma_tdiv_bound(fmul(prev, x), j as int);
        assert(abs_int(fmul(prev, x)) <= 4 * s) by {
            assert(((2 * s) * (2 * s)) / s == 4 * s) by (nonlinear_arith)
                requires
                    s == SCALE as int,
            ;
        }
        assert(abs_int(tdiv(fmul(prev, x), j as int)) <= abs_int(fmul(prev, x)) / (j as int));
        assert(abs_int(fmul(prev, x)) / (j as int) <= 2 * s) by (nonlinear_arith)
            requires
                j >= 2,
                0 <= abs_int(fmul(prev, x)) <= 4 * s,
                s > 0,
        ;
    }
}

/// Computes [`exp_fixed_spec`] for small arguments.
pub fn exp_fixed(x: i64) -> (r: i64)
    requires
        -2 * SCALE <= x <= 2 * SCALE,
    ensures
        r == exp_fixed_spec(x as int),
        abs_int(r as int) <= 20 * SCALE,
{
    let mut term: i128 = SCALE as i128;
    let mut acc: i128 = SCALE as i128;
    let mut j: i64 = 1;
    while j <= 8
        invariant
            -2 * SCALE <= x <= 2 * SCALE,
            1 <= j <= 9,
            term == exp_term(x as int, (j - 1) as nat),
            acc == exp_sum(x as int, (j - 1) as nat),
            abs_int(term as int) <= 2 * SCALE,
            abs_int(acc as int) <= (1 + 2 * (j - 1)) * (SCALE as int),
        decreases 9 - j,
    {
        proof {
            lemma_exp_term_bound(x as int, j as nat);
            lemma_abs_mul_le(term as int, x as int, 2 * SCALE, 2 * SCALE);
            lemma_abs_div_le((term as int) * (x as int), SCALE as int, (2 * SCALE) * (2 * SCALE));
            assert(((2 * SCALE) * (2 * SCALE)) / (SCALE as int) == 4 * SCALE)
                by (nonlinear_arith);
        }
        let p: i128 = fmul_i128(term, x as i128);
        proof {
            assert(abs_int(p as int) <= 4 * SCALE);
        }
        term = tdiv_i128(p, j as i128);
        acc = acc + term;
        proof {
            assert((1 + 2 * (j - 1)) * (SCALE as int) + 2 * SCALE == (1 + 2 * j) * (
            SCALE as int)) by (nonlinear_arith);
        }
        j = j + 1;
    }
    acc as i64
}

} // verus!
