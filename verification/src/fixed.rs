//! Fixed-point scalars: every quantity is an `i64` counted in millionths of a unit.
//!
//! Intermediate results are computed exactly in wider integers and brought back into
//! the representable range by saturation, so no operation can wrap around.

use vstd::prelude::*;

verus! {

/// One whole unit.
pub const ONE: i64 = 1_000_000;

/// The largest magnitude a scalar can hold.
pub const LIMIT: i64 = 0x7fff_ffff_ffff_ffff;

/// The value closest to `x` that a scalar can hold.
pub open spec fn saturate(x: int) -> int {
    if x > LIMIT {
        LIMIT as int
    } else if x < -LIMIT {
        -(LIMIT as int)
    } else {
        x
    }
}

/// Division that rounds toward zero, so that a quotient never gains magnitude.
pub open spec fn trunc_div(a: int, d: int) -> int
    recommends
        d > 0,
{
    if a >= 0 {
        a / d
    } else {
        -((-a) / d)
    }
}

/// `a * b / d`, rounded toward zero and saturated.
pub open spec fn ratio(a: int, b: int, d: int) -> int
    recommends
        d > 0,
{
    saturate(trunc_div(a * b, d))
}

/// The product of two fixed-point scalars, rounded toward zero and saturated.
pub open spec fn mul_fixed(a: int, b: int) -> int {
    ratio(a, b, ONE as int)
}

/// The square of a scalar, exactly.
pub open spec fn square(a: int) -> nat {
    (a * a) as nat
}

/// `r` is the least natural number whose square reaches `n`.
pub open spec fn is_root_up(n: nat, r: nat) -> bool {
    r * r >= n && (r == 0 || (r - 1) * (r - 1) < n)
}

/// The square root of `n`, rounded up.
pub open spec fn root_up(n: nat) -> nat {
    choose|r: nat| is_root_up(n, r)
}

/// Squaring is monotone on the natural numbers.
pub proof fn lemma_square_monotone(a: nat, b: nat)
    requires
        a <= b,
    ensures
        a * a <= b * b,
{
    assert(a * a <= b * b) by (nonlinear_arith)
        requires
            0 <= a <= b,
    ;
}

/// Every natural number has a rounded-up square root.
pub proof fn lemma_some_root_up(n: nat)
    ensures
        is_root_up(n, root_up(n)),
    decreases n,
{
    if n == 0 {
        assert(is_root_up(0, 0));
    } else {
        lemma_some_root_up((n - 1) as nat);
        let r: nat = root_up((n - 1) as nat);
        if r * r >= n {
            assert(is_root_up(n, r));
        } else {
            assert((r + 1) * (r + 1) >= n) by (nonlinear_arith)
                requires
                    r * r >= n - 1,
            ;
            assert(is_root_up(n, r + 1));
        }
    }
}

/// A number has exactly one rounded-up square root.
pub proof fn lemma_root_up_unique(n: nat, r: nat)
    requires
        is_root_up(n, r),
    ensures
        r == root_up(n),
{
    let s: nat = root_up(n);
    assert(is_root_up(n, s));
    if r < s {
        lemma_square_monotone(r, (s - 1) as nat);
    } else if s < r {
        lemma_square_monotone(s, (r - 1) as nat);
    }
}

/// The square of a number is the square of its magnitude.
pub proof fn lemma_square_of_magnitude(p: int)
    ensures
        abs_int(p) * abs_int(p) == square(p),
{
    assert(abs_int(p) * abs_int(p) == p * p && p * p >= 0) by (nonlinear_arith)
        requires
            abs_int(p) == p || abs_int(p) == -p,
    ;
}

/// A number with no more magnitude has no larger square.
pub proof fn lemma_square_of_smaller(p: int, q: int)
    requires
        abs_int(p) <= abs_int(q),
    ensures
        square(p) <= square(q),
{
    lemma_square_monotone(abs_int(p) as nat, abs_int(q) as nat);
    lemma_square_of_magnitude(p);
    lemma_square_of_magnitude(q);
}

/// Multiplying by a non-negative number over a positive divisor keeps the sign.
pub proof fn lemma_ratio_keeps_sign(a: int, b: int, d: int)
    requires
        b >= 0,
        d > 0,
    ensures
        a >= 0 ==> ratio(a, b, d) >= 0,
        a <= 0 ==> ratio(a, b, d) <= 0,
{
    if a >= 0 {
        assert(a * b >= 0 && (a * b) / d >= 0) by (nonlinear_arith)
            requires
                a >= 0,
                b >= 0,
                d > 0,
        ;
    }
    if a <= 0 {
        assert(a * b <= 0 && (-(a * b)) / d >= 0) by (nonlinear_arith)
            requires
                a <= 0,
                b >= 0,
                d > 0,
        ;
        assert(0int / d == 0) by (nonlinear_arith)
            requires
                d > 0,
        ;
    }
}

/// `a * b / d` for a non-negative `b`, where `|a| <= d` or `b <= d`: the result
/// keeps the sign of `a`, its magnitude times `d` does not exceed `|a| * b`, and it
/// is no larger than `b` in the first case and than `|a|` in the second.
pub proof fn lemma_ratio_magnitude(a: int, b: int, d: int)
    requires
        0 <= b <= LIMIT,
        d > 0,
        abs_int(a) <= d || b <= d,
        abs_int(a) <= LIMIT + 1,
    ensures
        abs_int(ratio(a, b, d)) * d <= abs_int(a) * b,
        abs_int(a) <= d ==> abs_int(ratio(a, b, d)) <= b,
        b <= d ==> abs_int(ratio(a, b, d)) <= abs_int(a),
        a >= 0 ==> ratio(a, b, d) >= 0,
        a <= 0 ==> ratio(a, b, d) <= 0,
{
    let m: int = abs_int(a);
    let p: int = m * b;
    let t: int = p / d;
    assert(p >= 0) by (nonlinear_arith)
        requires
            p == m * b,
            m >= 0,
            b >= 0,
    ;
    assert(0 <= t && t * d <= p) by (nonlinear_arith)
        requires
            t == p / d,
            p >= 0,
            d > 0,
    ;
    if m <= d {
        assert(t <= b) by (nonlinear_arith)
            requires
                t == p / d,
                p == m * b,
                0 <= m <= d,
                b >= 0,
                d > 0,
        ;
    }
    if b <= d {
        assert(t <= m) by (nonlinear_arith)
            requires
                t == p / d,
                p == m * b,
                0 <= b <= d,
                m >= 0,
                d > 0,
        ;
    }
    assert(a * b == if a >= 0 { p } else { -p }) by (nonlinear_arith)
        requires
            p == m * b,
            m == if a >= 0 { a } else { -a },
    ;
    assert(0int / d == 0) by (nonlinear_arith)
        requires
            d > 0,
    ;
    assert(trunc_div(a * b, d) == if a >= 0 { t } else { -t });
    assert(m == 0 ==> p == 0) by (nonlinear_arith)
        requires
            p == m * b,
    ;
    let r: int = abs_int(ratio(a, b, d));
    assert(r <= t);
    assert(r * d <= t * d) by (nonlinear_arith)
        requires
            0 <= r <= t,
            d > 0,
    ;
}

/// Rounding toward zero loses less than one: for `|a| <= d` and a non-negative `b`,
/// the magnitude of `a * b / d` plus one, times `d`, exceeds `|a| * b`.
pub proof fn lemma_ratio_loses_less_than_one(a: int, b: int, d: int)
    requires
        0 <= b <= LIMIT,
        d > 0,
        abs_int(a) <= d,
    ensures
        (abs_int(ratio(a, b, d)) + 1) * d > abs_int(a) * b,
{
    let m: int = abs_int(a);
    let p: int = m * b;
    let t: int = p / d;
    assert(p >= 0) by (nonlinear_arith)
        requires
            p == m * b,
            m >= 0,
            b >= 0,
    ;
    assert(0 <= t && (t + 1) * d > p) by (nonlinear_arith)
        requires
            t == p / d,
            p >= 0,
            d > 0,
    ;
    assert(t <= b) by (nonlinear_arith)
        requires
            t == p / d,
            p == m * b,
            0 <= m <= d,
            b >= 0,
            d > 0,
    ;
    assert(a * b == if a >= 0 { p } else { -p }) by (nonlinear_arith)
        requires
            p == m * b,
            m == if a >= 0 { a } else { -a },
    ;
    assert(0int / d == 0) by (nonlinear_arith)
        requires
            d > 0,
    ;
    assert(trunc_div(a * b, d) == if a >= 0 { t } else { -t });
    assert(abs_int(ratio(a, b, d)) == t);
}

/// Brings an exact intermediate result back into the scalar range.
pub fn saturate_to_scalar(x: i128) -> (r: i64)
    ensures
        r == saturate(x as int),
{
    if x > LIMIT as i128 {
        LIMIT
    } else if x < -(LIMIT as i128) {
        -LIMIT
    } else {
        x as i64
    }
}

/// Divides by a positive number, rounding toward zero.
pub fn div_toward_zero(a: i128, d: i128) -> (q: i128)
    requires
        d > 0,
        a > i128::MIN,
    ensures
        q == trunc_div(a as int, d as int),
        -abs_int(a as int) <= q <= abs_int(a as int),
{
    if a >= 0 {
        let q: i128 = a / d;
        assert(0 <= q <= a) by (nonlinear_arith)
            requires
                q == (a as int) / (d as int),
                a >= 0,
                d > 0,
        ;
        q
    } else {
        let m: i128 = -a;
        let q: i128 = m / d;
        assert(0 <= q <= m) by (nonlinear_arith)
            requires
                q == (m as int) / (d as int),
                m >= 0,
                d > 0,
        ;
        -q
    }
}

/// The magnitude of an integer.
pub open spec fn abs_int(a: int) -> int {
    if a >= 0 {
        a
    } else {
        -a
    }
}

/// The product of two scalars over a positive divisor, rounded toward zero and
/// saturated.
pub fn mul_div(a: i64, b: i64, d: i128) -> (r: i64)
    requires
        d > 0,
    ensures
        r == ratio(a as int, b as int, d as int),
{
    assert(-0x4000_0000_0000_0000_0000_0000_0000_0000 <= a * b
        <= 0x4000_0000_0000_0000_0000_0000_0000_0000) by (nonlinear_arith)
        requires
            -0x8000_0000_0000_0000 <= a <= 0x8000_0000_0000_0000,
            -0x8000_0000_0000_0000 <= b <= 0x8000_0000_0000_0000,
    ;
    let p: i128 = (a as i128) * (b as i128);
    saturate_to_scalar(div_toward_zero(p, d))
}

/// The product of two fixed-point scalars, rounded toward zero and saturated.
pub fn mul_scalar(a: i64, b: i64) -> (r: i64)
    ensures
        r == mul_fixed(a as int, b as int),
{
    mul_div(a, b, ONE as i128)
}

/// The square of a scalar, exactly.
pub fn square_of(a: i64) -> (r: u128)
    ensures
        r == square(a as int),
        r <= 0x4000_0000_0000_0000_0000_0000_0000_0000,
{
    assert(0 <= a * a <= 0x4000_0000_0000_0000_0000_0000_0000_0000) by (nonlinear_arith)
        requires
            -0x8000_0000_0000_0000 <= a <= 0x8000_0000_0000_0000,
    ;
    let p: i128 = (a as i128) * (a as i128);
    p as u128
}

/// The difference of two scalars, saturated.
pub fn sub_saturating(a: i64, b: i64) -> (r: i64)
    ensures
        r == saturate(a - b),
{
    saturate_to_scalar(a as i128 - b as i128)
}

/// The sum of two scalars, saturated.
pub fn add_saturating(a: i64, b: i64) -> (r: i64)
    ensures
        r == saturate(a + b),
{
    saturate_to_scalar(a as i128 + b as i128)
}

/// The square root of `n`, rounded up.
pub fn isqrt_up(n: u128) -> (r: u128)
    ensures
        r == root_up(n as nat),
        is_root_up(n as nat, r as nat),
        r <= 0x1_0000_0000_0000_0000,
{
    if n == 0 {
        proof {
            lemma_root_up_unique(0, 0);
        }
        return 0;
    }
    let mut lo: u128 = 0;
    let mut hi: u128 = 0x1_0000_0000_0000_0000;
    assert(hi * hi >= n) by (nonlinear_arith)
        requires
            hi == 0x1_0000_0000_0000_0000,
            n <= 0xffff_ffff_ffff_ffff_ffff_ffff_ffff_ffff,
    ;
    while hi - lo > 1
        invariant
            lo < hi <= 0x1_0000_0000_0000_0000,
            lo * lo < n,
            hi * hi >= n,
        decreases hi - lo,
    {
        let mid: u128 = lo + (hi - lo) / 2;
        assert(mid * mid <= 0xffff_ffff_ffff_ffff_ffff_ffff_ffff_ffff) by (nonlinear_arith)
            requires
                0 <= mid <= 0xffff_ffff_ffff_ffff,
        ;
        if mid * mid >= n {
            hi = mid;
        } else {
            lo = mid;
        }
    }
    proof {
        assert(hi - 1 == lo);
        lemma_root_up_unique(n as nat, hi as nat);
    }
    hi
}

} // verus!
