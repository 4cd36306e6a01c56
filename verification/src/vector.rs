//! Two-dimensional vectors of fixed-point scalars.

use vstd::prelude::*;
use crate::fixed::{
    abs_int, add_saturating, isqrt_up, lemma_ratio_loses_less_than_one, lemma_ratio_magnitude,
    lemma_root_up_unique, lemma_some_root_up,
    lemma_square_monotone, lemma_square_of_magnitude, lemma_square_of_smaller, mul_div,
    mul_fixed, mul_scalar, ratio,
    root_up, saturate, square, square_of, sub_saturating, ONE,
};

verus! {

/// A point or a displacement in the plane.
#[derive(Clone, Copy, Debug, PartialEq, Eq, Structural)]
pub struct Vec2 {
    pub x: i64,
    pub y: i64,
}

impl Vec2 {
    /// The vector with both components zero.
    pub open spec fn zero() -> Vec2 {
        Vec2 { x: 0, y: 0 }
    }

    /// Componentwise sum, saturated.
    pub open spec fn spec_plus(self, other: Vec2) -> Vec2 {
        Vec2 {
            x: saturate(self.x + other.x) as i64,
            y: saturate(self.y + other.y) as i64,
        }
    }

    /// Componentwise difference, saturated.
    pub open spec fn spec_minus(self, other: Vec2) -> Vec2 {
        Vec2 {
            x: saturate(self.x - other.x) as i64,
            y: saturate(self.y - other.y) as i64,
        }
    }

    /// Both components multiplied by the fixed-point factor `f`.
    pub open spec fn spec_scaled(self, f: i64) -> Vec2 {
        Vec2 {
            x: mul_fixed(self.x as int, f as int) as i64,
            y: mul_fixed(self.y as int, f as int) as i64,
        }
    }

    /// Both components multiplied by `num / den`.
    pub open spec fn spec_times_ratio(self, num: i64, den: int) -> Vec2
        recommends
            den > 0,
    {
        Vec2 {
            x: ratio(self.x as int, num as int, den) as i64,
            y: ratio(self.y as int, num as int, den) as i64,
        }
    }

    /// The squared magnitude, exactly.
    pub open spec fn spec_length_squared(self) -> nat {
        square(self.x as int) + square(self.y as int)
    }

    /// The magnitude, rounded up to the next representable length.
    pub open spec fn spec_length(self) -> nat {
        root_up(self.spec_length_squared())
    }

    /// Whether the magnitude is strictly below `radius`.
    pub open spec fn spec_shorter_than(self, radius: i64) -> bool {
        radius > 0 && self.spec_length_squared() < square(radius as int)
    }

    /// The vector of magnitude one (up to rounding toward zero) along `self`, or zero
    /// for the zero vector.
    pub open spec fn spec_normalize_or_zero(self) -> Vec2 {
        if self.spec_length() == 0 {
            Vec2::zero()
        } else {
            self.spec_times_ratio(ONE, self.spec_length() as int)
        }
    }

    /// `self` if its magnitude does not exceed `max`, else `self` rescaled to
    /// magnitude `max`.
    pub open spec fn spec_clamp_length_max(self, max: i64) -> Vec2 {
        if self.spec_length_squared() > square(max as int) {
            self.spec_times_ratio(max, self.spec_length() as int)
        } else {
            self
        }
    }

    /// The vector with the given components.
    pub fn new(x: i64, y: i64) -> (v: Vec2)
        ensures
            v == (Vec2 { x, y }),
    {
        Vec2 { x, y }
    }

    /// The zero vector.
    pub fn origin() -> (v: Vec2)
        ensures
            v == Vec2::zero(),
    {
        Vec2 { x: 0, y: 0 }
    }

    /// Componentwise sum, saturated.
    pub fn plus(self, other: Vec2) -> (v: Vec2)
        ensures
            v == self.spec_plus(other),
    {
        Vec2 { x: add_saturating(self.x, other.x), y: add_saturating(self.y, other.y) }
    }

    /// Componentwise difference, saturated.
    pub fn minus(self, other: Vec2) -> (v: Vec2)
        ensures
            v == self.spec_minus(other),
    {
        Vec2 { x: sub_saturating(self.x, other.x), y: sub_saturating(self.y, other.y) }
    }

    /// Multiplies both components by the fixed-point factor `f`.
    pub fn scaled(self, f: i64) -> (v: Vec2)
        ensures
            v == self.spec_scaled(f),
    {
        Vec2 { x: mul_scalar(self.x, f), y: mul_scalar(self.y, f) }
    }

    /// The squared magnitude, exactly.
    pub fn length_squared(self) -> (n: u128)
        ensures
            n == self.spec_length_squared(),
            n <= 0x8000_0000_0000_0000_0000_0000_0000_0000,
    {
        square_of(self.x) + square_of(self.y)
    }

    /// The magnitude, rounded up.
    pub fn length(self) -> (n: u128)
        ensures
            n == self.spec_length(),
            n <= 0x1_0000_0000_0000_0000,
    {
        isqrt_up(self.length_squared())
    }

    /// Whether both components are zero.
    pub fn is_zero(self) -> (b: bool)
        ensures
            b == (self == Vec2::zero()),
    {
        self.x == 0 && self.y == 0
    }

    /// Whether the magnitude is strictly below `radius`, decided on the exact squares.
    pub fn shorter_than(self, radius: i64) -> (b: bool)
        ensures
            b == self.spec_shorter_than(radius),
    {
        radius > 0 && self.length_squared() < square_of(radius)
    }

    /// The unit vector along `self`, or zero for the zero vector.
    pub fn normalize_or_zero(self) -> (v: Vec2)
        ensures
            v == self.spec_normalize_or_zero(),
    {
        let len: u128 = self.length();
        if len == 0 {
            Vec2 { x: 0, y: 0 }
        } else {
            Vec2 { x: mul_div(self.x, ONE, len as i128), y: mul_div(self.y, ONE, len as i128) }
        }
    }

    /// Limits the magnitude to `max`, keeping the direction.
    pub fn clamp_length_max(self, max: i64) -> (v: Vec2)
        ensures
            v == self.spec_clamp_length_max(max),
    {
        let n: u128 = self.length_squared();
        if n > square_of(max) {
            let len: u128 = isqrt_up(n);
            Vec2 { x: mul_div(self.x, max, len as i128), y: mul_div(self.y, max, len as i128) }
        } else {
            self
        }
    }
}

/// Whether `r` points the way `v` does, componentwise: no component of `r` has
/// the opposite sign or more magnitude than that of `v`.
pub open spec fn same_quadrant_no_longer(r: Vec2, v: Vec2) -> bool {
    &&& abs_int(r.x as int) <= abs_int(v.x as int)
    &&& abs_int(r.y as int) <= abs_int(v.y as int)
    &&& (v.x >= 0 ==> r.x >= 0)
    &&& (v.x <= 0 ==> r.x <= 0)
    &&& (v.y >= 0 ==> r.y >= 0)
    &&& (v.y <= 0 ==> r.y <= 0)
}

/// Scaling by a factor between zero and one never lengthens a vector, and keeps
/// each component's sign.
pub proof fn lemma_scaled_no_longer(v: Vec2, f: i64)
    requires
        0 <= f <= ONE,
    ensures
        v.spec_scaled(f).spec_length_squared() <= v.spec_length_squared(),
        same_quadrant_no_longer(v.spec_scaled(f), v),
{
    lemma_ratio_magnitude(v.x as int, f as int, ONE as int);
    lemma_ratio_magnitude(v.y as int, f as int, ONE as int);
    let r = v.spec_scaled(f);
    lemma_square_of_smaller(r.x as int, v.x as int);
    lemma_square_of_smaller(r.y as int, v.y as int);
}

/// No component of a vector is longer than the vector.
pub proof fn lemma_component_within_length(v: Vec2)
    ensures
        abs_int(v.x as int) <= v.spec_length(),
        abs_int(v.y as int) <= v.spec_length(),
{
    let n: nat = v.spec_length_squared();
    let len: nat = v.spec_length();
    lemma_some_root_up(n);
    let ax: nat = abs_int(v.x as int) as nat;
    let ay: nat = abs_int(v.y as int) as nat;
    lemma_square_of_magnitude(v.x as int);
    lemma_square_of_magnitude(v.y as int);
    if ax > len {
        lemma_square_monotone(len + 1, ax);
        assert((len + 1) * (len + 1) > len * len) by (nonlinear_arith);
    }
    if ay > len {
        lemma_square_monotone(len + 1, ay);
        assert((len + 1) * (len + 1) > len * len) by (nonlinear_arith);
    }
}

/// A vector shorter than `radius` has a rounded-up length of at most `radius`.
pub proof fn lemma_shorter_than_bounds_length(v: Vec2, radius: i64)
    requires
        v.spec_shorter_than(radius),
    ensures
        v.spec_length() <= radius,
{
    let len: nat = v.spec_length();
    lemma_some_root_up(v.spec_length_squared());
    if len > radius {
        lemma_square_monotone(radius as nat, (len - 1) as nat);
    }
}

/// If two magnitudes, each multiplied by `len`, stay within the components of a
/// vector no longer than `len`, multiplied by `m`, then together they are no longer
/// than `m`.
proof fn lemma_rescaled_within(a: nat, b: nat, x: nat, y: nat, m: nat, len: nat)
    requires
        len > 0,
        a * len <= x * m,
        b * len <= y * m,
        x * x + y * y <= len * len,
    ensures
        a * a + b * b <= m * m,
{
    lemma_square_monotone(a * len, x * m);
    lemma_square_monotone(b * len, y * m);
    let aa: nat = a * a;
    let bb: nat = b * b;
    let xx: nat = x * x;
    let yy: nat = y * y;
    let mm: nat = m * m;
    let ll: nat = len * len;
    assert((a * len) * (a * len) == aa * ll) by (nonlinear_arith)
        requires
            aa == a * a,
            ll == len * len,
    ;
    assert((b * len) * (b * len) == bb * ll) by (nonlinear_arith)
        requires
            bb == b * b,
            ll == len * len,
    ;
    assert((x * m) * (x * m) == xx * mm) by (nonlinear_arith)
        requires
            xx == x * x,
            mm == m * m,
    ;
    assert((y * m) * (y * m) == yy * mm) by (nonlinear_arith)
        requires
            yy == y * y,
            mm == m * m,
    ;
    assert((aa + bb) * ll <= mm * ll) by (nonlinear_arith)
        requires
            aa * ll <= xx * mm,
            bb * ll <= yy * mm,
            xx + yy <= ll,
            mm >= 0,
    ;
    assert(ll > 0) by (nonlinear_arith)
        requires
            ll == len * len,
            len > 0,
    ;
    assert(aa + bb <= mm) by (nonlinear_arith)
        requires
            (aa + bb) * ll <= mm * ll,
            ll > 0,
    ;
}

/// A vector within the bound passes the clamp unchanged.
pub proof fn lemma_clamp_keeps_short(v: Vec2, max: i64)
    requires
        v.spec_length_squared() <= square(max as int),
    ensures
        v.spec_clamp_length_max(max) == v,
{
}

/// A clamped vector is no longer than the bound, and points the way the vector did.
pub proof fn lemma_clamp_bounded(v: Vec2, max: i64)
    requires
        max >= 0,
    ensures
        v.spec_clamp_length_max(max).spec_length_squared() <= square(max as int),
        same_quadrant_no_longer(v.spec_clamp_length_max(max), v),
{
    let n: nat = v.spec_length_squared();
    if n > square(max as int) {
        let len: nat = v.spec_length();
        lemma_some_root_up(n);
        lemma_component_within_length(v);
        if len <= max {
            lemma_square_monotone(len, max as nat);
        }
        lemma_ratio_magnitude(v.x as int, max as int, len as int);
        lemma_ratio_magnitude(v.y as int, max as int, len as int);
        let r = v.spec_clamp_length_max(max);
        let a: nat = abs_int(r.x as int) as nat;
        let b: nat = abs_int(r.y as int) as nat;
        let x: nat = abs_int(v.x as int) as nat;
        let y: nat = abs_int(v.y as int) as nat;
        lemma_square_of_magnitude(v.x as int);
        lemma_square_of_magnitude(v.y as int);
        lemma_square_of_magnitude(r.x as int);
        lemma_square_of_magnitude(r.y as int);
        lemma_rescaled_within(a, b, x, y, max as nat, len);
    }
}

/// If two magnitudes, each multiplied by `len`, exceed the components of a vector
/// longer than `len - 1`, multiplied by `m < len`, then together they are longer
/// than `m - 1`.
proof fn lemma_rescaled_beyond(a: nat, b: nat, x: nat, y: nat, m: nat, len: nat)
    requires
        m < len,
        a * len > x * m,
        b * len > y * m,
        x * x + y * y > (len - 1) * (len - 1),
    ensures
        a * a + b * b > (m - 1) * (m - 1),
{
    if m == 0 {
        assert(a * a + b * b > 1) by (nonlinear_arith)
            requires
                a >= 1,
                b >= 1,
        ;
    } else {
        let aa: nat = a * a;
        let bb: nat = b * b;
        let xx: nat = x * x;
        let yy: nat = y * y;
        let mm: nat = m * m;
        let ll: nat = len * len;
        let k: nat = ((len - 1) * (len - 1)) as nat;
        let g: nat = ((m - 1) * (m - 1)) as nat;
        assert((a * len) * (a * len) > (x * m) * (x * m)) by (nonlinear_arith)
            requires
                a * len > x * m,
                x * m >= 0,
        ;
        assert((b * len) * (b * len) > (y * m) * (y * m)) by (nonlinear_arith)
            requires
                b * len > y * m,
                y * m >= 0,
        ;
        assert((a * len) * (a * len) == aa * ll) by (nonlinear_arith)
            requires
                aa == a * a,
                ll == len * len,
        ;
        assert((b * len) * (b * len) == bb * ll) by (nonlinear_arith)
            requires
                bb == b * b,
                ll == len * len,
        ;
        assert((x * m) * (x * m) == xx * mm) by (nonlinear_arith)
            requires
                xx == x * x,
                mm == m * m,
        ;
        assert((y * m) * (y * m) == yy * mm) by (nonlinear_arith)
            requires
                yy == y * y,
                mm == m * m,
        ;
        assert((aa + bb) * ll > k * mm) by (nonlinear_arith)
            requires
                aa * ll > xx * mm,
                bb * ll > yy * mm,
                xx + yy > k,
                mm >= 0,
        ;
        let u: int = (len - 1) * m;
        let w: int = len * (m - 1);
        assert(u >= w && w >= 0) by (nonlinear_arith)
            requires
                u == (len - 1) * m,
                w == len * (m - 1),
                1 <= m < len,
        ;
        assert(u * u >= w * w) by (nonlinear_arith)
            requires
                u >= w,
                w >= 0,
        ;
        assert(u * u == k * mm) by (nonlinear_arith)
            requires
                u == (len - 1) * m,
                k == (len - 1) * (len - 1),
                mm == m * m,
        ;
        assert(w * w == ll * g) by (nonlinear_arith)
            requires
                w == len * (m - 1),
                ll == len * len,
                g == (m - 1) * (m - 1),
        ;
        assert(aa + bb > g) by (nonlinear_arith)
            requires
                (aa + bb) * ll > ll * g,
                ll >= 0,
        ;
    }
}

/// The clamp of a vector longer than the bound reaches the bound up to rounding:
/// one smallest step added to the magnitude of each component gives a vector longer
/// than the bound less one step.
pub proof fn lemma_clamp_reaches_bound(v: Vec2, max: i64)
    requires
        max >= 0,
        v.spec_length_squared() > square(max as int),
    ensures
        square(abs_int(v.spec_clamp_length_max(max).x as int) + 1) + square(
            abs_int(v.spec_clamp_length_max(max).y as int) + 1,
        ) > square(max - 1),
{
    let n: nat = v.spec_length_squared();
    let len: nat = v.spec_length();
    lemma_some_root_up(n);
    lemma_component_within_length(v);
    if len <= max {
        lemma_square_monotone(len, max as nat);
    }
    lemma_ratio_loses_less_than_one(v.x as int, max as int, len as int);
    lemma_ratio_loses_less_than_one(v.y as int, max as int, len as int);
    let r = v.spec_clamp_length_max(max);
    let a: nat = (abs_int(r.x as int) + 1) as nat;
    let b: nat = (abs_int(r.y as int) + 1) as nat;
    let x: nat = abs_int(v.x as int) as nat;
    let y: nat = abs_int(v.y as int) as nat;
    lemma_square_of_magnitude(v.x as int);
    lemma_square_of_magnitude(v.y as int);
    assert(x * x + y * y == n);
    lemma_rescaled_beyond(a, b, x, y, max as nat, len);
    assert(a * a >= 0 && b * b >= 0) by (nonlinear_arith);
    assert((max - 1) * (max - 1) >= 0) by (nonlinear_arith);
}

/// If `a * len <= x * m` and `y * m <= b * len` for a positive `len`, then
/// `a * y <= x * b`.
proof fn lemma_cross_bound(a: nat, b: nat, x: nat, y: nat, m: nat, len: nat)
    requires
        len > 0,
        a * len <= x * m,
        y * m <= b * len,
    ensures
        a * y <= x * b,
{
    let al: nat = a * len;
    let xm: nat = x * m;
    let ym: nat = y * m;
    let bl: nat = b * len;
    assert(al * y <= xm * y) by (nonlinear_arith)
        requires
            al <= xm,
            y >= 0,
    ;
    assert(xm * y == x * ym) by (nonlinear_arith)
        requires
            xm == x * m,
            ym == y * m,
    ;
    assert(x * ym <= x * bl) by (nonlinear_arith)
        requires
            ym <= bl,
            x >= 0,
    ;
    assert(x * bl == (x * b) * len) by (nonlinear_arith)
        requires
            bl == b * len,
    ;
    assert(al * y == (a * y) * len) by (nonlinear_arith)
        requires
            al == a * len,
    ;
    assert(a * y <= x * b) by (nonlinear_arith)
        requires
            (a * y) * len <= (x * b) * len,
            len > 0,
    ;
}

/// The clamp keeps the direction up to rounding: with the magnitudes of the
/// components taken, the cross product of a clamped vector and the vector it came
/// from is at most one component of the latter.
pub proof fn lemma_clamp_keeps_direction(v: Vec2, max: i64)
    requires
        max >= 0,
        v.spec_length_squared() > square(max as int),
    ensures
        abs_int(v.spec_clamp_length_max(max).x as int) * abs_int(v.y as int) - abs_int(
            v.spec_clamp_length_max(max).y as int,
        ) * abs_int(v.x as int) <= abs_int(v.x as int),
        abs_int(v.spec_clamp_length_max(max).y as int) * abs_int(v.x as int) - abs_int(
            v.spec_clamp_length_max(max).x as int,
        ) * abs_int(v.y as int) <= abs_int(v.y as int),
{
    let len: nat = v.spec_length();
    lemma_some_root_up(v.spec_length_squared());
    lemma_component_within_length(v);
    lemma_ratio_magnitude(v.x as int, max as int, len as int);
    lemma_ratio_magnitude(v.y as int, max as int, len as int);
    lemma_ratio_loses_less_than_one(v.x as int, max as int, len as int);
    lemma_ratio_loses_less_than_one(v.y as int, max as int, len as int);
    let r = v.spec_clamp_length_max(max);
    let a: nat = abs_int(r.x as int) as nat;
    let b: nat = abs_int(r.y as int) as nat;
    let x: nat = abs_int(v.x as int) as nat;
    let y: nat = abs_int(v.y as int) as nat;
    lemma_cross_bound(a, b + 1, x, y, max as nat, len);
    lemma_cross_bound(b, a + 1, y, x, max as nat, len);
    assert(x * (b + 1) == b * x + x) by (nonlinear_arith);
    assert(y * (a + 1) == a * y + y) by (nonlinear_arith);
}

/// Along an axis the clamp is exact: a vector longer than the bound comes out with
/// exactly the bound as its magnitude, on the same side.
pub proof fn lemma_clamp_exact_on_axis(c: i64, max: i64)
    requires
        max >= 0,
        abs_int(c as int) > max,
    ensures
        (Vec2 { x: c, y: 0 }).spec_clamp_length_max(max) == (Vec2 {
            x: if c > 0 { max } else { (-max) as i64 },
            y: 0,
        }),
        (Vec2 { x: 0, y: c }).spec_clamp_length_max(max) == (Vec2 {
            x: 0,
            y: if c > 0 { max } else { (-max) as i64 },
        }),
{
    let m: nat = abs_int(c as int) as nat;
    lemma_square_of_magnitude(c as int);
    lemma_square_monotone((max + 1) as nat, m);
    assert((max + 1) * (max + 1) > max * max) by (nonlinear_arith)
        requires
            max >= 0,
    ;
    assert((Vec2 { x: c, y: 0 }).spec_length_squared() == m * m);
    assert((Vec2 { x: 0, y: c }).spec_length_squared() == m * m);
    assert((m - 1) * (m - 1) < m * m) by (nonlinear_arith)
        requires
            m > 0,
    ;
    lemma_root_up_unique(m * m, m);
    assert((m * max) / (m as int) == max) by (nonlinear_arith)
        requires
            m > 0,
            max >= 0,
    ;
    assert(c * max == if c > 0 { m * max } else { -(m * max) }) by (nonlinear_arith)
        requires
            m == if c > 0 { c as int } else { -(c as int) },
    ;
    assert(m * max >= 0) by (nonlinear_arith)
        requires
            m > 0,
            max >= 0,
    ;
    assert(0int / (m as int) == 0) by (nonlinear_arith)
        requires
            m > 0,
    ;
    assert(0 * max == 0);
}

/// Normalizing gives a vector no longer than one unit.
pub proof fn lemma_normalized_within_unit(v: Vec2)
    ensures
        v.spec_normalize_or_zero().spec_length_squared() <= square(ONE as int),
{
    let n: nat = v.spec_length_squared();
    let len: nat = v.spec_length();
    lemma_some_root_up(n);
    if len != 0 {
        lemma_component_within_length(v);
        lemma_ratio_magnitude(v.x as int, ONE as int, len as int);
        lemma_ratio_magnitude(v.y as int, ONE as int, len as int);
        let r = v.spec_normalize_or_zero();
        let a: nat = abs_int(r.x as int) as nat;
        let b: nat = abs_int(r.y as int) as nat;
        let x: nat = abs_int(v.x as int) as nat;
        let y: nat = abs_int(v.y as int) as nat;
        lemma_square_of_magnitude(v.x as int);
        lemma_square_of_magnitude(v.y as int);
        lemma_square_of_magnitude(r.x as int);
        lemma_square_of_magnitude(r.y as int);
        lemma_rescaled_within(a, b, x, y, ONE as nat, len);
    }
}

} // verus!
