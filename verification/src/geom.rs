//! Plane geometry over scaled integers: vectors, polar conversion and
//! segment lengths.

use vstd::prelude::*;

use crate::num::{
    div_trunc, div_t, in_mag, isqrt, sin_milli, sin_milli_spec, norm_angle, Milli, MAG_LIMIT,
    QUARTER_TURN_MILLI, TURN_MILLI,
};

verus! {

/// A point or displacement of the plane, in thousandths of a world unit.
#[derive(Clone, Copy, Debug, PartialEq, Eq, Structural)]
pub struct Vec2 {
    pub x: Milli,
    pub y: Milli,
}

impl Vec2 {
    /// Both coordinates within the simulation's magnitude bound.
    pub open spec fn wf(self) -> bool {
        in_mag(self.x as int) && in_mag(self.y as int)
    }

    /// Build a vector from its coordinates.
    pub fn new(x: Milli, y: Milli) -> (r: Vec2)
        ensures
            r == (Vec2 { x, y }),
    {
        Vec2 { x, y }
    }

    /// Componentwise sum.
    pub fn add(self, other: Vec2) -> (r: Vec2)
        requires
            self.x + other.x <= i64::MAX,
            self.x + other.x >= i64::MIN,
            self.y + other.y <= i64::MAX,
            self.y + other.y >= i64::MIN,
        ensures
            r.x == self.x + other.x,
            r.y == self.y + other.y,
    {
        Vec2 { x: self.x + other.x, y: self.y + other.y }
    }

    /// Componentwise difference.
    pub fn sub(self, other: Vec2) -> (r: Vec2)
        requires
            self.x - other.x <= i64::MAX,
            self.x - other.x >= i64::MIN,
            self.y - other.y <= i64::MAX,
            self.y - other.y >= i64::MIN,
        ensures
            r.x == self.x - other.x,
            r.y == self.y - other.y,
    {
        Vec2 { x: self.x - other.x, y: self.y - other.y }
    }

    /// Reflection across the y axis.
    pub fn mirror_x(self) -> (r: Vec2)
        requires
            self.x > i64::MIN,
        ensures
            r.x == -self.x,
            r.y == self.y,
    {
        Vec2 { x: -self.x, y: self.y }
    }

    /// Reflection across the x axis.
    pub fn mirror_y(self) -> (r: Vec2)
        requires
            self.y > i64::MIN,
        ensures
            r.x == self.x,
            r.y == -self.y,
    {
        Vec2 { x: self.x, y: -self.y }
    }
}

/// Floor of the square root of a nonnegative integer.
pub open spec fn sqrt_floor(x: int) -> int {
    choose|r: int| 0 <= r && #[trigger] (r * r) <= x && (r + 1) * (r + 1) > x
}

/// The square-root floor is the unique nonnegative `r` with
/// `r*r <= x < (r+1)*(r+1)`.
pub proof fn lemma_sqrt_floor_unique(x: int, r: int)
    requires
        0 <= r,
        r * r <= x,
        (r + 1) * (r + 1) > x,
    ensures
        sqrt_floor(x) == r,
{
    assert(exists|s: int| 0 <= s && #[trigger] (s * s) <= x && (s + 1) * (s + 1) > x) by {
        assert(0 <= r && r * r <= x && (r + 1) * (r + 1) > x);
    }
    let s = sqrt_floor(x);
    assert(0 <= s && s * s <= x && (s + 1) * (s + 1) > x);
    assert(s == r) by (nonlinear_arith)
        requires
            0 <= r,
            0 <= s,
            r * r <= x,
            (r + 1) * (r + 1) > x,
            s * s <= x,
            (s + 1) * (s + 1) > x,
    ;
}

/// Every nonnegative integer has a square-root floor with the defining
/// bracketing property.
pub proof fn lemma_sqrt_floor_exists(x: int)
    requires
        0 <= x,
    ensures
        0 <= sqrt_floor(x),
        sqrt_floor(x) * sqrt_floor(x) <= x,
        (sqrt_floor(x) + 1) * (sqrt_floor(x) + 1) > x,
    decreases x,
{
    if x == 0 {
        lemma_sqrt_floor_unique(0, 0);
    } else {
        lemma_sqrt_floor_exists(x - 1);
        let p = sqrt_floor(x - 1);
        if (p + 1) * (p + 1) <= x {
            assert((p + 1) * (p + 1) == x) by (nonlinear_arith)
                requires
                    (p + 1) * (p + 1) > x - 1,
                    (p + 1) * (p + 1) <= x,
            ;
            assert((p + 2) * (p + 2) > x) by (nonlinear_arith)
                requires
                    0 <= p,
                    (p + 1) * (p + 1) == x,
            ;
            lemma_sqrt_floor_unique(x, p + 1);
        } else {
            lemma_sqrt_floor_unique(x, p);
        }
    }
}

/// Euclidean distance between two points, rounded down.
pub open spec fn seg_len(a: Vec2, b: Vec2) -> int {
    sqrt_floor((b.x - a.x) * (b.x - a.x) + (b.y - a.y) * (b.y - a.y))
}

/// Compute the distance between two points.
pub fn distance(a: Vec2, b: Vec2) -> (r: Milli)
    requires
        a.wf(),
        b.wf(),
    ensures
        r == seg_len(a, b),
        0 <= r <= 2_828_427_125,
{
    let dx = b.x - a.x;
    let dy = b.y - a.y;
    proof {
        assert(dx * dx + dy * dy <= 8_000_000_000_000_000_000 && dx * dx >= 0 && dy * dy >= 0)
            by (nonlinear_arith)
            requires
                -2 * MAG_LIMIT <= dx <= 2 * MAG_LIMIT,
                -2 * MAG_LIMIT <= dy <= 2 * MAG_LIMIT,
        ;
    }
    let sq = ((dx * dx) as u64) + ((dy * dy) as u64);
    let r = isqrt(sq);
    proof {
        lemma_sqrt_floor_unique(sq as int, r as int);
        assert(r <= 2_828_427_125) by (nonlinear_arith)
            requires
                r * r <= 8_000_000_000_000_000_000,
                0 <= r,
        ;
    }
    r as i64
}

/// The cartesian point at a given polar radius and angle, both scaled:
/// each coordinate is the radius times the approximate cosine or sine,
/// truncated back to the milli scale.
pub open spec fn polar_vec(radius: int, angle: int) -> Vec2
    recommends
        0 <= angle < TURN_MILLI,
{
    Vec2 {
        x: div_trunc(
            radius * sin_milli_spec((angle + QUARTER_TURN_MILLI) % (TURN_MILLI as int)),
            1000,
        ) as i64,
        y: div_trunc(radius * sin_milli_spec(angle), 1000) as i64,
    }
}

/// Convert a polar radius and angle to cartesian coordinates. The angle
/// need not be normalized.
pub fn to_cartesian(radius: Milli, angle: Milli) -> (r: Vec2)
    requires
        0 <= radius <= MAG_LIMIT,
        angle > i64::MIN,
    ensures
        r == polar_vec(radius as int, angle as int % (TURN_MILLI as int)),
        r.wf(),
    {
    let a = norm_angle(angle);
    let c = crate::num::cos_milli(a);
    let s = sin_milli(a);
    proof {
        lemma_sin_bounds(a as int);
        lemma_sin_bounds((a + QUARTER_TURN_MILLI) as int % (TURN_MILLI as int));
        assert(-1_000_000_000_000 <= radius * c <= 1_000_000_000_000) by (nonlinear_arith)
            requires
                0 <= radius <= MAG_LIMIT,
                -1000 <= c <= 1000,
        ;
        assert(-1_000_000_000_000 <= radius * s <= 1_000_000_000_000) by (nonlinear_arith)
            requires
                0 <= radius <= MAG_LIMIT,
                -1000 <= s <= 1000,
        ;
    }
    let x = div_t(radius * c, 1000);
    let y = div_t(radius * s, 1000);
    proof {
        lemma_div_trunc_bound(radius * c as int, 1000, 1_000_000_000_000);
        lemma_div_trunc_bound(radius * s as int, 1000, 1_000_000_000_000);
    }
    Vec2 { x, y }
}

/// The approximate sine scaled by 1000 never exceeds that scale's unit.
pub proof fn lemma_sin_bounds(a: int)
    requires
        0 <= a < TURN_MILLI,
    ensures
        -1000 <= sin_milli_spec(a) <= 1000,
{
    if a <= 180_000 {
        lemma_sin_half_in_range(a);
    } else {
        lemma_sin_half_in_range(a - 180_000);
    }
}

proof fn lemma_sin_half_in_range(m: int)
    by (nonlinear_arith)
    requires
        0 <= m <= 180_000,
    ensures
        0 <= crate::num::sin_half_milli(m) <= 1000,
{
    let p = m * (180_000 - m);
    assert(0 <= p <= 8_100_000_000);
    assert(4000 * p <= 1000 * (40_500_000_000 - p));
}

pub proof fn lemma_div_trunc_bound(a: int, b: int, m: int)
    requires
        0 < b,
        0 <= m,
        -m <= a <= m,
    ensures
        -(m / b) <= div_trunc(a, b) <= m / b,
{
    if a >= 0 {
        vstd::arithmetic::div_mod::lemma_div_is_ordered(a, m, b);
        vstd::arithmetic::div_mod::lemma_div_pos_is_pos(a, b);
    } else {
        vstd::arithmetic::div_mod::lemma_div_is_ordered(-a, m, b);
        vstd::arithmetic::div_mod::lemma_div_pos_is_pos(-a, b);
    }
}

} // verus!
