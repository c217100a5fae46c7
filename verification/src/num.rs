//! Scaled-integer arithmetic used throughout the simulation core.
//!
//! A `Milli` value stores one thousandth of a world unit, of a degree,
//! or of a second, depending on context. All helpers state their result
//! exactly over mathematical integers.

use vstd::prelude::*;

verus! {

/// Scaled integer: one unit of the carried quantity is 1000.
pub type Milli = i64;

/// One whole unit in the milli scale.
pub const MILLI_ONE: i64 = 1000;

/// Largest magnitude the simulation accepts for a scaled coordinate,
/// speed, angle or duration. Keeping every input under this bound lets
/// every product of two such values fit in an `i64`.
pub const MAG_LIMIT: i64 = 1_000_000_000;

/// `a` is a scaled value of magnitude within the simulation's bound.
pub open spec fn in_mag(a: int) -> bool {
    -MAG_LIMIT <= a <= MAG_LIMIT
}

/// Truncating signed division, the rounding of hardware division:
/// the quotient is rounded toward zero.
pub open spec fn div_trunc(a: int, b: int) -> int
    recommends
        b != 0,
{
    if a >= 0 {
        a / b
    } else {
        -((-a) / b)
    }
}

proof fn lemma_div_pos_le(a: int, b: int)
    by (nonlinear_arith)
    requires
        a >= 0,
        b > 0,
    ensures
        0 <= a / b <= a,
{
}

/// Quotient of nonnegative `a` by positive `b`, rounded down.
pub fn div_u(a: i64, b: i64) -> (q: i64)
    requires
        0 <= a,
        0 < b,
    ensures
        q == a as int / b as int,
        0 <= q <= a,
{
    proof {
        lemma_div_pos_le(a as int, b as int);
    }
    let qu: u64 = (a as u64) / (b as u64);
    qu as i64
}

/// Signed division rounded toward zero.
pub fn div_t(a: i64, b: i64) -> (q: i64)
    requires
        0 < b,
        a > i64::MIN,
    ensures
        q == div_trunc(a as int, b as int),
{
    if a >= 0 {
        div_u(a, b)
    } else {
        let m = div_u(-a, b);
        proof {
            lemma_div_pos_le(-a as int, b as int);
        }
        -m
    }
}

/// One full turn, in thousandths of a degree.
pub const TURN_MILLI: i64 = 360_000;

/// Half a turn, in thousandths of a degree.
pub const HALF_TURN_MILLI: i64 = 180_000;

/// A quarter turn, in thousandths of a degree.
pub const QUARTER_TURN_MILLI: i64 = 90_000;

/// Integer square root, rounded down.
pub fn isqrt(x: u64) -> (r: u64)
    requires
        x <= 9_000_000_000_000_000_000,
    ensures
        r * r <= x,
        (r + 1) * (r + 1) > x,
{
    let mut lo: u64 = 0;
    let mut hi: u64 = 3_000_000_001;
    proof {
        assert((3_000_000_001u64 as int) * (3_000_000_001u64 as int) > x) by (nonlinear_arith)
            requires
                x <= 9_000_000_000_000_000_000,
        ;
    }
    while lo + 1 < hi
        invariant
            lo < hi <= 3_000_000_001,
            lo * lo <= x,
            hi * hi > x,
        decreases hi - lo,
    {
        let mid = lo + (hi - lo) / 2;
        proof {
            assert(mid * mid <= 3_000_000_001u64 * 3_000_000_001u64) by (nonlinear_arith)
                requires
                    mid <= 3_000_000_001u64,
            ;
        }
        if mid * mid <= x {
            lo = mid;
        } else {
            hi = mid;
        }
    }
    lo
}

/// Euclidean remainder of an angle by a full turn: the equivalent angle
/// in `[0, 360000)`.
pub fn norm_angle(a: Milli) -> (r: Milli)
    requires
        a > i64::MIN,
    ensures
        r == a as int % (TURN_MILLI as int),
        0 <= r < TURN_MILLI,
{
    if a >= 0 {
        let m = ((a as u64) % (TURN_MILLI as u64)) as i64;
        proof {
            assert(m == a as int % (TURN_MILLI as int));
        }
        m
    } else {
        let k = -a;
        let m = ((k as u64) % (TURN_MILLI as u64)) as i64;
        proof {
            assert(m == k as int % (TURN_MILLI as int));
        }
        if m == 0 {
            proof {
                let q = k as int / (TURN_MILLI as int);
                vstd::arithmetic::div_mod::lemma_fundamental_div_mod(k as int, TURN_MILLI as int);
                vstd::arithmetic::div_mod::lemma_fundamental_div_mod_converse(
                    a as int,
                    TURN_MILLI as int,
                    -q,
                    0,
                );
            }
            0
        } else {
            proof {
                let q = k as int / (TURN_MILLI as int);
                vstd::arithmetic::div_mod::lemma_fundamental_div_mod(k as int, TURN_MILLI as int);
                vstd::arithmetic::div_mod::lemma_fundamental_div_mod_converse(
                    a as int,
                    TURN_MILLI as int,
                    -q - 1,
                    TURN_MILLI as int - m,
                );
            }
            TURN_MILLI - m
        }
    }
}

/// Rational sine approximation on a half turn: for an angle of `m`
/// thousandths of a degree with `0 <= m <= 180000`, the sine scaled by
/// 1000. Exact at 0, 30, 90, 150 and 180 degrees.
pub open spec fn sin_half_milli(m: int) -> int {
    4000 * (m * (180_000 - m)) / (40_500_000_000 - m * (180_000 - m))
}

/// Sine of an angle in thousandths of a degree, scaled by 1000, for
/// angles within one turn. The second half of the turn is the negated
/// first half.
pub open spec fn sin_milli_spec(a: int) -> int {
    if a <= 180_000 {
        sin_half_milli(a)
    } else {
        -sin_half_milli(a - 180_000)
    }
}

proof fn lemma_sin_half_bounds(m: int)
    by (nonlinear_arith)
    requires
        0 <= m <= 180_000,
    ensures
        0 <= m * (180_000 - m) <= 8_100_000_000,
{
}

/// Sine of a normalized angle, scaled by 1000.
pub fn sin_milli(a: Milli) -> (r: Milli)
    requires
        0 <= a < TURN_MILLI,
    ensures
        r == sin_milli_spec(a as int),
{
    if a <= HALF_TURN_MILLI {
        proof {
            lemma_sin_half_bounds(a as int);
        }
        let p = a * (180_000 - a);
        let num = 4000 * p;
        let den = 40_500_000_000 - p;
        div_u(num, den)
    } else {
        let m = a - HALF_TURN_MILLI;
        proof {
            lemma_sin_half_bounds(m as int);
        }
        let p = m * (180_000 - m);
        let num = 4000 * p;
        let den = 40_500_000_000 - p;
        let v = div_u(num, den);
        -v
    }
}

/// Cosine of a normalized angle, scaled by 1000: the sine a quarter
/// turn ahead.
pub fn cos_milli(a: Milli) -> (r: Milli)
    requires
        0 <= a < TURN_MILLI,
    ensures
        r == sin_milli_spec((a + QUARTER_TURN_MILLI) as int % (TURN_MILLI as int)),
{
    let shifted = norm_angle(a + QUARTER_TURN_MILLI);
    sin_milli(shifted)
}

/// Polynomial arctangent approximation on the first octant: for a slope
/// of `z` thousandths (`0 <= z <= 1000`), the angle in thousandths of a
/// degree. Exact at slopes 0 and 1.
pub open spec fn atan_octant_milli(z: int) -> int {
    z * (45_000_000 - (z - 1000) * (14_000 + (3830 * z) / 1000)) / 1_000_000
}

/// Arctangent on the first octant, for a slope in thousandths.
pub fn atan_octant(z: i64) -> (r: Milli)
    requires
        0 <= z <= 1000,
    ensures
        r == atan_octant_milli(z as int),
        0 <= r <= 62_830,
{
    let zz = z as u64;
    let t = (3830 * zz) / 1000;
    proof {
        assert(t <= 3830) by (nonlinear_arith)
            requires
                zz <= 1000,
                t == (3830 * zz) / 1000,
        ;
        assert((1000 - zz) * (14_000 + t) <= 17_830_000) by (nonlinear_arith)
            requires
                zz <= 1000,
                t <= 3830,
        ;
    }
    let inner_mag = (1000 - zz) * (14_000 + t);
    proof {
        assert(zz * (45_000_000 + inner_mag) <= 62_830_000_000) by (nonlinear_arith)
            requires
                zz <= 1000,
                inner_mag <= 17_830_000,
        ;
    }
    let num = zz * (45_000_000 + inner_mag);
    let q = num / 1_000_000;
    proof {
        let zi = z as int;
        assert((zi - 1000) * (14_000 + (3830 * zi) / 1000) == -(inner_mag as int))
            by (nonlinear_arith)
            requires
                0 <= zi <= 1000,
                zz == zi,
                t == (3830 * zi) / 1000,
                inner_mag == (1000 - zi) * (14_000 + t),
        ;
        assert(zi * (45_000_000 - (zi - 1000) * (14_000 + (3830 * zi) / 1000)) == num as int)
            by (nonlinear_arith)
            requires
                0 <= zi <= 1000,
                num == zi * (45_000_000 + inner_mag),
                (zi - 1000) * (14_000 + (3830 * zi) / 1000) == -(inner_mag as int),
        ;
        assert(q <= 62_830) by (nonlinear_arith)
            requires
                num <= 62_830_000_000,
                q == num / 1_000_000,
        ;
    }
    q as i64
}

/// Direction of the vector `(x, y)` as an angle in `[0, 360000)`
/// thousandths of a degree, measured from the positive x axis toward the
/// positive y axis. The zero vector maps to angle 0. Within each octant
/// the angle comes from `atan_octant_milli` on the smaller-over-larger
/// slope.
pub open spec fn vec_angle(y: int, x: int) -> int {
    let ax = if x >= 0 { x } else { -x };
    let ay = if y >= 0 { y } else { -y };
    if ax == 0 && ay == 0 {
        0int
    } else {
        let base = if ay <= ax {
            atan_octant_milli((1000 * ay) / ax)
        } else {
            QUARTER_TURN_MILLI - atan_octant_milli((1000 * ax) / ay)
        };
        if x >= 0 && y >= 0 {
            base
        } else if x < 0 && y >= 0 {
            HALF_TURN_MILLI - base
        } else if x < 0 {
            HALF_TURN_MILLI + base
        } else {
            if base == 0 {
                0int
            } else {
                TURN_MILLI - base
            }
        }
    }
}

/// Compute the direction angle of the vector `(x, y)`.
pub fn atan2_milli(y: Milli, x: Milli) -> (r: Milli)
    requires
        -2 * MAG_LIMIT <= y <= 2 * MAG_LIMIT,
        -2 * MAG_LIMIT <= x <= 2 * MAG_LIMIT,
    ensures
        r == vec_angle(y as int, x as int),
        0 <= r < TURN_MILLI,
{
    let ax = if x >= 0 {
        x
    } else {
        -x
    };
    let ay = if y >= 0 {
        y
    } else {
        -y
    };
    if ax == 0 && ay == 0 {
        return 0;
    }
    let base: Milli = if ay <= ax {
        let z = div_u(1000 * ay, ax);
        proof {
            lemma_div_pos_le(1000 * ay, ax as int);
            assert(1000 * ay / (ax as int) <= 1000) by (nonlinear_arith)
                requires
                    0 <= ay <= ax,
                    0 < ax,
            ;
        }
        atan_octant(z)
    } else {
        let z = div_u(1000 * ax, ay);
        proof {
            lemma_div_pos_le(1000 * ax, ay as int);
            assert(1000 * ax / (ay as int) <= 1000) by (nonlinear_arith)
                requires
                    0 <= ax < ay,
                    0 < ay,
            ;
        }
        QUARTER_TURN_MILLI - atan_octant(z)
    };
    if x >= 0 && y >= 0 {
        base
    } else if x < 0 && y >= 0 {
        HALF_TURN_MILLI - base
    } else if x < 0 {
        HALF_TURN_MILLI + base
    } else {
        if base == 0 {
            0
        } else {
            TURN_MILLI - base
        }
    }
}

} // verus!
