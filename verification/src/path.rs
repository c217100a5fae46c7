//! Motion paths: stateful generators of an entity's own position.
//!
//! An arc path keeps its position in polar form around its center, so
//! the generated point always lies on the circle of its radius up to
//! the milli-scale rounding of the polar conversion. A curve path walks
//! a polyline, carrying overshoot into following segments within one
//! advance; its position on the current segment is recomputed from the
//! segment ends, never accumulated, so it cannot drift. A fixed path
//! holds one point for a countdown.

use vstd::prelude::*;

use crate::action::Action;
use crate::geom::{lemma_sqrt_floor_exists, polar_vec, seg_len, to_cartesian, Vec2};
use crate::num::{div_t, div_trunc, norm_angle, vec_angle, Milli, MAG_LIMIT, TURN_MILLI};
use crate::pattern::TICK_LIMIT;
use crate::point::Point;

verus! {

broadcast use vstd::seq_lib::group_seq_properties;

/// Sense of rotation for arcs and wobble.
#[derive(Clone, Copy, Debug, PartialEq, Eq, Structural)]
pub enum RotationDirection {
    Clockwise,
    CounterClockwise,
}

impl RotationDirection {
    /// The opposite sense of rotation.
    pub fn opposite(&self) -> (r: RotationDirection)
        ensures
            *self is Clockwise <==> r is CounterClockwise,
    {
        match *self {
            RotationDirection::Clockwise => RotationDirection::CounterClockwise,
            RotationDirection::CounterClockwise => RotationDirection::Clockwise,
        }
    }
}

/// Which kind of path a builder describes.
#[derive(Clone, Copy, Debug, PartialEq, Eq, Structural)]
pub enum PathType {
    Arc,
    Curve,
    Fixed,
}

/// Largest magnitude a path position can have: a bounded point offset
/// by a bounded polar radius or an interpolation across one segment.
pub const POS_LIMIT: i64 = 4_000_000_000;

/// Distance covered in `dt` milliseconds at `speed` thousandths of a
/// unit per second, in thousandths of a unit.
pub open spec fn travel_dist(speed: int, dt: int) -> int {
    (speed * dt) / 1000
}

/// An arc in flight: position kept polar around the center.
pub struct Arc {
    /// Center of the circle.
    pub center: Vec2,
    /// Radius, in thousandths of a unit.
    pub radius: Milli,
    /// Current angle on the circle, normalized.
    pub angle: Milli,
    /// Degrees left to sweep, in thousandths; the arc is finished once
    /// this is no longer positive.
    pub degrees: Milli,
    /// Linear speed along the circle.
    pub speed: Milli,
    /// Which way round the circle the arc runs.
    pub direction: RotationDirection,
    /// Actions released when the path is consumed.
    pub actions: Vec<Action>,
}

/// The angle swept in one advance: the distance covered, as a fraction
/// of the circumference, as thousandths of a degree. The circumference
/// comes from the scaled circle constant (two pi as 6283 thousandths).
pub open spec fn arc_step(speed: int, dt: int, radius: int) -> int
    recommends
        radius >= 1,
{
    (360_000 * travel_dist(speed, dt)) / ((6283 * radius) / 1000)
}

impl Arc {
    /// Structural bounds of an arc in flight.
    pub open spec fn wf(self) -> bool {
        &&& self.center.wf()
        &&& 1 <= self.radius <= MAG_LIMIT
        &&& 0 <= self.speed <= MAG_LIMIT
        &&& 0 <= self.angle < TURN_MILLI
        &&& -1_000_000_000_000_000_000 <= self.degrees <= MAG_LIMIT
    }

    /// The arc after sweeping one advance's angle: the remaining degrees
    /// drop by the step, and the polar angle moves by it, with the sense
    /// of rotation, staying normalized.
    pub open spec fn stepped(self, dt: int) -> Arc {
        let ang = arc_step(self.speed as int, dt, self.radius as int);
        let moved = match self.direction {
            RotationDirection::CounterClockwise => self.angle + ang,
            RotationDirection::Clockwise => self.angle - ang,
        };
        Arc {
            degrees: (self.degrees - ang) as i64,
            angle: (moved % (TURN_MILLI as int)) as i64,
            ..self
        }
    }

    /// The cartesian point of the arc's current polar position.
    pub open spec fn position(self) -> Vec2 {
        let p = polar_vec(self.radius as int, self.angle as int);
        Vec2 { x: (self.center.x + p.x) as i64, y: (self.center.y + p.y) as i64 }
    }

    /// No degrees left to sweep.
    pub open spec fn finished_spec(self) -> bool {
        self.degrees <= 0
    }

    /// Advance the arc: while degrees remain, sweep the angle covered by
    /// the elapsed time and give the new position on the circle; once no
    /// degrees remain, do nothing.
    pub fn travel(&mut self, dt: Milli) -> (r: Option<Vec2>)
        requires
            old(self).wf(),
            0 <= dt <= TICK_LIMIT,
        ensures
            final(self).wf(),
            old(self).finished_spec() ==> r is None && *final(self) == *old(self),
            !old(self).finished_spec() ==> *final(self) == old(self).stepped(dt as int) && r
                == Some(final(self).position()),
            final(self).actions@ == old(self).actions@,
    {
        if self.degrees <= 0 {
            return None;
        }
        proof {
            assert(0 <= self.speed * dt <= 10_000_000_000_000_000) by (nonlinear_arith)
                requires
                    0 <= self.speed <= MAG_LIMIT,
                    0 <= dt <= TICK_LIMIT,
            ;
        }
        let dist = crate::num::div_u(self.speed * dt, 1000);
        let circ = crate::num::div_u(6283 * self.radius, 1000);
        proof {
            assert(circ >= 6) by (nonlinear_arith)
                requires
                    circ == (6283 * self.radius as int) / 1000,
                    self.radius >= 1,
            ;
            assert(dist <= 10_000_000_000_000) by (nonlinear_arith)
                requires
                    dist == (self.speed * dt as int) / 1000,
                    0 <= self.speed <= MAG_LIMIT,
                    0 <= dt <= TICK_LIMIT,
            ;
        }
        let ang = crate::num::div_u(360_000 * dist, circ);
        proof {
            assert(ang <= 600_000_000_000_000_000) by (nonlinear_arith)
                requires
                    ang == (360_000 * dist as int) / (circ as int),
                    0 <= dist <= 10_000_000_000_000,
                    circ >= 6,
            ;
        }
        self.degrees = self.degrees - ang;
        let moved = match self.direction {
            RotationDirection::CounterClockwise => self.angle + ang,
            RotationDirection::Clockwise => self.angle - ang,
        };
        self.angle = norm_angle(moved);
        let p = to_cartesian(self.radius, self.angle);
        proof {
            assert(self.angle as int % (TURN_MILLI as int) == self.angle as int);
        }
        Some(Vec2 { x: self.center.x + p.x, y: self.center.y + p.y })
    }
}

/// Law: an arc's generated position never leaves the box of half-width
/// `radius` around the center: each coordinate of the polar offset is a
/// sine or cosine value in thousandths scaled by the radius, so its
/// magnitude never exceeds the radius.
pub proof fn lemma_arc_position_near_center(a: Arc)
    requires
        a.wf(),
    ensures
        a.center.x - a.radius <= a.position().x <= a.center.x + a.radius,
        a.center.y - a.radius <= a.position().y <= a.center.y + a.radius,
{
    let ang = a.angle as int;
    let turn = crate::num::TURN_MILLI as int;
    let c = crate::num::sin_milli_spec((ang + crate::num::QUARTER_TURN_MILLI) % turn);
    let s = crate::num::sin_milli_spec(ang);
    let r = a.radius as int;
    crate::geom::lemma_sin_bounds(ang);
    crate::geom::lemma_sin_bounds((ang + crate::num::QUARTER_TURN_MILLI) % turn);
    assert(-(1000 * r) <= r * c <= 1000 * r) by (nonlinear_arith)
        requires
            -1000 <= c <= 1000,
            1 <= r,
    ;
    assert(-(1000 * r) <= r * s <= 1000 * r) by (nonlinear_arith)
        requires
            -1000 <= s <= 1000,
            1 <= r,
    ;
    crate::geom::lemma_div_trunc_bound(r * c, 1000, 1000 * r);
    crate::geom::lemma_div_trunc_bound(r * s, 1000, 1000 * r);
    assert((1000 * r) / 1000 == r) by (nonlinear_arith)
        requires
            1 <= r,
    ;
}

/// The arc after a whole run of advances.
pub open spec fn arc_after_run(a: Arc, dts: Seq<Milli>) -> Arc
    decreases dts.len(),
{
    if dts.len() == 0 {
        a
    } else {
        let prev = arc_after_run(a, dts.drop_last());
        if prev.finished_spec() {
            prev
        } else {
            prev.stepped(dts.last() as int)
        }
    }
}

/// The total angle a run of advances sweeps, were no degree limit hit.
pub open spec fn arc_steps_sum(speed: int, radius: int, dts: Seq<Milli>) -> int
    decreases dts.len(),
{
    if dts.len() == 0 {
        0int
    } else {
        arc_steps_sum(speed, radius, dts.drop_last()) + arc_step(speed, dts.last() as int, radius)
    }
}

/// Law: an arc advanced by enough total angle to cover its remaining
/// degrees reports finished, and a finished arc stays finished; the
/// center, radius, speed and direction never change, so the generated
/// position always stays on the same circle.
pub proof fn lemma_arc_completion(a: Arc, dts: Seq<Milli>)
    requires
        a.wf(),
        forall|i: int| 0 <= i < dts.len() ==> 0 <= #[trigger] dts[i] <= TICK_LIMIT,
    ensures
        arc_after_run(a, dts).wf(),
        arc_after_run(a, dts).center == a.center,
        arc_after_run(a, dts).radius == a.radius,
        arc_after_run(a, dts).speed == a.speed,
        arc_after_run(a, dts).direction == a.direction,
        arc_after_run(a, dts).degrees <= a.degrees - arc_steps_sum(a.speed as int, a.radius as int, dts)
            || arc_after_run(a, dts).finished_spec(),
        arc_steps_sum(a.speed as int, a.radius as int, dts) >= a.degrees ==> arc_after_run(
            a,
            dts,
        ).finished_spec(),
    decreases dts.len(),
{
    if dts.len() > 0 {
        lemma_arc_completion(a, dts.drop_last());
        let prev = arc_after_run(a, dts.drop_last());
        let d = dts.last() as int;
        lemma_arc_step_nonneg(a.speed as int, a.radius as int, d);
        if !prev.finished_spec() {
            assert(prev.stepped(d).degrees == prev.degrees - arc_step(
                a.speed as int,
                d,
                a.radius as int,
            ));
        }
    }
}

/// One advance's swept angle is nonnegative and bounded.
proof fn lemma_arc_step_nonneg(speed: int, radius: int, dt: int)
    requires
        0 <= speed <= MAG_LIMIT,
        0 <= dt <= TICK_LIMIT,
        1 <= radius <= MAG_LIMIT,
    ensures
        0 <= arc_step(speed, dt, radius) <= 600_000_000_000_000_000,
        travel_dist(speed, dt) >= 0,
{
    assert(speed * dt >= 0) by (nonlinear_arith)
        requires
            0 <= speed,
            0 <= dt,
    ;
    vstd::arithmetic::div_mod::lemma_div_pos_is_pos(speed * dt, 1000);
    assert(6283 * radius >= 6283) by (nonlinear_arith)
        requires
            1 <= radius,
    ;
    vstd::arithmetic::div_mod::lemma_div_pos_is_pos(6283 * radius, 1000);
    assert((6283 * radius) / 1000 >= 6) by {
        vstd::arithmetic::div_mod::lemma_div_is_ordered(6283, 6283 * radius, 1000);
    }
    vstd::arithmetic::div_mod::lemma_div_pos_is_pos(
        360_000 * travel_dist(speed, dt),
        (6283 * radius) / 1000,
    );
    assert(360_000 * travel_dist(speed, dt) >= 0) by (nonlinear_arith)
        requires
            travel_dist(speed, dt) >= 0,
    ;
    assert(speed * dt <= 10_000_000_000_000_000) by (nonlinear_arith)
        requires
            0 <= speed <= MAG_LIMIT,
            0 <= dt <= TICK_LIMIT,
    ;
    assert(travel_dist(speed, dt) <= 10_000_000_000_000) by (nonlinear_arith)
        requires
            0 <= speed * dt <= 10_000_000_000_000_000,
            travel_dist(speed, dt) == (speed * dt) / 1000,
    ;
    assert(arc_step(speed, dt, radius) <= 600_000_000_000_000_000) by (nonlinear_arith)
        requires
            arc_step(speed, dt, radius) == (360_000 * travel_dist(speed, dt)) / ((6283 * radius)
                / 1000),
            0 <= travel_dist(speed, dt) <= 10_000_000_000_000,
            (6283 * radius) / 1000 >= 6,
    ;
}

/// Ghost model of a curve in flight.
#[verifier::ext_equal]
pub ghost struct CurveModel {
    pub points: Seq<Vec2>,
    pub pos: Vec2,
    pub node_len: int,
    pub node_used: int,
    pub speed: int,
}

/// The point a fraction of the way along a segment: each coordinate
/// interpolates by consumed distance over segment length.
pub open spec fn lerp(p0: Vec2, p1: Vec2, s: int, n: int) -> Vec2
    recommends
        n > 0,
{
    Vec2 {
        x: (p0.x + div_trunc((p1.x - p0.x) * s, n)) as i64,
        y: (p0.y + div_trunc((p1.y - p0.y) * s, n)) as i64,
    }
}

/// How many segments the dense polyline of a curve has: the sampled
/// curve runs through this many steps of the parameter.
pub const CURVE_SEGMENTS: usize = 100;

/// One blending step of the curve evaluation at parameter `i/n`: each
/// adjacent pair of control points is interpolated, leaving one point
/// fewer.
pub open spec fn blend_step(pts: Seq<Vec2>, i: int, n: int) -> Seq<Vec2> {
    Seq::new((pts.len() - 1) as nat, |k: int| lerp(pts[k], pts[k + 1], i, n))
}

/// The point of the curve through the control points at parameter
/// `i/n`: blending steps are repeated until one point remains. At
/// parameter 0 this is the first control point; at `n/n` the last.
pub open spec fn bezier_at(pts: Seq<Vec2>, i: int, n: int) -> Vec2
    decreases pts.len(),
{
    if pts.len() == 0 {
        Vec2 { x: 0 as i64, y: 0 as i64 }
    } else if pts.len() == 1 {
        pts[0]
    } else {
        bezier_at(blend_step(pts, i, n), i, n)
    }
}

/// The dense polyline of the curve through the control points: its
/// points sampled at `n + 1` evenly spaced parameters.
pub open spec fn bezier_polyline(pts: Seq<Vec2>, n: int) -> Seq<Vec2> {
    Seq::new((n + 1) as nat, |i: int| bezier_at(pts, i, n))
}

/// An interpolation at a parameter inside the segment stays between the
/// segment's ends, so within the world bound.
proof fn lemma_lerp_wf(p0: Vec2, p1: Vec2, i: int, n: int)
    requires
        p0.wf(),
        p1.wf(),
        0 <= i <= n,
        0 < n,
    ensures
        lerp(p0, p1, i, n).wf(),
{
    lemma_lerp_coord_between(p0.x as int, p1.x as int, i, n);
    lemma_lerp_coord_between(p0.y as int, p1.y as int, i, n);
}

/// One coordinate of an interpolation lies between the two endpoints.
proof fn lemma_lerp_coord_between(a: int, b: int, i: int, n: int)
    requires
        0 <= i <= n,
        0 < n,
    ensures
        b >= a ==> a <= a + div_trunc((b - a) * i, n) <= b,
        b < a ==> b <= a + div_trunc((b - a) * i, n) <= a,
{
    let d = b - a;
    if d >= 0 {
        assert(0 <= d * i <= d * n) by (nonlinear_arith)
            requires
                0 <= i <= n,
                0 <= d,
        ;
        vstd::arithmetic::div_mod::lemma_div_pos_is_pos(d * i, n);
        assert((d * i) / n <= d) by (nonlinear_arith)
            requires
                0 <= d * i <= d * n,
                0 < n,
        ;
    } else {
        assert(0 <= (-d) * i <= (-d) * n) by (nonlinear_arith)
            requires
                0 <= i <= n,
                0 <= -d,
        ;
        vstd::arithmetic::div_mod::lemma_div_pos_is_pos((-d) * i, n);
        assert(((-d) * i) / n <= -d) by (nonlinear_arith)
            requires
                0 <= (-d) * i <= (-d) * n,
                0 < n,
        ;
        assert(-(d * i) == (-d) * i) by (nonlinear_arith);
    }
}

/// Every sampled point of the curve lies within the world bound the
/// control points keep.
proof fn lemma_bezier_at_wf(pts: Seq<Vec2>, i: int, n: int)
    requires
        forall|k: int| 0 <= k < pts.len() ==> (#[trigger] pts[k]).wf(),
        0 <= i <= n,
        0 < n,
    ensures
        bezier_at(pts, i, n).wf(),
    decreases pts.len(),
{
    if pts.len() == 0 {
    } else if pts.len() == 1 {
    } else {
        let blended = blend_step(pts, i, n);
        assert forall|k: int| 0 <= k < blended.len() implies (#[trigger] blended[k]).wf() by {
            lemma_lerp_wf(pts[k], pts[k + 1], i, n);
        }
        lemma_bezier_at_wf(blended, i, n);
    }
}

/// Sample the curve through the control points into its dense polyline.
#[verifier::loop_isolation(false)]
fn bezier_samples(pts: &Vec<Vec2>, n: usize) -> (r: Vec<Vec2>)
    requires
        1 <= n <= 1000,
        pts@.len() >= 1,
        forall|k: int| 0 <= k < pts@.len() ==> (#[trigger] pts@[k]).wf(),
    ensures
        r@ =~= bezier_polyline(pts@, n as int),
        r@.len() == n + 1,
        forall|k: int| 0 <= k < r@.len() ==> (#[trigger] r@[k]).wf(),
{
    let mut out: Vec<Vec2> = Vec::new();
    let mut i: usize = 0;
    while i <= n
        invariant
            i <= n + 1,
            out@.len() == i,
            forall|j: int| 0 <= j < i ==> out@[j] == bezier_at(pts@, j, n as int),
            forall|j: int| 0 <= j < out@.len() ==> (#[trigger] out@[j]).wf(),
        decreases n + 1 - i,
    {
        let mut work: Vec<Vec2> = pts.clone();
        while work.len() > 1
            invariant
                1 <= work@.len(),
                i <= n,
                forall|k: int| 0 <= k < work@.len() ==> (#[trigger] work@[k]).wf(),
                bezier_at(work@, i as int, n as int) == bezier_at(pts@, i as int, n as int),
            decreases work@.len(),
        {
            let m = work.len();
            let mut next: Vec<Vec2> = Vec::new();
            let mut k: usize = 0;
            while k < m - 1
                invariant
                    k <= m - 1,
                    m == work@.len(),
                    next@.len() == k,
                    forall|j: int|
                        0 <= j < k ==> next@[j] == lerp(work@[j], work@[j + 1], i as int, n as int),
                    forall|j: int| 0 <= j < next@.len() ==> (#[trigger] next@[j]).wf(),
                decreases m - 1 - k,
            {
                let a = work[k];
                let b = work[k + 1];
                proof {
                    assert(-2_000_000_000_000 <= (b.x - a.x) * (i as int) <= 2_000_000_000_000)
                        by (nonlinear_arith)
                        requires
                            -2_000_000_000 <= b.x - a.x <= 2_000_000_000,
                            0 <= i <= 1000,
                    ;
                    assert(-2_000_000_000_000 <= (b.y - a.y) * (i as int) <= 2_000_000_000_000)
                        by (nonlinear_arith)
                        requires
                            -2_000_000_000 <= b.y - a.y <= 2_000_000_000,
                            0 <= i <= 1000,
                    ;
                }
                let ox = div_t((b.x - a.x) * (i as i64), n as i64);
                let oy = div_t((b.y - a.y) * (i as i64), n as i64);
                let p = Vec2 { x: a.x + ox, y: a.y + oy };
                proof {
                    lemma_lerp_wf(a, b, i as int, n as int);
                    assert(p == lerp(work@[k as int], work@[k as int + 1], i as int, n as int));
                }
                next.push(p);
                k = k + 1;
            }
            proof {
                assert(next@ =~= blend_step(work@, i as int, n as int));
            }
            work = next;
        }
        let sample = work[0];
        out.push(sample);
        i = i + 1;
    }
    proof {
        assert(out@ =~= bezier_polyline(pts@, n as int));
    }
    out
}

/// Structural bounds of a curve model: the walked nodes are bounded
/// points, the consumed distance never exceeds the current segment's
/// length, and that length is the distance between the segment's ends.
pub open spec fn curve_model_wf(m: CurveModel) -> bool {
    &&& (forall|i: int| 0 <= i < m.points.len() ==> (#[trigger] m.points[i]).wf())
    &&& 0 <= m.node_used <= m.node_len <= 2_828_427_125
    &&& (m.points.len() >= 2 ==> m.node_len == seg_len(m.points[0], m.points[1]))
    &&& 0 <= m.speed <= MAG_LIMIT
    &&& -POS_LIMIT <= m.pos.x <= POS_LIMIT
    &&& -POS_LIMIT <= m.pos.y <= POS_LIMIT
}

/// One advance of a curve model by a distance: segments are crossed
/// while the distance covers what is left of them; the last node ends
/// the walk; otherwise the position moves along the current segment.
/// Gives the model afterwards and the position generated, or `None`
/// once fewer than two nodes remain.
pub open spec fn curve_advanced(m: CurveModel, dist: int) -> (CurveModel, Option<Vec2>)
    decreases m.points.len(),
{
    if m.points.len() < 2 {
        (m, None::<Vec2>)
    } else {
        let rem = m.node_len - m.node_used;
        if dist > rem {
            if m.points.len() == 2 {
                let last = m.points[1];
                (
                    CurveModel {
                        points: m.points.drop_first(),
                        pos: last,
                        node_used: m.node_len,
                        ..m
                    },
                    Some(last),
                )
            } else {
                let pts = m.points.drop_first();
                let nl = seg_len(pts[0], pts[1]);
                curve_advanced(
                    CurveModel { points: pts, node_len: nl, node_used: 0, ..m },
                    dist - rem,
                )
            }
        } else {
            let used = m.node_used + dist;
            let p = if m.node_len > 0 {
                lerp(m.points[0], m.points[1], used, m.node_len)
            } else {
                m.points[1]
            };
            (CurveModel { node_used: used, pos: p, ..m }, Some(p))
        }
    }
}

/// A curve in flight: the nodes still to walk, the position, and the
/// progress along the current segment (between the first two nodes).
pub struct Curve {
    /// Nodes still to walk; the current segment runs between the first
    /// two.
    pub points: Vec<Vec2>,
    /// Current position.
    pub pos: Vec2,
    /// Length of the current segment.
    pub node_len: Milli,
    /// Distance consumed on the current segment.
    pub node_used: Milli,
    /// Speed along the polyline.
    pub speed: Milli,
    /// Actions released when the path is consumed.
    pub actions: Vec<Action>,
}

impl Curve {
    /// The ghost model of this curve.
    pub open spec fn model(self) -> CurveModel {
        CurveModel {
            points: self.points@,
            pos: self.pos,
            node_len: self.node_len as int,
            node_used: self.node_used as int,
            speed: self.speed as int,
        }
    }

    /// Structural bounds of a curve in flight.
    pub open spec fn wf(self) -> bool {
        curve_model_wf(self.model())
    }

    /// Fewer than two nodes remain, so there is nothing left to walk.
    pub open spec fn finished_spec(self) -> bool {
        self.points@.len() <= 1
    }

    /// Advance the curve by the distance the elapsed time covers.
    #[verifier::loop_isolation(false)]
    pub fn travel(&mut self, dt: Milli) -> (r: Option<Vec2>)
        requires
            old(self).wf(),
            0 <= dt <= TICK_LIMIT,
        ensures
            final(self).wf(),
            final(self).model() == curve_advanced(
                old(self).model(),
                travel_dist(old(self).speed as int, dt as int),
            ).0,
            r == curve_advanced(
                old(self).model(),
                travel_dist(old(self).speed as int, dt as int),
            ).1,
            final(self).actions@ == old(self).actions@,
            final(self).speed == old(self).speed,
    {
        proof {
            assert(self.speed * dt >= 0 && self.speed * dt <= 10_000_000_000_000_000)
                by (nonlinear_arith)
                requires
                    0 <= self.speed <= MAG_LIMIT,
                    0 <= dt <= TICK_LIMIT,
            ;
        }
        let mut dist = crate::num::div_u(self.speed * dt, 1000);
        if self.points.len() < 2 {
            return None;
        }
        let ghost m0 = self.model();
        let ghost d0 = dist as int;
        while dist > self.node_len - self.node_used && self.points.len() > 2
            invariant
                self.wf(),
                0 <= dist,
                self.points@.len() >= 2,
                self.actions@ == old(self).actions@,
                self.speed == old(self).speed,
                self.pos == old(self).pos,
                curve_advanced(m0, d0) == curve_advanced(self.model(), dist as int),
            decreases self.points@.len(),
        {
            let rem = self.node_len - self.node_used;
            dist = dist - rem;
            self.points.remove(0);
            let nl = crate::geom::distance(self.points[0], self.points[1]);
            self.node_len = nl;
            self.node_used = 0;
            proof {
                let ddx = self.points@[1].x - self.points@[0].x;
                let ddy = self.points@[1].y - self.points@[0].y;
                assert(ddx * ddx >= 0 && ddy * ddy >= 0) by (nonlinear_arith);
                lemma_sqrt_floor_exists(ddx * ddx + ddy * ddy);
            }
        }
        let rem = self.node_len - self.node_used;
        if dist > rem {
            let last = self.points[1];
            self.pos = last;
            self.node_used = self.node_len;
            self.points.remove(0);
            Some(last)
        } else {
            self.node_used = self.node_used + dist;
            let p: Vec2 = if self.node_len > 0 {
                let p0 = self.points[0];
                let p1 = self.points[1];
                proof {
                    lemma_segment_bounds(p0, p1, self.node_len as int);
                    assert((p1.x - p0.x) * self.node_used as int <= 2_828_427_125
                        * 2_828_427_126 && (p1.x - p0.x) * self.node_used as int >= -(
                    2_828_427_125 * 2_828_427_126)) by (nonlinear_arith)
                        requires
                            -2_828_427_126 <= p1.x - p0.x <= 2_828_427_126,
                            0 <= self.node_used <= 2_828_427_125,
                    ;
                    assert((p1.y - p0.y) * self.node_used as int <= 2_828_427_125
                        * 2_828_427_126 && (p1.y - p0.y) * self.node_used as int >= -(
                    2_828_427_125 * 2_828_427_126)) by (nonlinear_arith)
                        requires
                            -2_828_427_126 <= p1.y - p0.y <= 2_828_427_126,
                            0 <= self.node_used <= 2_828_427_125,
                    ;
                }
                let ox = div_t((p1.x - p0.x) * self.node_used, self.node_len);
                let oy = div_t((p1.y - p0.y) * self.node_used, self.node_len);
                proof {
                    lemma_lerp_offset_bounded(p0.x as int, p1.x as int, self.node_used as int, self.node_len as int);
                    lemma_lerp_offset_bounded(p0.y as int, p1.y as int, self.node_used as int, self.node_len as int);
                }
                Vec2 { x: p0.x + ox, y: p0.y + oy }
            } else {
                self.points[1]
            };
            self.pos = p;
            Some(p)
        }
    }
}

/// The difference of two bounded coordinates stays within one segment
/// length of the current segment.
proof fn lemma_segment_bounds(p0: Vec2, p1: Vec2, n: int)
    requires
        p0.wf(),
        p1.wf(),
        n == seg_len(p0, p1),
    ensures
        -n <= p1.x - p0.x <= n,
        -n <= p1.y - p0.y <= n,
        0 <= n,
{
    let dx = p1.x - p0.x;
    let dy = p1.y - p0.y;
    assert(dx * dx >= 0 && dy * dy >= 0) by (nonlinear_arith);
    lemma_sqrt_floor_exists(dx * dx + dy * dy);
    assert(-n <= dx <= n && -n <= dy <= n) by (nonlinear_arith)
        requires
            0 <= n,
            n * n <= dx * dx + dy * dy,
            (n + 1) * (n + 1) > dx * dx + dy * dy,
            dx * dx >= 0,
            dy * dy >= 0,
    ;
}

/// The interpolation offset along a segment never exceeds the
/// coordinate span of the segment.
proof fn lemma_lerp_offset_bounded(a: int, b: int, s: int, n: int)
    requires
        0 < n,
        0 <= s <= n,
        -n <= b - a <= n,
        -MAG_LIMIT <= a <= MAG_LIMIT,
        -MAG_LIMIT <= b <= MAG_LIMIT,
    ensures
        -2 * MAG_LIMIT <= div_trunc((b - a) * s, n) <= 2 * MAG_LIMIT,
{
    let d = b - a;
    assert(-((2 * MAG_LIMIT) * n) <= d * s <= (2 * MAG_LIMIT) * n) by (nonlinear_arith)
        requires
            -2 * MAG_LIMIT <= d <= 2 * MAG_LIMIT,
            0 <= s <= n,
            0 < n,
    ;
    if d * s >= 0 {
        assert(d * s / n <= 2 * MAG_LIMIT) by (nonlinear_arith)
            requires
                0 < n,
                0 <= d * s <= (2 * MAG_LIMIT) * n,
        ;
        vstd::arithmetic::div_mod::lemma_div_pos_is_pos(d * s, n);
    } else {
        assert((-(d * s)) / n <= 2 * MAG_LIMIT) by (nonlinear_arith)
            requires
                0 < n,
                0 <= -(d * s) <= (2 * MAG_LIMIT) * n,
        ;
        vstd::arithmetic::div_mod::lemma_div_pos_is_pos(-(d * s), n);
    }
}

/// Law: advancing a curve at speed zero moves nothing: the walk state
/// is unchanged but for the generated point, the same point is
/// generated on every further zero-speed advance, and the curve never
/// reports finished unless it already stood on its last node.
pub proof fn lemma_curve_zero_speed_fixpoint(m: CurveModel)
    requires
        curve_model_wf(m),
        m.points.len() >= 2,
    ensures
        curve_advanced(m, 0).1 is Some,
        curve_advanced(m, 0).0.points == m.points,
        curve_advanced(m, 0).0.node_used == m.node_used,
        curve_advanced(m, 0).0.node_len == m.node_len,
        curve_advanced(curve_advanced(m, 0).0, 0) == curve_advanced(m, 0),
{
    let m1 = curve_advanced(m, 0).0;
    assert(curve_advanced(m1, 0).0 =~= curve_advanced(m, 0).0);
}

/// A held position with a countdown.
pub struct Fixed {
    /// Time left to hold, in milliseconds.
    pub time: Milli,
    /// The held position.
    pub pos: Vec2,
    /// Actions released when the path is consumed.
    pub actions: Vec<Action>,
}

impl Fixed {
    /// Structural bounds of a hold in flight.
    pub open spec fn wf(self) -> bool {
        &&& -TICK_LIMIT <= self.time <= MAG_LIMIT
        &&& self.pos.wf()
    }

    /// The countdown ran out.
    pub open spec fn finished_spec(self) -> bool {
        self.time <= 0
    }

    /// Advance the hold: while the countdown has not run below zero the
    /// held position is generated and the countdown drops.
    pub fn travel(&mut self, dt: Milli) -> (r: Option<Vec2>)
        requires
            old(self).wf(),
            0 <= dt <= TICK_LIMIT,
        ensures
            final(self).wf(),
            old(self).time >= 0 ==> r == Some(old(self).pos) && final(self).time == old(self).time
                - dt,
            old(self).time < 0 ==> r is None && final(self).time == old(self).time,
            final(self).pos == old(self).pos,
            final(self).actions@ == old(self).actions@,
    {
        if self.time >= 0 {
            self.time = self.time - dt;
            Some(self.pos)
        } else {
            None
        }
    }
}


/// Ghost model of an arc in flight (everything but the carried
/// actions).
#[verifier::ext_equal]
pub ghost struct ArcModel {
    pub center: Vec2,
    pub radius: int,
    pub angle: int,
    pub degrees: int,
    pub speed: int,
    pub direction: RotationDirection,
}

/// Ghost model of a hold in flight (everything but the carried
/// actions).
#[verifier::ext_equal]
pub ghost struct FixedModel {
    pub time: int,
    pub pos: Vec2,
}

/// Ghost model of a path in flight: the generator state, with the
/// carried actions left aside (they have `actions_spec`).
#[verifier::ext_equal]
pub ghost enum PathModel {
    Arc(ArcModel),
    Curve(CurveModel),
    Fixed(FixedModel),
}

/// The arc model after one advance's sweep.
pub open spec fn arc_model_stepped(a: ArcModel, dt: int) -> ArcModel {
    let ang = arc_step(a.speed, dt, a.radius);
    let moved = match a.direction {
        RotationDirection::CounterClockwise => a.angle + ang,
        RotationDirection::Clockwise => a.angle - ang,
    };
    ArcModel { degrees: a.degrees - ang, angle: moved % (TURN_MILLI as int), ..a }
}

/// The cartesian point of an arc model's polar position.
pub open spec fn arc_model_position(a: ArcModel) -> Vec2 {
    let p = polar_vec(a.radius, a.angle);
    Vec2 { x: (a.center.x + p.x) as i64, y: (a.center.y + p.y) as i64 }
}

/// One advance of any path model: an unfinished arc sweeps and yields
/// its new polar point; a curve walks its polyline; a hold yields its
/// point while its countdown has not run below zero. A spent generator
/// yields nothing and stays put.
pub open spec fn path_model_advanced(m: PathModel, dt: int) -> (PathModel, Option<Vec2>) {
    match m {
        PathModel::Arc(a) => if a.degrees <= 0 {
            (m, None::<Vec2>)
        } else {
            (PathModel::Arc(arc_model_stepped(a, dt)), Some(arc_model_position(arc_model_stepped(a, dt))))
        },
        PathModel::Curve(c) => {
            let stepped = curve_advanced(c, travel_dist(c.speed, dt));
            (PathModel::Curve(stepped.0), stepped.1)
        },
        PathModel::Fixed(f) => if f.time >= 0 {
            (PathModel::Fixed(FixedModel { time: f.time - dt, pos: f.pos }), Some(f.pos))
        } else {
            (m, None::<Vec2>)
        },
    }
}

/// Whether a path model has nothing more to generate.
pub open spec fn path_model_finished(m: PathModel) -> bool {
    match m {
        PathModel::Arc(a) => a.degrees <= 0,
        PathModel::Curve(c) => c.points.len() <= 1,
        PathModel::Fixed(f) => f.time <= 0,
    }
}


/// The projection of a builder that determines what it builds: every
/// field, with the vectors taken as their abstract sequences.
pub open spec fn pb_core(pb: PathBuilder) -> (
    PathType,
    Option<Milli>,
    Seq<Action>,
    Option<Point>,
    Option<Milli>,
    Option<Milli>,
    Option<RotationDirection>,
    Option<Seq<Point>>,
    Option<Milli>,
) {
    (
        pb.path_type,
        pb.speed,
        pb.actions@,
        pb.center,
        pb.radius,
        pb.degrees,
        pb.direction,
        match pb.points {
            Some(ps) => Some(ps@),
            None => None::<Seq<Point>>,
        },
        pb.time,
    )
}

/// The model of the path a builder resolves at given positions.
pub open spec fn built_path_model(pb: PathBuilder, cur: Vec2, player: Vec2) -> PathModel {
    match pb.path_type {
        PathType::Fixed => PathModel::Fixed(FixedModel { time: pb.time.unwrap() as int, pos: cur }),
        PathType::Arc => {
            let center = pb.center.unwrap().resolved(cur, player);
            PathModel::Arc(
                ArcModel {
                    center,
                    radius: pb.radius.unwrap() as int,
                    angle: vec_angle(cur.y - center.y, cur.x - center.x),
                    degrees: pb.degrees.unwrap() as int,
                    speed: pb.speed.unwrap() as int,
                    direction: pb.direction.unwrap(),
                },
            )
        },
        PathType::Curve => {
            let resolved = pb.points.unwrap()@.map_values(|p: Point| p.resolved(cur, player));
            let poly = if resolved.len() >= 2 {
                bezier_polyline(resolved, CURVE_SEGMENTS as int)
            } else {
                resolved
            };
            PathModel::Curve(
                CurveModel {
                    points: poly,
                    pos: cur,
                    node_len: if poly.len() >= 2 {
                        seg_len(poly[0], poly[1])
                    } else {
                        0int
                    },
                    node_used: 0,
                    speed: pb.speed.unwrap() as int,
                },
            )
        },
    }
}

/// A path in flight: one of the three generator kinds.
pub enum Path {
    Arc(Arc),
    Curve(Curve),
    Fixed(Fixed),
}

impl Arc {
    /// The ghost model of this arc.
    pub open spec fn model(self) -> ArcModel {
        ArcModel {
            center: self.center,
            radius: self.radius as int,
            angle: self.angle as int,
            degrees: self.degrees as int,
            speed: self.speed as int,
            direction: self.direction,
        }
    }
}

impl Fixed {
    /// The ghost model of this hold.
    pub open spec fn model(self) -> FixedModel {
        FixedModel { time: self.time as int, pos: self.pos }
    }
}

impl Path {
    /// The ghost model of this path.
    pub open spec fn model(self) -> PathModel {
        match self {
            Path::Arc(a) => PathModel::Arc(a.model()),
            Path::Curve(c) => PathModel::Curve(c.model()),
            Path::Fixed(f) => PathModel::Fixed(f.model()),
        }
    }

    /// Structural bounds of a path in flight.
    pub open spec fn wf(self) -> bool {
        match self {
            Path::Arc(a) => a.wf(),
            Path::Curve(c) => c.wf(),
            Path::Fixed(f) => f.wf(),
        }
    }

    /// The path has nothing more to generate.
    pub open spec fn finished_spec(self) -> bool {
        match self {
            Path::Arc(a) => a.finished_spec(),
            Path::Curve(c) => c.finished_spec(),
            Path::Fixed(f) => f.finished_spec(),
        }
    }

    /// The actions the path carries.
    pub open spec fn actions_spec(self) -> Seq<Action> {
        match self {
            Path::Arc(a) => a.actions@,
            Path::Curve(c) => c.actions@,
            Path::Fixed(f) => f.actions@,
        }
    }

    /// Whether the path has nothing more to generate.
    pub fn finished(&self) -> (r: bool)
        ensures
            r == self.finished_spec(),
    {
        match self {
            Path::Arc(a) => a.degrees <= 0,
            Path::Curve(c) => c.points.len() <= 1,
            Path::Fixed(f) => f.time <= 0,
        }
    }

    /// Advance the path by one tick: the kind's own advance.
    pub fn travel(&mut self, dt: Milli) -> (r: Option<Vec2>)
        requires
            old(self).wf(),
            0 <= dt <= TICK_LIMIT,
        ensures
            final(self).wf(),
            final(self).actions_spec() == old(self).actions_spec(),
            final(self).model() == path_model_advanced(old(self).model(), dt as int).0,
            r == path_model_advanced(old(self).model(), dt as int).1,
            *old(self) is Arc <==> *final(self) is Arc,
            *old(self) is Curve <==> *final(self) is Curve,
            *old(self) is Fixed <==> *final(self) is Fixed,
            *old(self) matches Path::Arc(a) ==> {
                &&& (a.finished_spec() ==> r is None && *final(self) == *old(self))
                &&& (!a.finished_spec() ==> *final(self) == Path::Arc(a.stepped(dt as int)) && r
                    == Some(a.stepped(dt as int).position()))
            },
            *old(self) matches Path::Curve(c) ==> {
                &&& *final(self) matches Path::Curve(c2) && c2.model() == curve_advanced(
                    c.model(),
                    travel_dist(c.speed as int, dt as int),
                ).0 && c2.actions@ == c.actions@ && r == curve_advanced(
                    c.model(),
                    travel_dist(c.speed as int, dt as int),
                ).1
            },
            *old(self) matches Path::Fixed(f) ==> {
                &&& (f.time >= 0 ==> r == Some(f.pos))
                &&& (f.time < 0 ==> r is None)
                &&& *final(self) matches Path::Fixed(f2) && f2.pos == f.pos && f2.actions@
                    == f.actions@ && f2.time == (if f.time >= 0 {
                    f.time - dt
                } else {
                    f.time as int
                })
            },
    {
        let r = match self {
            Path::Arc(a) => a.travel(dt),
            Path::Curve(c) => c.travel(dt),
            Path::Fixed(f) => f.travel(dt),
        };
        proof {
            match *old(self) {
                Path::Arc(a) => {
                    if !a.finished_spec() {
                        lemma_arc_step_nonneg(a.speed as int, a.radius as int, dt as int);
                    }
                },
                _ => {},
            }
            assert(final(self).model() =~= path_model_advanced(old(self).model(), dt as int).0);
        }
        r
    }

    /// Detach the carried actions: they are handed out once, and the
    /// path keeps none.
    pub fn actions(&mut self) -> (r: Vec<Action>)
        requires
            old(self).wf(),
        ensures
            final(self).wf(),
            r@ == old(self).actions_spec(),
            final(self).actions_spec() =~= Seq::<Action>::empty(),
            final(self).model() == old(self).model(),
            *old(self) is Arc <==> *final(self) is Arc,
            *old(self) is Curve <==> *final(self) is Curve,
            *old(self) is Fixed <==> *final(self) is Fixed,
            final(self).finished_spec() == old(self).finished_spec(),
    {
        let mut out: Vec<Action> = Vec::new();
        match self {
            Path::Arc(a) => core::mem::swap(&mut out, &mut a.actions),
            Path::Curve(c) => core::mem::swap(&mut out, &mut c.actions),
            Path::Fixed(f) => core::mem::swap(&mut out, &mut f.actions),
        }
        out
    }
}

/// Builder of a `Path`: the kind, its geometry as symbolic points, and
/// the actions it will carry. Symbolic points and angles are resolved
/// to concrete coordinates at build time, because many paths are built
/// from the previous path's end position.
#[derive(Debug)]
pub struct PathBuilder {
    /// Which kind of path to build.
    pub path_type: PathType,
    /// Speed along the path; mandatory before `build`.
    pub speed: Option<Milli>,
    /// Actions the built path will carry.
    pub actions: Vec<Action>,
    /// Arc center; mandatory for an arc.
    pub center: Option<Point>,
    /// Arc radius; mandatory for an arc.
    pub radius: Option<Milli>,
    /// Arc sweep in thousandths of a degree; mandatory for an arc.
    pub degrees: Option<Milli>,
    /// Arc sense of rotation; mandatory for an arc.
    pub direction: Option<RotationDirection>,
    /// Curve nodes; mandatory for a curve.
    pub points: Option<Vec<Point>>,
    /// Hold duration; mandatory for a fixed path.
    pub time: Option<Milli>,
}

impl PathBuilder {
    /// Bounds every builder keeps.
    pub open spec fn wf(self) -> bool {
        &&& (self.speed matches Some(s) ==> 0 <= s <= MAG_LIMIT)
        &&& (self.center matches Some(c) ==> c.wf())
        &&& (self.radius matches Some(r) ==> 1 <= r <= MAG_LIMIT)
        &&& (self.degrees matches Some(d) ==> -MAG_LIMIT <= d <= MAG_LIMIT)
        &&& (self.time matches Some(t) ==> 0 <= t <= MAG_LIMIT)
        &&& (self.points matches Some(ps) ==> forall|i: int|
            0 <= i < ps@.len() ==> (#[trigger] ps@[i]).wf())
        &&& (forall|i: int| 0 <= i < self.actions@.len() ==> (#[trigger] self.actions@[i]).wf())
    }

    /// An empty builder for one kind of path.
    pub fn new(pt: PathType) -> (r: PathBuilder)
        ensures
            r.path_type == pt,
            r.speed is None,
            r.center is None,
            r.radius is None,
            r.degrees is None,
            r.direction is None,
            r.points is None,
            r.time is None,
            r.actions@ =~= Seq::<Action>::empty(),
            r.wf(),
    {
        PathBuilder {
            path_type: pt,
            speed: None,
            actions: Vec::new(),
            center: None,
            radius: None,
            degrees: None,
            direction: None,
            points: None,
            time: None,
        }
    }

    /// Set the speed along the path.
    pub fn speed(self, speed: Milli) -> (r: PathBuilder)
        ensures
            r == (PathBuilder { speed: Some(speed), ..self }),
    {
        PathBuilder { speed: Some(speed), ..self }
    }

    /// Append delayed actions for the built path to carry.
    pub fn actions(self, actions: Vec<Action>) -> (r: PathBuilder)
        ensures
            r.actions@ =~= self.actions@ + actions@,
            r.path_type == self.path_type,
            r.speed == self.speed,
            r.center == self.center,
            r.radius == self.radius,
            r.degrees == self.degrees,
            r.direction == self.direction,
            r.points == self.points,
            r.time == self.time,
    {
        let mut s = self;
        let mut more = actions;
        s.actions.append(&mut more);
        s
    }

    /// Set the arc center.
    pub fn center(self, center: Point) -> (r: PathBuilder)
        ensures
            r == (PathBuilder { center: Some(center), ..self }),
    {
        PathBuilder { center: Some(center), ..self }
    }

    /// Set the arc radius.
    pub fn radius(self, radius: Milli) -> (r: PathBuilder)
        ensures
            r == (PathBuilder { radius: Some(radius), ..self }),
    {
        PathBuilder { radius: Some(radius), ..self }
    }

    /// Set the arc sweep.
    pub fn degrees(self, degrees: Milli) -> (r: PathBuilder)
        ensures
            r == (PathBuilder { degrees: Some(degrees), ..self }),
    {
        PathBuilder { degrees: Some(degrees), ..self }
    }

    /// Set the arc's sense of rotation.
    pub fn direction(self, direction: RotationDirection) -> (r: PathBuilder)
        ensures
            r == (PathBuilder { direction: Some(direction), ..self }),
    {
        PathBuilder { direction: Some(direction), ..self }
    }

    /// Set the hold duration of a fixed path.
    pub fn time(self, time: Milli) -> (r: PathBuilder)
        ensures
            r == (PathBuilder { time: Some(time), ..self }),
    {
        PathBuilder { time: Some(time), ..self }
    }

    /// Set the curve nodes.
    pub fn points(self, points: Vec<Point>) -> (r: PathBuilder)
        ensures
            r.points matches Some(ps) && ps@ == points@,
            r.path_type == self.path_type,
            r.speed == self.speed,
            r.center == self.center,
            r.radius == self.radius,
            r.degrees == self.degrees,
            r.direction == self.direction,
            r.actions == self.actions,
            r.time == self.time,
    {
        PathBuilder { points: Some(points), ..self }
    }

    /// Reflect the built path across the y axis: the carried actions'
    /// patterns are mirrored, and the kind's own geometry with them —
    /// an arc mirrors its center and reverses its rotation, a curve
    /// mirrors every node, a hold is symmetric already.
    #[verifier::loop_isolation(false)]
    pub fn mirror_x(&self) -> (r: PathBuilder)
        requires
            self.wf(),
            self.path_type is Arc ==> self.center is Some && self.direction is Some,
            self.path_type is Curve ==> self.points is Some,
        ensures
            r.wf(),
            r.path_type == self.path_type,
            r.speed == self.speed,
            r.radius == self.radius,
            r.degrees == self.degrees,
            r.time == self.time,
            r.actions@ =~= self.actions@.map_values(|a: Action| a.mirrored_x()),
            self.path_type is Arc ==> r.center == Some(self.center.unwrap().mirrored_x())
                && r.direction is Some && (self.direction.unwrap() is Clockwise
                <==> r.direction.unwrap() is CounterClockwise),
            self.path_type is Curve ==> (r.points matches Some(ps) && ps@
                =~= self.points.unwrap()@.map_values(|p: Point| p.mirrored_x())),
            self.path_type is Fixed ==> r.center == self.center && r.direction == self.direction,
    {
        let mut acts: Vec<Action> = Vec::new();
        let n = self.actions.len();
        let mut i: usize = 0;
        while i < n
            invariant
                i <= n == self.actions@.len(),
                acts@ =~= self.actions@.take(i as int).map_values(|a: Action| a.mirrored_x()),
                forall|j: int| 0 <= j < acts@.len() ==> (#[trigger] acts@[j]).wf(),
            decreases n - i,
        {
            let a = self.actions[i].mirror_x();
            acts.push(a);
            proof {
                assert(self.actions@.take(i + 1).drop_last() =~= self.actions@.take(i as int));
                assert(self.actions@.take(i + 1).map_values(
                    |a: Action| a.mirrored_x(),
                ).drop_last() =~= self.actions@.take(i as int).map_values(
                    |a: Action| a.mirrored_x(),
                ));
            }
            i = i + 1;
        }
        proof {
            assert(self.actions@.take(n as int) =~= self.actions@);
        }
        let mut center2 = self.center;
        let mut direction2 = self.direction;
        let mut points2: Option<Vec<Point>> = None;
        match self.path_type {
            PathType::Arc => {
                let c = match self.center {
                    Some(c) => c,
                    None => Point::Fixed(Vec2 { x: 0, y: 0 }),
                };
                center2 = Some(c.mirror_x());
                let d = match self.direction {
                    Some(d) => d,
                    None => RotationDirection::Clockwise,
                };
                direction2 = Some(d.opposite());
            },
            PathType::Curve => {
                let mut out: Vec<Point> = Vec::new();
                match &self.points {
                    Some(pts) => {
                        let m = pts.len();
                        let mut k: usize = 0;
                        while k < m
                            invariant
                                k <= m == pts@.len(),
                                pts@ == self.points.unwrap()@,
                                out@ =~= pts@.take(k as int).map_values(
                                    |p: Point| p.mirrored_x(),
                                ),
                                forall|j: int| 0 <= j < pts@.len() ==> (#[trigger] pts@[j]).wf(),
                                forall|j: int| 0 <= j < out@.len() ==> (#[trigger] out@[j]).wf(),
                            decreases m - k,
                        {
                            let p = pts[k].mirror_x();
                            out.push(p);
                            proof {
                                assert(pts@.take(k + 1).drop_last() =~= pts@.take(k as int));
                                assert(pts@.take(k + 1).map_values(
                                    |p: Point| p.mirrored_x(),
                                ).drop_last() =~= pts@.take(k as int).map_values(
                                    |p: Point| p.mirrored_x(),
                                ));
                            }
                            k = k + 1;
                        }
                        proof {
                            assert(pts@.take(m as int) =~= pts@);
                        }
                    },
                    None => {},
                }
                points2 = Some(out);
            },
            PathType::Fixed => {},
        }
        PathBuilder {
            path_type: self.path_type,
            speed: self.speed,
            actions: acts,
            center: center2,
            radius: self.radius,
            degrees: self.degrees,
            direction: direction2,
            points: points2,
            time: self.time,
        }
    }

    /// Reflect the built path across the x axis, the counterpart of
    /// `mirror_x`.
    #[verifier::loop_isolation(false)]
    pub fn mirror_y(&self) -> (r: PathBuilder)
        requires
            self.wf(),
            self.path_type is Arc ==> self.center is Some && self.direction is Some,
            self.path_type is Curve ==> self.points is Some,
        ensures
            r.wf(),
            r.path_type == self.path_type,
            r.speed == self.speed,
            r.radius == self.radius,
            r.degrees == self.degrees,
            r.time == self.time,
            r.actions@ =~= self.actions@.map_values(|a: Action| a.mirrored_y()),
            self.path_type is Arc ==> r.center == Some(self.center.unwrap().mirrored_y())
                && r.direction is Some && (self.direction.unwrap() is Clockwise
                <==> r.direction.unwrap() is CounterClockwise),
            self.path_type is Curve ==> (r.points matches Some(ps) && ps@
                =~= self.points.unwrap()@.map_values(|p: Point| p.mirrored_y())),
            self.path_type is Fixed ==> r.center == self.center && r.direction == self.direction,
    {
        let mut acts: Vec<Action> = Vec::new();
        let n = self.actions.len();
        let mut i: usize = 0;
        while i < n
            invariant
                i <= n == self.actions@.len(),
                acts@ =~= self.actions@.take(i as int).map_values(|a: Action| a.mirrored_y()),
                forall|j: int| 0 <= j < acts@.len() ==> (#[trigger] acts@[j]).wf(),
            decreases n - i,
        {
            let a = self.actions[i].mirror_y();
            acts.push(a);
            proof {
                assert(self.actions@.take(i + 1).drop_last() =~= self.actions@.take(i as int));
                assert(self.actions@.take(i + 1).map_values(
                    |a: Action| a.mirrored_y(),
                ).drop_last() =~= self.actions@.take(i as int).map_values(
                    |a: Action| a.mirrored_y(),
                ));
            }
            i = i + 1;
        }
        proof {
            assert(self.actions@.take(n as int) =~= self.actions@);
        }
        let mut center2 = self.center;
        let mut direction2 = self.direction;
        let mut points2: Option<Vec<Point>> = None;
        match self.path_type {
            PathType::Arc => {
                let c = match self.center {
                    Some(c) => c,
                    None => Point::Fixed(Vec2 { x: 0, y: 0 }),
                };
                center2 = Some(c.mirror_y());
                let d = match self.direction {
                    Some(d) => d,
                    None => RotationDirection::Clockwise,
                };
                direction2 = Some(d.opposite());
            },
            PathType::Curve => {
                let mut out: Vec<Point> = Vec::new();
                match &self.points {
                    Some(pts) => {
                        let m = pts.len();
                        let mut k: usize = 0;
                        while k < m
                            invariant
                                k <= m == pts@.len(),
                                pts@ == self.points.unwrap()@,
                                out@ =~= pts@.take(k as int).map_values(
                                    |p: Point| p.mirrored_y(),
                                ),
                                forall|j: int| 0 <= j < pts@.len() ==> (#[trigger] pts@[j]).wf(),
                                forall|j: int| 0 <= j < out@.len() ==> (#[trigger] out@[j]).wf(),
                            decreases m - k,
                        {
                            let p = pts[k].mirror_y();
                            out.push(p);
                            proof {
                                assert(pts@.take(k + 1).drop_last() =~= pts@.take(k as int));
                                assert(pts@.take(k + 1).map_values(
                                    |p: Point| p.mirrored_y(),
                                ).drop_last() =~= pts@.take(k as int).map_values(
                                    |p: Point| p.mirrored_y(),
                                ));
                            }
                            k = k + 1;
                        }
                        proof {
                            assert(pts@.take(m as int) =~= pts@);
                        }
                    },
                    None => {},
                }
                points2 = Some(out);
            },
            PathType::Fixed => {},
        }
        PathBuilder {
            path_type: self.path_type,
            speed: self.speed,
            actions: acts,
            center: center2,
            radius: self.radius,
            degrees: self.degrees,
            direction: direction2,
            points: points2,
            time: self.time,
        }
    }

    /// A field-for-field copy of the builder.
    pub fn duplicate(&self) -> (r: PathBuilder)
        ensures
            pb_core(r) == pb_core(*self),
            r.path_type == self.path_type,
            r.speed == self.speed,
            r.actions@ == self.actions@,
            r.center == self.center,
            r.radius == self.radius,
            r.degrees == self.degrees,
            r.direction == self.direction,
            (self.points is Some <==> r.points is Some),
            self.points is Some ==> r.points.unwrap()@ == self.points.unwrap()@,
            r.time == self.time,
    {
        let points: Option<Vec<Point>> = match &self.points {
            Some(ps) => Some(ps.clone()),
            None => None,
        };
        PathBuilder {
            path_type: self.path_type,
            speed: self.speed,
            actions: self.actions.clone(),
            center: self.center,
            radius: self.radius,
            degrees: self.degrees,
            direction: self.direction,
            points,
            time: self.time,
        }
    }

    /// Build the path, resolving every symbolic point against the
    /// current position and the tracked target's position. The fields
    /// the kind needs must have been set, and the resolved geometry must
    /// lie within the world bound; a builder violating either is a
    /// construction-time error.
    pub fn build(self, current_pos: Vec2, player_pos: Vec2) -> (r: Path)
        requires
            self.wf(),
            current_pos.wf(),
            player_pos.wf(),
            self.speed is Some,
            self.path_type is Arc ==> self.center is Some && self.radius is Some && self.degrees
                is Some && self.direction is Some && self.center.unwrap().resolved(
                current_pos,
                player_pos,
            ).wf(),
            self.path_type is Curve ==> self.points is Some && (forall|i: int|
                0 <= i < self.points.unwrap()@.len()
                    ==> (#[trigger] self.points.unwrap()@[i]).resolved(
                    current_pos,
                    player_pos,
                ).wf()),
            self.path_type is Fixed ==> self.time is Some,
        ensures
            r.wf(),
            r.actions_spec() == self.actions@,
            r.model() == built_path_model(self, current_pos, player_pos),
            self.path_type is Arc <==> r is Arc,
            self.path_type is Curve <==> r is Curve,
            self.path_type is Fixed <==> r is Fixed,
            r matches Path::Fixed(f) ==> f.time == self.time.unwrap() && f.pos == current_pos,
            r matches Path::Arc(a) ==> {
                &&& a.center == self.center.unwrap().resolved(current_pos, player_pos)
                &&& a.radius == self.radius.unwrap()
                &&& a.degrees == self.degrees.unwrap()
                &&& a.speed == self.speed.unwrap()
                &&& a.direction == self.direction.unwrap()
                &&& a.angle == vec_angle(
                    current_pos.y - a.center.y,
                    current_pos.x - a.center.x,
                )
            },
            r matches Path::Curve(c) ==> {
                let resolved = self.points.unwrap()@.map_values(
                    |p: Point| p.resolved(current_pos, player_pos),
                );
                &&& (resolved.len() >= 2 ==> c.points@ =~= bezier_polyline(
                    resolved,
                    CURVE_SEGMENTS as int,
                ))
                &&& (resolved.len() < 2 ==> c.points@ =~= resolved)
                &&& c.pos == current_pos
                &&& c.node_used == 0
                &&& c.speed == self.speed.unwrap()
                &&& (c.points@.len() >= 2 ==> c.node_len == seg_len(c.points@[0], c.points@[1]))
                &&& (c.points@.len() < 2 ==> c.node_len == 0)
            },
    {
        let speed = match self.speed {
            Some(s) => s,
            None => 0,
        };
        match self.path_type {
            PathType::Fixed => {
                let time = match self.time {
                    Some(t) => t,
                    None => 0,
                };
                Path::Fixed(Fixed { time, pos: current_pos, actions: self.actions })
            },
            PathType::Arc => {
                let c = match self.center {
                    Some(c) => c,
                    None => Point::Fixed(Vec2 { x: 0, y: 0 }),
                };
                let radius = match self.radius {
                    Some(v) => v,
                    None => 1,
                };
                let degrees = match self.degrees {
                    Some(v) => v,
                    None => 0,
                };
                let direction = match self.direction {
                    Some(v) => v,
                    None => RotationDirection::Clockwise,
                };
                let center = c.eval(current_pos, player_pos);
                let angle = crate::num::atan2_milli(
                    current_pos.y - center.y,
                    current_pos.x - center.x,
                );
                Path::Arc(
                    Arc { center, radius, angle, degrees, speed, direction, actions: self.actions },
                )
            },
            PathType::Curve => {
                let pts = match self.points {
                    Some(ps) => ps,
                    None => Vec::new(),
                };
                let ghost pts_view = pts@;
                let n = pts.len();
                let mut resolved: Vec<Vec2> = Vec::new();
                let mut i: usize = 0;
                while i < n
                    invariant
                        i <= n == pts@.len(),
                        pts@ == pts_view,
                        forall|j: int| 0 <= j < n ==> (#[trigger] pts@[j]).wf(),
                        forall|j: int|
                            0 <= j < n ==> (#[trigger] pts@[j]).resolved(
                                current_pos,
                                player_pos,
                            ).wf(),
                        current_pos.wf(),
                        player_pos.wf(),
                        resolved@ =~= pts@.take(i as int).map_values(
                            |p: Point| p.resolved(current_pos, player_pos),
                        ),
                        forall|j: int| 0 <= j < resolved@.len() ==> (#[trigger] resolved@[j]).wf(),
                    decreases n - i,
                {
                    let p = pts[i].eval(current_pos, player_pos);
                    resolved.push(p);
                    proof {
                        assert(pts@.take(i + 1).drop_last() =~= pts@.take(i as int));
                        assert(pts@.take(i + 1).map_values(
                            |p: Point| p.resolved(current_pos, player_pos),
                        ).drop_last() =~= pts@.take(i as int).map_values(
                            |p: Point| p.resolved(current_pos, player_pos),
                        ));
                    }
                    i = i + 1;
                }
                proof {
                    assert(pts@.take(n as int) =~= pts@);
                }
                let polyline: Vec<Vec2> = if resolved.len() >= 2 {
                    bezier_samples(&resolved, CURVE_SEGMENTS)
                } else {
                    resolved
                };
                let node_len: Milli = if polyline.len() >= 2 {
                    crate::geom::distance(polyline[0], polyline[1])
                } else {
                    0
                };
                Path::Curve(
                    Curve {
                        points: polyline,
                        pos: current_pos,
                        node_len,
                        node_used: 0,
                        speed,
                        actions: self.actions,
                    },
                )
            },
        }
    }
}


} // verus!
