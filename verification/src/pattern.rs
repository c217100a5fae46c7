//! Emission patterns: time-driven generators of projectile spawn
//! offsets and velocities along an angular sweep, with repeat bursts,
//! target tracking and a periodic angular wobble.
//!
//! Shots are produced in polar form and converted to cartesian offsets
//! with the crate's scaled trigonometry. Every advance is specified
//! exactly by the model functions of this module.

use vstd::prelude::*;

use crate::geom::{polar_vec, to_cartesian, Vec2};
use crate::num::{
    div_t, div_trunc, sin_milli, sin_milli_spec, vec_angle, Milli, HALF_TURN_MILLI, MAG_LIMIT,
    TURN_MILLI,
};
use crate::path::RotationDirection;

verus! {

broadcast use vstd::seq_lib::group_seq_properties;

/// Longest single update tick the simulation accepts, in milliseconds.
pub const TICK_LIMIT: i64 = 10_000_000;

/// Largest magnitude a resolved sweep angle can have: a tracked aim
/// angle plus a full offset.
pub const ANGLE_LIMIT: i64 = 1_000_360_000;

/// Largest magnitude a burst's advancing angle is allowed to reach; an
/// advance past it is held there. No sweep a builder can express comes
/// near this bound.
pub const SWEEP_LIMIT: i64 = 6_000_000_000;

/// An angle expression of the level format: fixed, or relative to the
/// direction from the emitter to the tracked target.
#[derive(Clone, Copy, Debug, PartialEq, Eq, Structural)]
pub enum Angle {
    /// The angle itself, in thousandths of a degree.
    Fixed(Milli),
    /// An offset added to the aim angle toward the tracked target.
    Player(Milli),
}

impl Angle {
    /// The carried angle or offset.
    pub open spec fn carried(self) -> Milli {
        match self {
            Angle::Fixed(a) => a,
            Angle::Player(m) => m,
        }
    }

    /// Carried value within the magnitude bound.
    pub open spec fn wf(self) -> bool {
        -MAG_LIMIT <= self.carried() <= MAG_LIMIT
    }

    /// The y-axis reflection of an angle expression: a fixed angle `a`
    /// becomes `180 - a` degrees, kept normalized; a target-relative
    /// offset is negated.
    pub open spec fn mirrored_x(self) -> Angle {
        match self {
            Angle::Fixed(a) => Angle::Fixed(
                ((HALF_TURN_MILLI - a) % (TURN_MILLI as int)) as i64,
            ),
            Angle::Player(m) => Angle::Player((-m) as i64),
        }
    }

    /// The x-axis reflection of an angle expression: a fixed angle `a`
    /// becomes `180 + a` degrees, kept normalized; a target-relative
    /// offset is negated.
    pub open spec fn mirrored_y(self) -> Angle {
        match self {
            Angle::Fixed(a) => Angle::Fixed(
                ((HALF_TURN_MILLI + a) % (TURN_MILLI as int)) as i64,
            ),
            Angle::Player(m) => Angle::Player((-m) as i64),
        }
    }

    /// Reflect the angle expression across the y axis.
    pub fn mirror_x(&self) -> (r: Angle)
        requires
            self.wf(),
        ensures
            r == self.mirrored_x(),
            r.wf(),
    {
        match *self {
            Angle::Fixed(a) => Angle::Fixed(crate::num::norm_angle(HALF_TURN_MILLI - a)),
            Angle::Player(m) => Angle::Player(-m),
        }
    }

    /// Reflect the angle expression across the x axis.
    pub fn mirror_y(&self) -> (r: Angle)
        requires
            self.wf(),
        ensures
            r == self.mirrored_y(),
            r.wf(),
    {
        match *self {
            Angle::Fixed(a) => Angle::Fixed(crate::num::norm_angle(HALF_TURN_MILLI + a)),
            Angle::Player(m) => Angle::Player(-m),
        }
    }

    /// The concrete angle an expression resolves to: a fixed angle is
    /// itself; a target-relative one is the direction from the emitter
    /// to the target plus the carried offset.
    pub open spec fn resolved(self, cur: Vec2, player: Vec2) -> int {
        match self {
            Angle::Fixed(a) => a as int,
            Angle::Player(m) => vec_angle(player.y - cur.y, player.x - cur.x) + m,
        }
    }

    /// Resolve the angle expression against the emitter's position and
    /// the tracked target's position.
    pub fn eval(&self, cur: Vec2, player: Vec2) -> (r: Milli)
        requires
            self.wf(),
            cur.wf(),
            player.wf(),
        ensures
            r == self.resolved(cur, player),
            -ANGLE_LIMIT <= r <= ANGLE_LIMIT,
    {
        match *self {
            Angle::Fixed(a) => a,
            Angle::Player(m) => {
                let dy = player.y - cur.y;
                let dx = player.x - cur.x;
                let ab = crate::num::atan2_milli(dy, dx);
                ab + m
            },
        }
    }
}

/// One in-flight burst: its advancing angle, shots left, accumulated
/// time toward the next shot, and the wobble offset captured when the
/// burst began.
#[derive(Clone, Copy, Debug, PartialEq, Eq, Structural)]
pub struct PatternState {
    /// Angle of the next shot, before wobble.
    pub cur_angle: Milli,
    /// Shots this burst has yet to emit.
    pub amount_left: u64,
    /// Time accumulated toward the next shot.
    pub int_time: Milli,
    /// Wobble offset captured at the start of the burst.
    pub wobble_angle: Milli,
}

impl PatternState {
    /// Bounds every burst state keeps.
    pub open spec fn wf(self) -> bool {
        &&& -SWEEP_LIMIT <= self.cur_angle <= SWEEP_LIMIT
        &&& 0 <= self.int_time
        &&& -MAG_LIMIT <= self.wobble_angle <= MAG_LIMIT
    }
}

/// One emitted shot: the aim angle, the spawn offset from the emitter,
/// and the initial velocity, the last two in cartesian form.
#[derive(Clone, Copy, Debug, PartialEq, Eq, Structural)]
pub struct Shot {
    /// Aim angle in thousandths of a degree (not normalized).
    pub angle: Milli,
    /// Spawn offset from the emitter: the pattern's radius along the
    /// aim angle.
    pub offset: Vec2,
    /// Initial velocity: the pattern's speed along the aim angle.
    pub velocity: Vec2,
}

/// Ghost model of a pattern: its scalar state and the in-flight bursts.
#[verifier::ext_equal]
pub ghost struct PatternModel {
    pub time_int: int,
    pub tracking: bool,
    pub track_cur: Vec2,
    pub track_player: Vec2,
    pub repeat: int,
    pub repeat_delay: int,
    pub amount: int,
    pub actual_start: Angle,
    pub actual_stop: Angle,
    pub start_angle: int,
    pub stop_angle: int,
    pub speed: int,
    pub radius: int,
    pub rep_time: int,
    pub states: Seq<PatternState>,
    pub wobble_angle: int,
    pub wobble_time: int,
    pub cur_wobble_time: int,
    pub wobble_dir: RotationDirection,
}

/// The angle between consecutive shots of a burst: the sweep divided
/// evenly over the gaps between the shots.
pub open spec fn sweep_step(start: int, stop: int, amount: int) -> int {
    if amount <= 1 {
        0int
    } else {
        div_trunc(stop - start, amount - 1)
    }
}

/// An advancing angle moves by the sweep step and is held inside the
/// sweep bound.
pub open spec fn clamp_sweep(a: int) -> int {
    if a > SWEEP_LIMIT {
        SWEEP_LIMIT as int
    } else if a < -SWEEP_LIMIT {
        -SWEEP_LIMIT as int
    } else {
        a
    }
}

/// The wobble contribution to a shot's angle: the captured offset,
/// sign-flipped for clockwise wobble.
pub open spec fn wobble_term(dir: RotationDirection, w: int) -> int {
    match dir {
        RotationDirection::CounterClockwise => w,
        RotationDirection::Clockwise => -w,
    }
}

/// The shot a burst in state `st` emits under the model `m`.
pub open spec fn shot_of(m: PatternModel, st: PatternState) -> Shot {
    let a = st.cur_angle + wobble_term(m.wobble_dir, st.wobble_angle as int);
    Shot {
        angle: a as i64,
        offset: polar_vec(m.radius, a % (TURN_MILLI as int)),
        velocity: polar_vec(m.speed, a % (TURN_MILLI as int)),
    }
}

/// Emissions of one burst within one advance: while the accumulated
/// time covers the per-shot interval and shots remain, one shot is
/// emitted, the interval is deducted, and the angle advances by the
/// sweep step. Gives the burst's state afterwards and the shots.
pub open spec fn drain_shots(m: PatternModel, st: PatternState) -> (PatternState, Seq<Shot>)
    decreases st.amount_left,
{
    if st.int_time >= m.time_int && st.amount_left > 0 {
        let shot = shot_of(m, st);
        let st2 = PatternState {
            cur_angle: clamp_sweep(
                st.cur_angle + sweep_step(m.start_angle, m.stop_angle, m.amount),
            ) as i64,
            amount_left: (st.amount_left - 1) as u64,
            int_time: (st.int_time - m.time_int) as i64,
            wobble_angle: st.wobble_angle,
        };
        let rest = drain_shots(m, st2);
        (rest.0, seq![shot] + rest.1)
    } else {
        (st, Seq::empty())
    }
}

/// Emissions of every burst, in burst order; bursts that finish their
/// shots are dropped.
pub open spec fn drain_all(m: PatternModel, states: Seq<PatternState>) -> (
    Seq<PatternState>,
    Seq<Shot>,
)
    decreases states.len(),
{
    if states.len() == 0 {
        (Seq::empty(), Seq::empty())
    } else {
        let head = drain_shots(m, states.first());
        let rest = drain_all(m, states.drop_first());
        let kept: Seq<PatternState> = if head.0.amount_left > 0 {
            seq![head.0] + rest.0
        } else {
            rest.0
        };
        (kept, head.1 + rest.1)
    }
}

/// The wobble phase after an advance: elapsed wobble time is kept
/// reduced modulo the wobble period.
pub open spec fn next_wobble_time(m: PatternModel, dt: int) -> int {
    (m.cur_wobble_time + dt) % m.wobble_time
}

/// The repeat clock after an advance, held at the magnitude bound (it
/// is only ever compared against delays below that bound).
pub open spec fn next_rep_time(m: PatternModel, dt: int) -> int {
    if m.rep_time + dt > MAG_LIMIT {
        MAG_LIMIT as int
    } else {
        m.rep_time + dt
    }
}

/// Whether an advance by `dt` starts a new burst.
pub open spec fn starts_burst(m: PatternModel, dt: int) -> bool {
    next_rep_time(m, dt) >= m.repeat_delay && m.repeat > 0
}

/// The wobble offset captured by a burst starting after this advance:
/// the wobble amplitude scaled by the sine of the phase within the
/// wobble period.
pub open spec fn burst_wobble(m: PatternModel, dt: int) -> int {
    div_trunc(
        m.wobble_angle * sin_milli_spec(
            (360_000 * next_wobble_time(m, dt)) / m.wobble_time % (TURN_MILLI as int),
        ),
        1000,
    )
}

/// The sweep endpoints a burst starting after this advance aims at: a
/// tracking pattern re-resolves them against the tracked positions, any
/// other keeps the endpoints resolved at build time.
pub open spec fn burst_start(m: PatternModel) -> int {
    if m.tracking {
        m.actual_start.resolved(m.track_cur, m.track_player)
    } else {
        m.start_angle
    }
}

/// Counterpart of `burst_start` for the sweep's stop endpoint.
pub open spec fn burst_stop(m: PatternModel) -> int {
    if m.tracking {
        m.actual_stop.resolved(m.track_cur, m.track_player)
    } else {
        m.stop_angle
    }
}

/// The model with its tracked positions refreshed: a tracking pattern
/// re-aims at the emitter's and the target's current positions before it
/// advances, so every burst resolves its sweep against where they stand
/// now; a fixed pattern keeps the angles it was built with.
pub open spec fn retracked(m: PatternModel, cur: Vec2, player: Vec2) -> PatternModel {
    if m.tracking {
        PatternModel { track_cur: cur, track_player: player, ..m }
    } else {
        m
    }
}

/// The model after the advance's bookkeeping, before shots are drained:
/// clocks advance, a due burst is appended (capturing a fresh wobble
/// phase and, when tracking, freshly resolved sweep endpoints), and
/// every burst accumulates the elapsed time.
pub open spec fn updated_model(m: PatternModel, dt: int) -> PatternModel {
    let burst = starts_burst(m, dt);
    let start = if burst {
        burst_start(m)
    } else {
        m.start_angle
    };
    let stop = if burst {
        burst_stop(m)
    } else {
        m.stop_angle
    };
    let base_states = if burst {
        m.states.push(
            PatternState {
                cur_angle: start as i64,
                amount_left: m.amount as u64,
                int_time: 0,
                wobble_angle: burst_wobble(m, dt) as i64,
            },
        )
    } else {
        m.states
    };
    PatternModel {
        cur_wobble_time: next_wobble_time(m, dt),
        rep_time: if burst {
            0int
        } else {
            next_rep_time(m, dt)
        },
        repeat: if burst {
            m.repeat - 1
        } else {
            m.repeat
        },
        start_angle: start,
        stop_angle: stop,
        states: base_states.map_values(
            |st: PatternState|
                PatternState { int_time: (st.int_time + dt) as i64, ..st },
        ),
        ..m
    }
}

/// A whole advance: bookkeeping, then the draining of every burst.
/// Gives the model afterwards and the shots emitted.
pub open spec fn advanced_model(m: PatternModel, dt: int) -> (PatternModel, Seq<Shot>) {
    let u = updated_model(m, dt);
    let d = drain_all(u, u.states);
    (PatternModel { states: d.0, ..u }, d.1)
}

/// Shots still owed: every future burst's full count plus what each
/// in-flight burst has left.
pub open spec fn states_pending(states: Seq<PatternState>) -> int
    decreases states.len(),
{
    if states.len() == 0 {
        0int
    } else {
        states.first().amount_left + states_pending(states.drop_first())
    }
}

/// Shots the whole pattern still owes.
pub open spec fn model_pending(m: PatternModel) -> int {
    m.repeat * m.amount + states_pending(m.states)
}

/// A pattern generator of projectile spawn offsets and velocities.
pub struct Pattern {
    /// Time between consecutive shots of a burst, in milliseconds.
    pub time_int: Milli,
    /// Whether tracked positions re-resolve each burst's sweep.
    pub tracking: bool,
    /// Last known position of the emitter.
    pub track_cur: Vec2,
    /// Last known position of the tracked target.
    pub track_player: Vec2,
    /// Bursts still to be started.
    pub repeat: u64,
    /// Delay between burst starts, in milliseconds.
    pub repeat_delay: Milli,
    /// Shots per burst.
    pub amount: u64,
    /// The start-angle expression, for re-resolution while tracking.
    pub actual_start: Angle,
    /// The stop-angle expression, for re-resolution while tracking.
    pub actual_stop: Angle,
    /// Resolved sweep start, in thousandths of a degree.
    pub start_angle: Milli,
    /// Resolved sweep stop, in thousandths of a degree.
    pub stop_angle: Milli,
    /// Shot speed, in thousandths of a unit per second.
    pub speed: Milli,
    /// Spawn-offset radius, in thousandths of a unit.
    pub radius: Milli,
    /// Time since the last burst started, in milliseconds.
    pub rep_time: Milli,
    /// In-flight bursts, in starting order.
    pub active_patterns: Vec<PatternState>,
    /// Wobble amplitude, in thousandths of a degree.
    pub wobble_angle: Milli,
    /// Wobble period, in milliseconds.
    pub wobble_time: Milli,
    /// Elapsed wobble time, kept reduced modulo the period.
    pub cur_wobble_time: Milli,
    /// Direction the wobble offset is applied in.
    pub wobble_dir: RotationDirection,
}

impl Pattern {
    /// The ghost model of this pattern.
    pub open spec fn model(self) -> PatternModel {
        PatternModel {
            time_int: self.time_int as int,
            tracking: self.tracking,
            track_cur: self.track_cur,
            track_player: self.track_player,
            repeat: self.repeat as int,
            repeat_delay: self.repeat_delay as int,
            amount: self.amount as int,
            actual_start: self.actual_start,
            actual_stop: self.actual_stop,
            start_angle: self.start_angle as int,
            stop_angle: self.stop_angle as int,
            speed: self.speed as int,
            radius: self.radius as int,
            rep_time: self.rep_time as int,
            states: self.active_patterns@,
            wobble_angle: self.wobble_angle as int,
            wobble_time: self.wobble_time as int,
            cur_wobble_time: self.cur_wobble_time as int,
            wobble_dir: self.wobble_dir,
        }
    }

    /// Structural bounds every pattern keeps.
    pub open spec fn wf(self) -> bool {
        &&& 0 <= self.time_int <= MAG_LIMIT
        &&& 1 <= self.amount <= 1_000_000
        &&& 0 <= self.repeat <= 1_000_000
        &&& 0 <= self.repeat_delay <= MAG_LIMIT
        &&& -ANGLE_LIMIT <= self.start_angle <= ANGLE_LIMIT
        &&& -ANGLE_LIMIT <= self.stop_angle <= ANGLE_LIMIT
        &&& 0 <= self.speed <= MAG_LIMIT
        &&& 0 <= self.radius <= MAG_LIMIT
        &&& 0 <= self.rep_time <= MAG_LIMIT
        &&& -MAG_LIMIT <= self.wobble_angle <= MAG_LIMIT
        &&& 1 <= self.wobble_time <= MAG_LIMIT
        &&& 0 <= self.cur_wobble_time < self.wobble_time
        &&& self.actual_start.wf()
        &&& self.actual_stop.wf()
        &&& self.track_cur.wf()
        &&& self.track_player.wf()
        &&& (forall|i: int|
            0 <= i < self.active_patterns@.len() ==> (#[trigger] self.active_patterns@[i]).wf())
        &&& (forall|i: int|
            0 <= i < self.active_patterns@.len()
                ==> (#[trigger] self.active_patterns@[i]).int_time <= MAG_LIMIT)
        &&& (forall|i: int|
            0 <= i < self.active_patterns@.len()
                ==> (#[trigger] self.active_patterns@[i]).amount_left <= self.amount)
    }

    /// A field-for-field copy of the pattern.
    pub fn duplicate(&self) -> (r: Pattern)
        ensures
            r.active_patterns@ =~= self.active_patterns@,
            r == (Pattern { active_patterns: r.active_patterns, ..*self }),
    {
        Pattern {
            time_int: self.time_int,
            tracking: self.tracking,
            track_cur: self.track_cur,
            track_player: self.track_player,
            repeat: self.repeat,
            repeat_delay: self.repeat_delay,
            amount: self.amount,
            actual_start: self.actual_start,
            actual_stop: self.actual_stop,
            start_angle: self.start_angle,
            stop_angle: self.stop_angle,
            speed: self.speed,
            radius: self.radius,
            rep_time: self.rep_time,
            active_patterns: self.active_patterns.clone(),
            wobble_angle: self.wobble_angle,
            wobble_time: self.wobble_time,
            cur_wobble_time: self.cur_wobble_time,
            wobble_dir: self.wobble_dir,
        }
    }

    /// Attach the tracked positions a tracking pattern re-resolves its
    /// sweep against: the emitter's own position and the target's.
    pub fn set_pos_fetcher(&mut self, cur: Vec2, player: Vec2)
        requires
            old(self).wf(),
            cur.wf(),
            player.wf(),
        ensures
            final(self).wf(),
            *final(self) == (Pattern {
                tracking: true,
                track_cur: cur,
                track_player: player,
                ..*old(self)
            }),
    {
        self.tracking = true;
        self.track_cur = cur;
        self.track_player = player;
    }

    /// The pattern has emitted everything it ever will: no bursts are
    /// left to start and every in-flight burst is out of shots.
    pub open spec fn finished_spec(self) -> bool {
        self.repeat == 0 && forall|i: int|
            0 <= i < self.active_patterns@.len() ==> (
            #[trigger] self.active_patterns@[i]).amount_left == 0
    }

    /// Whether the pattern has emitted everything it ever will.
    #[verifier::loop_isolation(false)]
    pub fn finished(&self) -> (r: bool)
        ensures
            r == self.finished_spec(),
    {
        if self.repeat != 0 {
            return false;
        }
        let mut i: usize = 0;
        while i < self.active_patterns.len()
            invariant
                i <= self.active_patterns.len(),
                forall|j: int|
                    0 <= j < i ==> (#[trigger] self.active_patterns@[j]).amount_left == 0,
            decreases self.active_patterns.len() - i,
        {
            if self.active_patterns[i].amount_left != 0 {
                return false;
            }
            i = i + 1;
        }
        true
    }

    /// Advance the clocks: reduce the wobble phase, move the repeat
    /// clock, start a due burst, and add the elapsed time to every
    /// in-flight burst.
    #[verifier::loop_isolation(false)]
    fn update(&mut self, dt: Milli)
        requires
            old(self).wf(),
            0 <= dt <= TICK_LIMIT,
        ensures
            final(self).model() == updated_model(old(self).model(), dt as int),
            final(self).wf_after_update(dt as int),
    {
        let ghost m0 = old(self).model();
        let c = self.cur_wobble_time + dt;
        self.cur_wobble_time = ((c as u64) % (self.wobble_time as u64)) as i64;
        let rep_raw: Milli = if self.rep_time + dt > MAG_LIMIT {
            MAG_LIMIT
        } else {
            self.rep_time + dt
        };
        if rep_raw >= self.repeat_delay && self.repeat > 0 {
            self.repeat = self.repeat - 1;
            self.rep_time = 0;
            if self.tracking {
                self.start_angle = self.actual_start.eval(self.track_cur, self.track_player);
                self.stop_angle = self.actual_stop.eval(self.track_cur, self.track_player);
            }
            let ph_num = 360_000 * self.cur_wobble_time;
            let ph = crate::num::div_u(ph_num, self.wobble_time);
            proof {
                assert(ph < 360_000) by (nonlinear_arith)
                    requires
                        ph == (360_000 * self.cur_wobble_time as int) / (self.wobble_time as int),
                        0 <= self.cur_wobble_time < self.wobble_time,
                        1 <= self.wobble_time,
                ;
            }
            let s = sin_milli(ph);
            proof {
                crate::geom::lemma_sin_bounds(ph as int);
                assert(-1_000_000_000_000 <= self.wobble_angle * s <= 1_000_000_000_000)
                    by (nonlinear_arith)
                    requires
                        -MAG_LIMIT <= self.wobble_angle <= MAG_LIMIT,
                        -1000 <= s <= 1000,
                ;
            }
            let w = div_t(self.wobble_angle * s, 1000);
            proof {
                crate::geom::lemma_div_trunc_bound(
                    self.wobble_angle * s as int,
                    1000,
                    1_000_000_000_000,
                );
            }
            let st = PatternState {
                cur_angle: self.start_angle,
                amount_left: self.amount,
                int_time: 0,
                wobble_angle: w,
            };
            self.active_patterns.push(st);
        } else {
            self.rep_time = rep_raw;
        }
        let n = self.active_patterns.len();
        let ghost mid = self.active_patterns@;
        let ghost pre_loop = *self;
        let mut i: usize = 0;
        while i < n
            invariant
                *self == (Pattern { active_patterns: self.active_patterns, ..pre_loop }),
                i <= n == self.active_patterns@.len(),
                self.active_patterns@.len() == mid.len(),
                forall|j: int|
                    i <= j < n ==> #[trigger] self.active_patterns@[j] == mid[j],
                forall|j: int|
                    0 <= j < i ==> #[trigger] self.active_patterns@[j] == (PatternState {
                        int_time: (mid[j].int_time + dt) as i64,
                        ..mid[j]
                    }),
                forall|j: int| 0 <= j < n ==> 0 <= #[trigger] mid[j].int_time <= MAG_LIMIT,
            decreases n - i,
        {
            let mut st = self.active_patterns[i];
            st.int_time = st.int_time + dt;
            self.active_patterns[i] = st;
            i = i + 1;
        }
        proof {
            assert(self.active_patterns@ =~= mid.map_values(
                |st: PatternState| PatternState { int_time: (st.int_time + dt) as i64, ..st },
            ));
            assert(self.model() =~= updated_model(m0, dt as int));
        }
    }

    /// Well-formedness right after the clock update, before draining:
    /// like `wf`, except a burst's accumulated time may exceed the
    /// magnitude bound by one tick.
    pub open spec fn wf_after_update(self, dt: int) -> bool {
        &&& 0 <= self.time_int <= MAG_LIMIT
        &&& 1 <= self.amount <= 1_000_000
        &&& 0 <= self.repeat <= 1_000_000
        &&& 0 <= self.repeat_delay <= MAG_LIMIT
        &&& -ANGLE_LIMIT <= self.start_angle <= ANGLE_LIMIT
        &&& -ANGLE_LIMIT <= self.stop_angle <= ANGLE_LIMIT
        &&& 0 <= self.speed <= MAG_LIMIT
        &&& 0 <= self.radius <= MAG_LIMIT
        &&& 0 <= self.rep_time <= MAG_LIMIT
        &&& -MAG_LIMIT <= self.wobble_angle <= MAG_LIMIT
        &&& 1 <= self.wobble_time <= MAG_LIMIT
        &&& 0 <= self.cur_wobble_time < self.wobble_time
        &&& self.actual_start.wf()
        &&& self.actual_stop.wf()
        &&& self.track_cur.wf()
        &&& self.track_player.wf()
        &&& (forall|i: int|
            0 <= i < self.active_patterns@.len() ==> (#[trigger] self.active_patterns@[i]).wf())
        &&& (forall|i: int|
            0 <= i < self.active_patterns@.len()
                ==> (#[trigger] self.active_patterns@[i]).int_time <= MAG_LIMIT + dt)
        &&& (forall|i: int|
            0 <= i < self.active_patterns@.len()
                ==> (#[trigger] self.active_patterns@[i]).amount_left <= self.amount)
    }

    /// Advance the pattern by `dt` milliseconds and collect what it
    /// emits: a due burst starts (aimed at the tracked target's current
    /// position when tracking), and every in-flight burst emits one shot
    /// per elapsed per-shot interval while it has shots left. The shots
    /// still owed never change by more than what was emitted.
    #[verifier::loop_isolation(false)]
    pub fn next(&mut self, dt: Milli) -> (r: Vec<Shot>)
        requires
            old(self).wf(),
            0 <= dt <= TICK_LIMIT,
        ensures
            final(self).wf(),
            final(self).model() == advanced_model(old(self).model(), dt as int).0,
            r@ == advanced_model(old(self).model(), dt as int).1,
            model_pending(final(self).model()) + r@.len() == model_pending(old(self).model()),
    {
        let ghost m0 = old(self).model();
        self.update(dt);
        let ghost u = updated_model(m0, dt as int);
        let mut sts: Vec<PatternState> = Vec::new();
        core::mem::swap(&mut sts, &mut self.active_patterns);
        let ghost all = sts@;
        let n = sts.len();
        let mut kept: Vec<PatternState> = Vec::new();
        let mut out: Vec<Shot> = Vec::new();
        let mut i: usize = 0;
        while i < n
            invariant
                i <= n == all.len(),
                sts@ == all,
                self.model() == (PatternModel { states: Seq::<PatternState>::empty(), ..u }),
                u == updated_model(m0, dt as int),
                self.wf_after_update(dt as int),
                drain_all(u, all).0 =~= kept@ + drain_all(u, all.skip(i as int)).0,
                drain_all(u, all).1 =~= out@ + drain_all(u, all.skip(i as int)).1,
                forall|j: int| 0 <= j < kept@.len() ==> (#[trigger] kept@[j]).wf(),
                forall|j: int|
                    0 <= j < kept@.len() ==> (#[trigger] kept@[j]).int_time < self.time_int,
                forall|j: int|
                    0 <= j < kept@.len() ==> (#[trigger] kept@[j]).amount_left <= self.amount,
            decreases n - i,
        {
            let ghost rest = all.skip(i as int);
            proof {
                assert(rest.first() == all[i as int]);
                assert(rest.drop_first() =~= all.skip(i as int + 1));
            }
            let mut st = sts[i];
            let ghost st_in = st;
            let ghost pre_out = out@;
            while st.int_time >= self.time_int && st.amount_left > 0
                invariant
                    self.model() == (PatternModel { states: Seq::<PatternState>::empty(), ..u }),
                    self.wf_after_update(dt as int),
                    st.wf(),
                    st.int_time <= MAG_LIMIT + dt,
                    st.amount_left <= self.amount,
                    0 <= dt <= TICK_LIMIT,
                    drain_shots(u, st_in).0 == drain_shots(u, st).0,
                    drain_shots(u, st_in).1 =~= out@.skip(pre_out.len() as int) + drain_shots(
                        u,
                        st,
                    ).1,
                    pre_out.len() <= out@.len(),
                    out@.subrange(0, pre_out.len() as int) == pre_out,
                decreases st.amount_left,
            {
                let w = match self.wobble_dir {
                    RotationDirection::CounterClockwise => st.wobble_angle,
                    RotationDirection::Clockwise => -st.wobble_angle,
                };
                let ang = st.cur_angle + w;
                let offset = to_cartesian(self.radius, ang);
                let velocity = to_cartesian(self.speed, ang);
                out.push(Shot { angle: ang, offset, velocity });
                let step: Milli = if self.amount <= 1 {
                    0
                } else {
                    div_t(self.stop_angle - self.start_angle, (self.amount - 1) as i64)
                };
                proof {
                    assert(-2 * ANGLE_LIMIT <= step <= 2 * ANGLE_LIMIT) by {
                        if self.amount > 1 {
                            crate::geom::lemma_div_trunc_bound(
                                self.stop_angle - self.start_angle as int,
                                self.amount - 1 as int,
                                2 * ANGLE_LIMIT as int,
                            );
                            assert((2 * ANGLE_LIMIT as int) / (self.amount - 1 as int) <= 2
                                * ANGLE_LIMIT) by (nonlinear_arith)
                                requires
                                    1 <= self.amount - 1,
                            ;
                        }
                    }
                }
                let ns = st.cur_angle + step;
                let clamped: Milli = if ns > SWEEP_LIMIT {
                    SWEEP_LIMIT
                } else if ns < -SWEEP_LIMIT {
                    -SWEEP_LIMIT
                } else {
                    ns
                };
                st = PatternState {
                    cur_angle: clamped,
                    amount_left: st.amount_left - 1,
                    int_time: st.int_time - self.time_int,
                    wobble_angle: st.wobble_angle,
                };
                proof {
                    assert(out@.skip(pre_out.len() as int) =~= out@.skip(
                        pre_out.len() as int,
                    ).drop_last().push(out@.last()));
                    assert(out@.subrange(0, pre_out.len() as int) =~= pre_out);
                }
            }
            if st.amount_left > 0 {
                kept.push(st);
            }
            proof {
                assert(drain_all(u, rest).0 =~= (if drain_shots(u, all[i as int]).0.amount_left
                    > 0 {
                    seq![drain_shots(u, all[i as int]).0] + drain_all(u, all.skip(i as int + 1)).0
                } else {
                    drain_all(u, all.skip(i as int + 1)).0
                }));
                assert(drain_all(u, all).0 =~= kept@ + drain_all(u, all.skip(i as int + 1)).0);
                assert(drain_all(u, all).1 =~= out@ + drain_all(u, all.skip(i as int + 1)).1);
            }
            i = i + 1;
        }
        self.active_patterns = kept;
        proof {
            assert(all.skip(n as int) =~= Seq::<PatternState>::empty());
            assert(drain_all(u, all).0 =~= kept@);
            assert(drain_all(u, all).1 =~= out@);
            assert(self.model() =~= advanced_model(m0, dt as int).0);
            lemma_advance_conserves_shots(m0, dt as int);
        }
        out
    }
}

/// Draining one burst trades shots one for one against its remaining
/// count.
pub proof fn lemma_drain_shots_conserves(m: PatternModel, st: PatternState)
    ensures
        drain_shots(m, st).0.amount_left + drain_shots(m, st).1.len() == st.amount_left,
    decreases st.amount_left,
{
    if st.int_time >= m.time_int && st.amount_left > 0 {
        let st2 = PatternState {
            cur_angle: clamp_sweep(
                st.cur_angle + sweep_step(m.start_angle, m.stop_angle, m.amount),
            ) as i64,
            amount_left: (st.amount_left - 1) as u64,
            int_time: (st.int_time - m.time_int) as i64,
            wobble_angle: st.wobble_angle,
        };
        lemma_drain_shots_conserves(m, st2);
    }
}

/// Draining every burst trades shots one for one against the total
/// remaining count.
pub proof fn lemma_drain_all_conserves(m: PatternModel, states: Seq<PatternState>)
    ensures
        states_pending(drain_all(m, states).0) + drain_all(m, states).1.len() == states_pending(
            states,
        ),
    decreases states.len(),
{
    if states.len() > 0 {
        lemma_drain_shots_conserves(m, states.first());
        lemma_drain_all_conserves(m, states.drop_first());
        let head = drain_shots(m, states.first());
        let rest = drain_all(m, states.drop_first());
        if head.0.amount_left > 0 {
            assert(states_pending(seq![head.0] + rest.0) == head.0.amount_left + states_pending(
                rest.0,
            )) by {
                assert((seq![head.0] + rest.0).first() == head.0);
                assert((seq![head.0] + rest.0).drop_first() =~= rest.0);
            }
        }
    }
}

proof fn lemma_states_pending_map_keeps(states: Seq<PatternState>, dt: int)
    ensures
        states_pending(
            states.map_values(
                |st: PatternState| PatternState { int_time: (st.int_time + dt) as i64, ..st },
            ),
        ) == states_pending(states),
    decreases states.len(),
{
    let f = |st: PatternState| PatternState { int_time: (st.int_time + dt) as i64, ..st };
    if states.len() > 0 {
        lemma_states_pending_map_keeps(states.drop_first(), dt);
        assert(states.map_values(f).drop_first() =~= states.drop_first().map_values(f));
    }
}

proof fn lemma_states_pending_push(states: Seq<PatternState>, st: PatternState)
    ensures
        states_pending(states.push(st)) == states_pending(states) + st.amount_left,
    decreases states.len(),
{
    if states.len() == 0 {
        assert(states.push(st).drop_first() =~= Seq::<PatternState>::empty());
    } else {
        lemma_states_pending_push(states.drop_first(), st);
        assert(states.push(st).drop_first() =~= states.drop_first().push(st));
    }
}

/// Law: one advance conserves the shots owed — the shots emitted come
/// exactly off the pending count, and nothing else changes it.
pub proof fn lemma_advance_conserves_shots(m: PatternModel, dt: int)
    requires
        m.repeat >= 0,
        0 <= m.amount <= 1_000_000,
    ensures
        model_pending(advanced_model(m, dt).0) + advanced_model(m, dt).1.len() == model_pending(
            m,
        ),
{
    let u = updated_model(m, dt);
    lemma_states_pending_map_keeps(
        if starts_burst(m, dt) {
            m.states.push(
                PatternState {
                    cur_angle: burst_start(m) as i64,
                    amount_left: m.amount as u64,
                    int_time: 0,
                    wobble_angle: burst_wobble(m, dt) as i64,
                },
            )
        } else {
            m.states
        },
        dt,
    );
    if starts_burst(m, dt) {
        lemma_states_pending_push(
            m.states,
            PatternState {
                cur_angle: burst_start(m) as i64,
                amount_left: m.amount as u64,
                int_time: 0,
                wobble_angle: burst_wobble(m, dt) as i64,
            },
        );
        assert(u.repeat * u.amount + u.amount == m.repeat * m.amount) by (nonlinear_arith)
            requires
                u.repeat == m.repeat - 1,
                u.amount == m.amount,
        ;
    }
    lemma_drain_all_conserves(u, u.states);
}

/// The model state after a whole run of advances.
pub open spec fn model_after_run(m: PatternModel, dts: Seq<Milli>) -> PatternModel
    decreases dts.len(),
{
    if dts.len() == 0 {
        m
    } else {
        advanced_model(model_after_run(m, dts.drop_last()), dts.last() as int).0
    }
}

/// How many shots a whole run of advances emits.
pub open spec fn shots_total(m: PatternModel, dts: Seq<Milli>) -> int
    decreases dts.len(),
{
    if dts.len() == 0 {
        0int
    } else {
        shots_total(m, dts.drop_last()) + advanced_model(
            model_after_run(m, dts.drop_last()),
            dts.last() as int,
        ).1.len()
    }
}

/// A model pattern has emitted everything it ever will.
pub open spec fn model_finished(m: PatternModel) -> bool {
    m.repeat == 0 && forall|i: int|
        0 <= i < m.states.len() ==> (#[trigger] m.states[i]).amount_left == 0
}

proof fn lemma_states_pending_nonneg(states: Seq<PatternState>)
    ensures
        states_pending(states) >= 0,
        states_pending(states) == 0 <==> forall|i: int|
            0 <= i < states.len() ==> (#[trigger] states[i]).amount_left == 0,
    decreases states.len(),
{
    if states.len() > 0 {
        lemma_states_pending_nonneg(states.drop_first());
        if states_pending(states) == 0 {
            assert forall|i: int| 0 <= i < states.len() implies (
            #[trigger] states[i]).amount_left == 0 by {
                if i > 0 {
                    assert(states.drop_first()[i - 1] == states[i]);
                }
            }
        }
        if forall|i: int| 0 <= i < states.len() ==> (#[trigger] states[i]).amount_left == 0 {
            assert(states.first().amount_left == 0);
            assert forall|i: int| 0 <= i < states.drop_first().len() implies (
            #[trigger] states.drop_first()[i]).amount_left == 0 by {
                assert(states.drop_first()[i] == states[i + 1]);
            }
        }
    }
}

/// A pattern is finished exactly when it owes no shots.
pub proof fn lemma_finished_iff_no_pending(m: PatternModel)
    requires
        m.repeat >= 0,
        m.amount >= 1,
    ensures
        model_finished(m) <==> model_pending(m) == 0,
{
    lemma_states_pending_nonneg(m.states);
    if m.repeat > 0 {
        assert(m.repeat * m.amount >= m.amount) by (nonlinear_arith)
            requires
                m.repeat >= 1,
                m.amount >= 1,
        ;
    }
    assert(m.repeat * m.amount >= 0) by (nonlinear_arith)
        requires
            m.repeat >= 0,
            m.amount >= 0,
    ;
    assert(m.repeat == 0 ==> m.repeat * m.amount == 0) by (nonlinear_arith);
}

/// Law: across any run of advances, the shots emitted are exactly what
/// the pattern owed at the start minus what it still owes; once the run
/// ends with the pattern finished, the total equals the initial debt.
/// A pattern built with `amount` shots and no repeats owes exactly
/// `amount`, so such a pattern emits exactly `amount` shots in total.
pub proof fn lemma_pattern_shot_count(m: PatternModel, dts: Seq<Milli>)
    requires
        m.repeat >= 0,
        0 <= m.amount <= 1_000_000,
    ensures
        shots_total(m, dts) + model_pending(model_after_run(m, dts)) == model_pending(m),
        model_after_run(m, dts).repeat >= 0,
        model_after_run(m, dts).amount == m.amount,
    decreases dts.len(),
{
    if dts.len() > 0 {
        lemma_pattern_shot_count(m, dts.drop_last());
        let prev = model_after_run(m, dts.drop_last());
        lemma_advance_conserves_shots(prev, dts.last() as int);
    }
}

/// Law: reflecting an angle expression across the y axis twice gives an
/// expression equivalent to the original — equal modulo a full turn for
/// a fixed angle, and equal outright for a target-relative offset.
pub proof fn lemma_mirror_x_twice(a: Angle)
    requires
        a.wf(),
    ensures
        a.mirrored_x().mirrored_x().carried() as int % (TURN_MILLI as int) == a.carried() as int
            % (TURN_MILLI as int),
        a is Fixed <==> a.mirrored_x().mirrored_x() is Fixed,
        a is Player ==> a.mirrored_x().mirrored_x() == a,
{
    match a {
        Angle::Fixed(x) => {
            let t = TURN_MILLI as int;
            let r1 = (HALF_TURN_MILLI - x) % t;
            vstd::arithmetic::div_mod::lemma_fundamental_div_mod(HALF_TURN_MILLI - x, t);
            let q = (HALF_TURN_MILLI - x) as int / t;
            assert(HALF_TURN_MILLI - r1 == x + t * q);
            let r2 = (HALF_TURN_MILLI - r1) % t;
            vstd::arithmetic::div_mod::lemma_mod_multiples_vanish(q, x as int, t);
            assert(a.mirrored_x().mirrored_x().carried() == r2);
        },
        Angle::Player(_) => {},
    }
}


/// The model of the pattern a builder resolves at given positions, not
/// yet tracking.
pub open spec fn built_model(pb: PatternBuilder, cur: Vec2, player: Vec2) -> PatternModel {
    let sa = pb.start_angle.unwrap().resolved(cur, player);
    PatternModel {
        time_int: pb.time_int as int,
        tracking: false,
        track_cur: Vec2 { x: 0 as i64, y: 0 as i64 },
        track_player: Vec2 { x: 0 as i64, y: 0 as i64 },
        repeat: pb.repeat as int,
        repeat_delay: pb.repeat_delay as int,
        amount: pb.amount as int,
        actual_start: pb.start_angle.unwrap(),
        actual_stop: pb.stop_angle.unwrap(),
        start_angle: sa,
        stop_angle: pb.stop_angle.unwrap().resolved(cur, player),
        speed: pb.speed as int,
        radius: pb.radius as int,
        rep_time: 0,
        states: seq![
            PatternState {
                cur_angle: sa as i64,
                amount_left: pb.amount,
                int_time: 0 as i64,
                wobble_angle: 0 as i64,
            },
        ],
        wobble_angle: pb.wobble_angle as int,
        wobble_time: pb.wobble_time as int,
        cur_wobble_time: 0,
        wobble_dir: pb.wobble_dir,
    }
}

/// The model of a built pattern with tracked positions attached.
pub open spec fn built_tracking_model(pb: PatternBuilder, cur: Vec2, player: Vec2) -> PatternModel {
    PatternModel { tracking: true, track_cur: cur, track_player: player, ..built_model(pb, cur, player) }
}

/// Builder of a `Pattern`: collects the sweep, shot, repeat and wobble
/// parameters, then resolves the angle expressions at build time.
#[derive(Clone, Copy, Debug, PartialEq, Eq, Structural)]
pub struct PatternBuilder {
    /// Time between consecutive shots, in milliseconds.
    pub time_int: Milli,
    /// Shots per burst.
    pub amount: u64,
    /// Sweep start expression; mandatory before `build`.
    pub start_angle: Option<Angle>,
    /// Sweep stop expression; mandatory before `build`.
    pub stop_angle: Option<Angle>,
    /// Shot speed, in thousandths of a unit per second.
    pub speed: Milli,
    /// Spawn-offset radius, in thousandths of a unit.
    pub radius: Milli,
    /// How many further bursts fire after the first.
    pub repeat: u64,
    /// Delay between burst starts, in milliseconds.
    pub repeat_delay: Milli,
    /// Wobble amplitude, in thousandths of a degree.
    pub wobble_angle: Milli,
    /// Wobble period, in milliseconds.
    pub wobble_time: Milli,
    /// Direction the wobble offset is applied in.
    pub wobble_dir: RotationDirection,
}

impl PatternBuilder {
    /// Bounds every builder keeps.
    pub open spec fn wf(self) -> bool {
        &&& 0 <= self.time_int <= MAG_LIMIT
        &&& 1 <= self.amount <= 1_000_000
        &&& 0 <= self.repeat <= 1_000_000
        &&& 0 <= self.repeat_delay <= MAG_LIMIT
        &&& 0 <= self.speed <= MAG_LIMIT
        &&& 0 <= self.radius <= MAG_LIMIT
        &&& -MAG_LIMIT <= self.wobble_angle <= MAG_LIMIT
        &&& 1 <= self.wobble_time <= MAG_LIMIT
        &&& (self.start_angle matches Some(a) ==> a.wf())
        &&& (self.stop_angle matches Some(a) ==> a.wf())
    }

    /// A builder with no angles yet: one shot, everything immediate,
    /// no repeats, no wobble.
    pub fn new() -> (r: PatternBuilder)
        ensures
            r == (PatternBuilder {
                time_int: 0i64,
                amount: 1u64,
                start_angle: None::<Angle>,
                stop_angle: None::<Angle>,
                speed: 0i64,
                radius: 0i64,
                repeat: 0u64,
                repeat_delay: 0i64,
                wobble_angle: 0i64,
                wobble_time: 1000i64,
                wobble_dir: RotationDirection::CounterClockwise,
            }),
            r.wf(),
    {
        PatternBuilder {
            time_int: 0,
            amount: 1,
            start_angle: None,
            stop_angle: None,
            speed: 0,
            radius: 0,
            repeat: 0,
            repeat_delay: 0,
            wobble_angle: 0,
            wobble_time: 1000,
            wobble_dir: RotationDirection::CounterClockwise,
        }
    }

    /// Set the sweep start expression.
    pub fn start_angle(self, angle: Angle) -> (r: PatternBuilder)
        ensures
            r == (PatternBuilder { start_angle: Some(angle), ..self }),
    {
        PatternBuilder { start_angle: Some(angle), ..self }
    }

    /// Set the sweep stop expression.
    pub fn stop_angle(self, angle: Angle) -> (r: PatternBuilder)
        ensures
            r == (PatternBuilder { stop_angle: Some(angle), ..self }),
    {
        PatternBuilder { stop_angle: Some(angle), ..self }
    }

    /// Aim every shot at one angle: start and stop coincide.
    pub fn fixed_angle(self, angle: Angle) -> (r: PatternBuilder)
        ensures
            r == (PatternBuilder { start_angle: Some(angle), stop_angle: Some(angle), ..self }),
    {
        self.start_angle(angle).stop_angle(angle)
    }

    /// Set the spawn-offset radius.
    pub fn radius(self, radius: Milli) -> (r: PatternBuilder)
        ensures
            r == (PatternBuilder { radius, ..self }),
    {
        PatternBuilder { radius, ..self }
    }

    /// Set the time between consecutive shots.
    pub fn time_int(self, time_int: Milli) -> (r: PatternBuilder)
        ensures
            r == (PatternBuilder { time_int, ..self }),
    {
        PatternBuilder { time_int, ..self }
    }

    /// Set the number of shots per burst.
    pub fn amount(self, amount: u64) -> (r: PatternBuilder)
        ensures
            r == (PatternBuilder { amount, ..self }),
    {
        PatternBuilder { amount, ..self }
    }

    /// Set the shot speed.
    pub fn speed(self, speed: Milli) -> (r: PatternBuilder)
        ensures
            r == (PatternBuilder { speed, ..self }),
    {
        PatternBuilder { speed, ..self }
    }

    /// Set how many further bursts fire after the first.
    pub fn repeat(self, repeat: u64) -> (r: PatternBuilder)
        ensures
            r == (PatternBuilder { repeat, ..self }),
    {
        PatternBuilder { repeat, ..self }
    }

    /// Set the delay between burst starts.
    pub fn repeat_delay(self, delay: Milli) -> (r: PatternBuilder)
        ensures
            r == (PatternBuilder { repeat_delay: delay, ..self }),
    {
        PatternBuilder { repeat_delay: delay, ..self }
    }

    /// Set the wobble: amplitude, period and direction.
    pub fn wobble(self, angle: Milli, delay: Milli, direction: RotationDirection) -> (r:
        PatternBuilder)
        ensures
            r == (PatternBuilder {
                wobble_angle: angle,
                wobble_time: delay,
                wobble_dir: direction,
                ..self
            }),
    {
        PatternBuilder { wobble_angle: angle, wobble_time: delay, wobble_dir: direction, ..self }
    }

    /// Reflect the pattern across the y axis: both sweep endpoints are
    /// mirrored.
    pub fn mirror_x(&self) -> (r: PatternBuilder)
        requires
            self.wf(),
            self.start_angle is Some,
            self.stop_angle is Some,
        ensures
            r == (PatternBuilder {
                start_angle: Some(self.start_angle.unwrap().mirrored_x()),
                stop_angle: Some(self.stop_angle.unwrap().mirrored_x()),
                ..*self
            }),
            r.wf(),
    {
        let mut pattern = *self;
        let sa = match self.start_angle {
            Some(a) => a,
            None => Angle::Fixed(0),
        };
        let so = match self.stop_angle {
            Some(a) => a,
            None => Angle::Fixed(0),
        };
        pattern.start_angle = Some(sa.mirror_x());
        pattern.stop_angle = Some(so.mirror_x());
        pattern
    }

    /// Reflect the pattern across the x axis: the sweep endpoints are
    /// mirrored and exchanged, so the sweep runs the same way round.
    pub fn mirror_y(&self) -> (r: PatternBuilder)
        requires
            self.wf(),
            self.start_angle is Some,
            self.stop_angle is Some,
        ensures
            r == (PatternBuilder {
                start_angle: Some(self.stop_angle.unwrap().mirrored_y()),
                stop_angle: Some(self.start_angle.unwrap().mirrored_y()),
                ..*self
            }),
            r.wf(),
    {
        let mut pattern = *self;
        let sa = match self.start_angle {
            Some(a) => a,
            None => Angle::Fixed(0),
        };
        let so = match self.stop_angle {
            Some(a) => a,
            None => Angle::Fixed(0),
        };
        pattern.stop_angle = Some(sa.mirror_y());
        pattern.start_angle = Some(so.mirror_y());
        pattern
    }

    /// Build the pattern: resolve both sweep endpoints against the
    /// emitter's and the tracked target's positions, and start the first
    /// burst with the full shot count. Both endpoints must have been
    /// set; a builder missing one is a construction-time error.
    pub fn build(self, cur_pos: Vec2, player: Vec2) -> (r: Pattern)
        requires
            self.wf(),
            self.start_angle is Some,
            self.stop_angle is Some,
            cur_pos.wf(),
            player.wf(),
        ensures
            r.wf(),
            r.model() == built_model(self, cur_pos, player),
            r.start_angle == self.start_angle.unwrap().resolved(cur_pos, player),
            r.stop_angle == self.stop_angle.unwrap().resolved(cur_pos, player),
            r.actual_start == self.start_angle.unwrap(),
            r.actual_stop == self.stop_angle.unwrap(),
            r.amount == self.amount,
            r.time_int == self.time_int,
            r.speed == self.speed,
            r.radius == self.radius,
            r.repeat == self.repeat,
            r.repeat_delay == self.repeat_delay,
            r.wobble_angle == self.wobble_angle,
            r.wobble_time == self.wobble_time,
            r.wobble_dir == self.wobble_dir,
            r.rep_time == 0,
            r.cur_wobble_time == 0,
            !r.tracking,
            r.active_patterns@ =~= seq![
                PatternState {
                    cur_angle: (self.start_angle.unwrap().resolved(cur_pos, player)) as i64,
                    amount_left: self.amount,
                    int_time: 0i64,
                    wobble_angle: 0i64,
                },
            ],
            model_pending(r.model()) == self.repeat * self.amount + self.amount,
    {
        let sa_expr = match self.start_angle {
            Some(a) => a,
            None => Angle::Fixed(0),
        };
        let so_expr = match self.stop_angle {
            Some(a) => a,
            None => Angle::Fixed(0),
        };
        let sa = sa_expr.eval(cur_pos, player);
        let so = so_expr.eval(cur_pos, player);
        let first = PatternState { cur_angle: sa, amount_left: self.amount, int_time: 0, wobble_angle: 0 };
        let mut states: Vec<PatternState> = Vec::new();
        states.push(first);
        let r = Pattern {
            time_int: self.time_int,
            tracking: false,
            track_cur: Vec2 { x: 0, y: 0 },
            track_player: Vec2 { x: 0, y: 0 },
            repeat: self.repeat,
            repeat_delay: self.repeat_delay,
            amount: self.amount,
            actual_start: sa_expr,
            actual_stop: so_expr,
            start_angle: sa,
            stop_angle: so,
            speed: self.speed,
            radius: self.radius,
            rep_time: 0,
            active_patterns: states,
            wobble_angle: self.wobble_angle,
            wobble_time: self.wobble_time,
            cur_wobble_time: 0,
            wobble_dir: self.wobble_dir,
        };
        proof {
            assert(r.model() =~= built_model(self, cur_pos, player));
            assert(states_pending(r.active_patterns@) == self.amount) by {
                assert(r.active_patterns@.drop_first() =~= Seq::<PatternState>::empty());
                assert(states_pending(Seq::<PatternState>::empty()) == 0);
                assert(r.active_patterns@.first() == (PatternState {
                    cur_angle: sa,
                    amount_left: self.amount,
                    int_time: 0i64,
                    wobble_angle: 0i64,
                }));
            }
        }
        r
    }
}

} // verus!
