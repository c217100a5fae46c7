//! The closed set of entity kinds and their event handling: the player,
//! the player's bullets, enemies, enemy bullets, the screen boundary
//! volume, and the level sequencer. Dispatch is a compile-time-checked
//! match over the kinds; every handler works through the explicit
//! service context instead of shared handles.

use vstd::prelude::*;

use crate::action::{ActionType, Behavior, Bullet as BulletInfo};
use crate::events::{Event, InputState, KeyCode, SysEvent};
use crate::geom::Vec2;
use crate::level::{CreateRequest, Level};
use crate::motion::{sat_at, PGComp};
use crate::num::{Milli, MAG_LIMIT};
use crate::path::{built_path_model, path_model_advanced, Path, PathBuilder, PathModel, PathType};
use crate::pattern::{advanced_model, built_tracking_model, model_finished, Pattern, PatternModel, Shot, TICK_LIMIT};
use crate::spawn::{paths_wf, Enemy as EnemyInfo};
use crate::timers::{timer_deliveries, timers_after, remove_first_timer, EventComp, Timer};

verus! {

broadcast use vstd::seq_lib::group_seq_properties;

/// Key codes the simulation reads, as scan-code style numbers.
pub const KEY_UP: KeyCode = 1;

pub const KEY_DOWN: KeyCode = 2;

pub const KEY_LEFT: KeyCode = 3;

pub const KEY_RIGHT: KeyCode = 4;

pub const KEY_SHIFT: KeyCode = 5;

pub const KEY_SHOOT: KeyCode = 6;

/// The explicit simulation context every entity operation works
/// through: the event bus, the spatial world, the identity registry,
/// the last known player position, and the screen half-size.
pub struct Services {
    /// The event bus.
    pub handler: crate::events::Handler<CreateRequest>,
    /// The spatial world.
    pub physics: crate::physics::SpatialWorld,
    /// The identity registry of the entity world.
    pub registry: crate::registry::Registry,
    /// Last known position of the player, kept fresh by the player's
    /// own update; read by trackers even after the player is gone.
    pub player_pos: Vec2,
    /// Half size of the screen, in thousandths of a unit.
    pub scaler: Milli,
}

impl Services {
    /// Every component of the context is well formed.
    pub open spec fn wf(self) -> bool {
        &&& self.handler.wf()
        &&& self.physics.wf()
        &&& self.registry.wf()
        &&& self.player_pos.wf()
        &&& 0 <= self.scaler <= MAG_LIMIT
    }
}

/// Player speed change per key press, in thousandths of a unit per
/// second.
pub const PLAYER_SPEED: i64 = 100_000;


/// A position held within the world's magnitude bound, coordinatewise.
pub open spec fn world_clamped(p: Vec2) -> Vec2 {
    Vec2 {
        x: sat_at(p.x as int, MAG_LIMIT as int) as i64,
        y: sat_at(p.y as int, MAG_LIMIT as int) as i64,
    }
}

/// The steering change a key transition asks for: an arrow key adds the
/// player speed along its axis when pressed and takes it back when
/// released.
pub open spec fn key_delta(pressed: bool, key: KeyCode) -> Option<(int, int)> {
    let s: int = if pressed {
        1
    } else {
        -1
    };
    if key == KEY_UP {
        Some((0int, s * PLAYER_SPEED))
    } else if key == KEY_DOWN {
        Some((0int, -s * PLAYER_SPEED))
    } else if key == KEY_LEFT {
        Some((-s * PLAYER_SPEED, 0int))
    } else if key == KEY_RIGHT {
        Some((s * PLAYER_SPEED, 0int))
    } else {
        None
    }
}

/// The player's velocity after one steering nudge: the change, halved
/// under focus, added with saturation at the magnitude bound.
pub open spec fn nudged_velocity(p: Player, dx: int, dy: int) -> Vec2 {
    let ax = if p.slow {
        crate::num::div_trunc(dx, 2)
    } else {
        dx
    };
    let ay = if p.slow {
        crate::num::div_trunc(dy, 2)
    } else {
        dy
    };
    Vec2 {
        x: sat_at(p.pg.velocity.x + ax, MAG_LIMIT as int) as i64,
        y: sat_at(p.pg.velocity.y + ay, MAG_LIMIT as int) as i64,
    }
}

/// The creation request one emitted shot becomes: a bullet of the given
/// kind at the emitter's position plus the clamped offset, with the
/// clamped velocity.
pub open spec fn shot_request(b: BulletInfo, s: Shot, base: Vec2) -> SysEvent<CreateRequest> {
    SysEvent::Create(
        CreateRequest::Bullet(
            b,
            Vec2 {
                x: (base.x + world_clamped(s.offset).x) as i64,
                y: (base.y + world_clamped(s.offset).y) as i64,
            },
            world_clamped(s.velocity),
        ),
    )
}

/// The creation requests one burst of shots becomes, in shot order.
pub open spec fn shots_requests(b: BulletInfo, shots: Seq<Shot>, base: Vec2) -> Seq<
    SysEvent<CreateRequest>,
> {
    Seq::new(shots.len(), |k: int| shot_request(b, shots[k], base))
}

/// The creation requests one advance of a pattern list makes, pattern
/// by pattern in order; a tracking pattern first re-aims at the
/// emitter's and the player's current positions.
pub open spec fn patterns_requests(
    ps: Seq<(BulletInfo, PatternModel)>,
    dt: int,
    base: Vec2,
    player: Vec2,
) -> Seq<SysEvent<CreateRequest>>
    decreases ps.len(),
{
    if ps.len() == 0 {
        Seq::empty()
    } else {
        shots_requests(
            ps.first().0,
            advanced_model(crate::pattern::retracked(ps.first().1, base, player), dt).1,
            base,
        ) + patterns_requests(ps.drop_first(), dt, base, player)
    }
}

/// The pattern list after one advance: every pattern re-aimed when
/// tracking and advanced, the ones that emitted nothing and are finished
/// dropped, order kept.
pub open spec fn patterns_kept(
    ps: Seq<(BulletInfo, PatternModel)>,
    dt: int,
    base: Vec2,
    player: Vec2,
) -> Seq<(BulletInfo, PatternModel)>
    decreases ps.len(),
{
    if ps.len() == 0 {
        Seq::empty()
    } else {
        let adv = advanced_model(crate::pattern::retracked(ps.first().1, base, player), dt);
        let rest = patterns_kept(ps.drop_first(), dt, base, player);
        if adv.1.len() == 0 && model_finished(adv.0) {
            rest
        } else {
            seq![(ps.first().0, adv.0)] + rest
        }
    }
}

/// The models of a pattern list.
pub open spec fn pattern_models(ps: Seq<(BulletInfo, Pattern)>) -> Seq<(BulletInfo, PatternModel)> {
    ps.map_values(|p: (BulletInfo, Pattern)| (p.0, p.1.model()))
}

/// One delayed action folded into an enemy's bookkeeping: a delayed one
/// is parked behind a class-1 timer slot, an immediate bullet action
/// starts its pattern (tracking the given positions), an immediate idle
/// action does nothing.
pub open spec fn sched_step(
    acc: (Seq<ActionType>, Seq<Timer>, Seq<(BulletInfo, PatternModel)>),
    a: crate::action::Action,
    cur: Vec2,
    player: Vec2,
) -> (Seq<ActionType>, Seq<Timer>, Seq<(BulletInfo, PatternModel)>) {
    if a.delay > 0 {
        if acc.0.len() < usize::MAX {
            (
                acc.0.push(a.action_type),
                acc.1.push(
                    Timer {
                        id: acc.0.len() as u64,
                        class: 1u8,
                        repeat: false,
                        amount: a.delay,
                        left: a.delay,
                        event: Event::CTimer(1, acc.0.len() as u64),
                    },
                ),
                acc.2,
            )
        } else {
            acc
        }
    } else {
        match a.action_type {
            ActionType::Bullets(b, pb) => (
                acc.0,
                acc.1,
                acc.2.push((b, built_tracking_model(pb, cur, player))),
            ),
            ActionType::Idle => acc,
        }
    }
}

/// A whole action list folded into an enemy's bookkeeping, in order.
pub open spec fn scheduled(
    acc: (Seq<ActionType>, Seq<Timer>, Seq<(BulletInfo, PatternModel)>),
    acts: Seq<crate::action::Action>,
    cur: Vec2,
    player: Vec2,
) -> (Seq<ActionType>, Seq<Timer>, Seq<(BulletInfo, PatternModel)>)
    decreases acts.len(),
{
    if acts.len() == 0 {
        acc
    } else {
        scheduled(sched_step(acc, acts.first(), cur, player), acts.drop_first(), cur, player)
    }
}

/// Whether a path builder's geometry resolves inside the world bound at
/// these positions, so it can be built.
pub open spec fn resolvable_spec(pb: PathBuilder, cur: Vec2, player: Vec2) -> bool {
    &&& pb.speed is Some
    &&& match pb.path_type {
        PathType::Arc => pb.radius is Some && pb.degrees is Some && pb.center is Some
            && pb.center.unwrap().resolved(cur, player).wf(),
        PathType::Curve => pb.points is Some && (forall|i: int|
            0 <= i < pb.points.unwrap()@.len() ==> (#[trigger] pb.points.unwrap()@[i]).resolved(
                cur,
                player,
            ).wf()),
        PathType::Fixed => pb.time is Some,
    }
}

/// The player: movement driven by key events, a repeating shot timer.
pub struct Player {
    /// Identity of the player entity.
    pub id: u64,
    /// Kinematics, screen locked.
    pub pg: PGComp,
    /// Event facet holding the shot timer.
    pub ev: EventComp,
    /// Whether the focus key currently halves movement.
    pub slow: bool,
}

impl Player {
    /// Structural bounds of the player: sound kinematics and timers,
    /// both facets keyed by the entity's own identity.
    pub open spec fn wf(self) -> bool {
        self.pg.wf() && self.ev.wf() && self.ev.id == self.id && self.pg.id == self.id
    }

    /// React to one delivered event: arrow keys steer, the focus key
    /// halves speed, the shoot key runs a repeating shot timer, and an
    /// update tick integrates motion and publishes the new position.
    pub fn handle_event(&mut self, e: &Event, sv: &mut Services)
        requires
            old(self).wf(),
            old(sv).wf(),
            *e matches Event::Update(t) ==> 0 <= t <= TICK_LIMIT,
        ensures
            final(self).wf(),
            final(sv).wf(),
            final(self).id == old(self).id,
            final(sv).registry == old(sv).registry,
            final(sv).scaler == old(sv).scaler,
            final(sv).handler.subscriptions@ == old(sv).handler.subscriptions@,
            *e matches Event::Update(t) ==> ({
                let moved = old(self).pg.updated(t as int);
                &&& final(self).pg == moved
                &&& final(self).slow == old(self).slow
                &&& final(self).ev.timers@ =~= timers_after(old(self).ev.timers@, t as int)
                &&& final(sv).handler.queue@ =~= old(sv).handler.queue@ + timer_deliveries(
                    old(self).id,
                    old(self).ev.timers@,
                    t as int,
                )
                &&& final(sv).handler.sysqueue@ == old(sv).handler.sysqueue@
                &&& final(sv).physics.staged@ =~= old(sv).physics.staged@.push(
                    crate::physics::StagedOp::SetPos(old(self).id, moved.pos),
                )
                &&& final(sv).physics.objects@ == old(sv).physics.objects@
                &&& final(sv).player_pos == world_clamped(moved.pos)
            }),
            *e matches Event::KeyInput(st, key) ==> ({
                let pressed = st is Pressed;
                &&& (key_delta(pressed, key) matches Some(d) ==> *final(sv) == *old(sv)
                    && *final(self) == (Player {
                    pg: PGComp { velocity: nudged_velocity(*old(self), d.0, d.1), ..old(self).pg },
                    ..*old(self)
                }))
                &&& (pressed && key == KEY_SHIFT ==> *final(sv) == *old(sv) && final(self).slow
                    && (old(self).slow ==> *final(self) == *old(self)) && (!old(self).slow
                    ==> *final(self) == (Player {
                    slow: true,
                    pg: PGComp {
                        velocity: Vec2 {
                            x: crate::num::div_trunc(old(self).pg.velocity.x as int, 2) as i64,
                            y: crate::num::div_trunc(old(self).pg.velocity.y as int, 2) as i64,
                        },
                        ..old(self).pg
                    },
                    ..*old(self)
                })))
                &&& (!pressed && key == KEY_SHIFT ==> *final(sv) == *old(sv) && !final(self).slow
                    && (!old(self).slow ==> *final(self) == *old(self)) && (old(self).slow
                    ==> *final(self) == (Player {
                    slow: false,
                    pg: PGComp {
                        velocity: Vec2 {
                            x: sat_at(2 * old(self).pg.velocity.x, MAG_LIMIT as int) as i64,
                            y: sat_at(2 * old(self).pg.velocity.y, MAG_LIMIT as int) as i64,
                        },
                        ..old(self).pg
                    },
                    ..*old(self)
                })))
                &&& (pressed && key == KEY_SHOOT ==> final(sv).handler.sysqueue@ =~= old(
                    sv,
                ).handler.sysqueue@.push(
                    SysEvent::Create(CreateRequest::PlayerBullet(old(self).pg.pos)),
                ) && final(self).ev.timers@ =~= old(self).ev.timers@.push(
                    Timer {
                        id: 1u64,
                        class: 0u8,
                        repeat: true,
                        amount: 80i64,
                        left: 80i64,
                        event: Event::Timer(1),
                    },
                ) && final(self).pg == old(self).pg && final(self).slow == old(self).slow
                    && final(sv).handler.queue@ == old(sv).handler.queue@
                    && final(sv).physics == old(sv).physics
                    && final(sv).player_pos == old(sv).player_pos)
                &&& (!pressed && key == KEY_SHOOT ==> *final(sv) == *old(sv)
                    && final(self).ev.timers@ =~= remove_first_timer(old(self).ev.timers@, 1)
                    && final(self).pg
                    == old(self).pg && final(self).slow == old(self).slow)
                &&& (key_delta(pressed, key) is None && key != KEY_SHIFT && key != KEY_SHOOT
                    ==> *final(self) == *old(self) && *final(sv) == *old(sv))
            }),
            *e matches Event::Timer(n) ==> ({
                &&& (n == 1 ==> final(sv).handler.sysqueue@ =~= old(sv).handler.sysqueue@.push(
                    SysEvent::Create(CreateRequest::PlayerBullet(old(self).pg.pos)),
                ) && *final(self) == *old(self)
                    && final(sv).handler.queue@ == old(sv).handler.queue@
                    && final(sv).physics == old(sv).physics
                    && final(sv).player_pos == old(sv).player_pos)
                &&& (n != 1 ==> *final(self) == *old(self) && *final(sv) == *old(sv))
            }),
            !(*e is Update) && !(*e is KeyInput) && !(*e is Timer) ==> *final(self) == *old(self)
                && *final(sv) == *old(sv),
    {
        match *e {
            Event::Update(t) => {
                self.pg.update(t);
                self.ev.update(t, &mut sv.handler);
                self.pg.sync_pos(&mut sv.physics);
                sv.player_pos = clamp_world(self.pg.pos);
            },
            Event::KeyInput(InputState::Pressed, key) => {
                if key == KEY_UP {
                    self.nudge(0, PLAYER_SPEED);
                } else if key == KEY_DOWN {
                    self.nudge(0, -PLAYER_SPEED);
                } else if key == KEY_LEFT {
                    self.nudge(-PLAYER_SPEED, 0);
                } else if key == KEY_RIGHT {
                    self.nudge(PLAYER_SPEED, 0);
                } else if key == KEY_SHIFT {
                    if !self.slow {
                        self.slow = true;
                        let hx = crate::num::div_t(self.pg.velocity.x, 2);
                        let hy = crate::num::div_t(self.pg.velocity.y, 2);
                        self.pg.velocity = Vec2 { x: hx, y: hy };
                    }
                } else if key == KEY_SHOOT {
                    sv.handler.enqueue_sys(
                        crate::events::SysEvent::Create(CreateRequest::PlayerBullet(self.pg.pos)),
                    );
                    self.ev.set_repeating_timer(1, 80);
                }
            },
            Event::KeyInput(InputState::Released, key) => {
                if key == KEY_UP {
                    self.nudge(0, -PLAYER_SPEED);
                } else if key == KEY_DOWN {
                    self.nudge(0, PLAYER_SPEED);
                } else if key == KEY_LEFT {
                    self.nudge(PLAYER_SPEED, 0);
                } else if key == KEY_RIGHT {
                    self.nudge(-PLAYER_SPEED, 0);
                } else if key == KEY_SHIFT {
                    if self.slow {
                        self.slow = false;
                        let dx = sat_vel(2 * (self.pg.velocity.x as i128));
                        let dy = sat_vel(2 * (self.pg.velocity.y as i128));
                        self.pg.velocity = Vec2 { x: dx, y: dy };
                    }
                } else if key == KEY_SHOOT {
                    self.ev.remove_timer(1);
                }
            },
            Event::Timer(1) => {
                sv.handler.enqueue_sys(
                    crate::events::SysEvent::Create(CreateRequest::PlayerBullet(self.pg.pos)),
                );
            },
            _ => {},
        }
    }

    /// Add a bounded velocity change, halved while focused, saturating
    /// at the magnitude bound.
    fn nudge(&mut self, dx: Milli, dy: Milli)
        requires
            old(self).wf(),
            -PLAYER_SPEED <= dx <= PLAYER_SPEED,
            -PLAYER_SPEED <= dy <= PLAYER_SPEED,
        ensures
            final(self).wf(),
            *final(self) == (Player {
                pg: PGComp {
                    velocity: nudged_velocity(*old(self), dx as int, dy as int),
                    ..old(self).pg
                },
                ..*old(self)
            }),
    {
        let (ax, ay) = if self.slow {
            (crate::num::div_t(dx, 2), crate::num::div_t(dy, 2))
        } else {
            (dx, dy)
        };
        let vx = sat_vel((self.pg.velocity.x as i128) + (ax as i128));
        let vy = sat_vel((self.pg.velocity.y as i128) + (ay as i128));
        self.pg.velocity = Vec2 { x: vx, y: vy };
    }
}

/// A velocity component held within the magnitude bound.
fn sat_vel(v: i128) -> (r: Milli)
    requires
        -4 * (MAG_LIMIT as int) <= v <= 4 * (MAG_LIMIT as int),
    ensures
        r == sat_at(v as int, MAG_LIMIT as int),
        -MAG_LIMIT <= r <= MAG_LIMIT,
        -MAG_LIMIT <= v <= MAG_LIMIT ==> r == v,
{
    if v > MAG_LIMIT as i128 {
        MAG_LIMIT
    } else if v < -(MAG_LIMIT as i128) {
        -MAG_LIMIT
    } else {
        v as i64
    }
}

/// A position clamped into the world's magnitude bound.
fn clamp_world(p: Vec2) -> (r: Vec2)
    ensures
        r == world_clamped(p),
        r.wf(),
        p.wf() ==> r == p,
{
    let x = if p.x > MAG_LIMIT {
        MAG_LIMIT
    } else if p.x < -MAG_LIMIT {
        -MAG_LIMIT
    } else {
        p.x
    };
    let y = if p.y > MAG_LIMIT {
        MAG_LIMIT
    } else if p.y < -MAG_LIMIT {
        -MAG_LIMIT
    } else {
        p.y
    };
    Vec2 { x, y }
}

/// A bullet the player fired: flies straight up, despawns when it
/// leaves the screen boundary volume.
pub struct PlayerBullet {
    /// Identity of the bullet entity.
    pub id: u64,
    /// Kinematics.
    pub pg: PGComp,
    /// Event facet.
    pub ev: EventComp,
}

impl PlayerBullet {
    /// Structural bounds of a player bullet: sound kinematics and
    /// timers, both facets keyed by the entity's own identity.
    pub open spec fn wf(self) -> bool {
        self.pg.wf() && self.ev.wf() && self.ev.id == self.id && self.pg.id == self.id
    }

    /// React to one delivered event: update ticks integrate motion; a
    /// housekeeping timer and the screen boundary volume's proximity
    /// notice both despawn a bullet that left the screen.
    pub fn handle_event(&mut self, e: &Event, sv: &mut Services)
        requires
            old(self).wf(),
            old(sv).wf(),
            *e matches Event::Update(t) ==> 0 <= t <= TICK_LIMIT,
        ensures
            final(self).wf(),
            final(sv).wf(),
            final(self).id == old(self).id,
            final(sv).registry == old(sv).registry,
            final(sv).scaler == old(sv).scaler,
            final(sv).handler.subscriptions@ == old(sv).handler.subscriptions@,
            final(sv).player_pos == old(sv).player_pos,
            *e is Spawn ==> *final(sv) == *old(sv) && *final(self) == (PlayerBullet {
                ev: final(self).ev,
                ..*old(self)
            }) && final(self).ev.id == old(self).ev.id && final(self).ev.timers@ =~= old(
                self,
            ).ev.timers@.push(
                Timer {
                    id: 1u64,
                    class: 0u8,
                    repeat: true,
                    amount: 1000i64,
                    left: 1000i64,
                    event: Event::Timer(1),
                },
            ),
            *e matches Event::Timer(n) ==> ({
                let sc = old(self).pg.scaler;
                let off_screen = !(-sc <= old(self).pg.pos.x <= sc && -sc <= old(self).pg.pos.y
                    <= sc);
                &&& (n == 1 && off_screen ==> *final(self) == *old(self)
                    && final(sv).handler.sysqueue@ =~= old(sv).handler.sysqueue@.push(
                    SysEvent::Destroy(old(self).id),
                ) && final(sv).handler.queue@ == old(sv).handler.queue@
                    && final(sv).physics == old(sv).physics)
                &&& (!(n == 1 && off_screen) ==> *final(self) == *old(self)
                    && *final(sv) == *old(sv))
            }),
            *e matches Event::Update(t) ==> ({
                let moved = old(self).pg.updated(t as int);
                &&& final(self).pg == moved
                &&& final(self).ev.timers@ =~= timers_after(old(self).ev.timers@, t as int)
                &&& final(sv).handler.queue@ =~= old(sv).handler.queue@ + timer_deliveries(
                    old(self).id,
                    old(self).ev.timers@,
                    t as int,
                )
                &&& final(sv).handler.sysqueue@ == old(sv).handler.sysqueue@
                &&& final(sv).physics.staged@ =~= old(sv).physics.staged@.push(
                    crate::physics::StagedOp::SetPos(old(self).id, moved.pos),
                )
                &&& final(sv).physics.objects@ == old(sv).physics.objects@
            }),
            *e matches Event::Proximity(other, data) ==> ({
                let leaving = data.proximity is Disjoint && crate::registry::rev_alias_first(
                    old(sv).registry.rev_names@,
                    other,
                ) == Some("screen_area"@);
                &&& (leaving ==> *final(self) == *old(self) && final(sv).handler.sysqueue@
                    =~= old(sv).handler.sysqueue@.push(SysEvent::Destroy(old(self).id))
                    && final(sv).handler.queue@ == old(sv).handler.queue@
                    && final(sv).physics == old(sv).physics)
                &&& (!leaving ==> *final(self) == *old(self) && *final(sv) == *old(sv))
            }),
            !(*e is Spawn) && !(*e is Timer) && !(*e is Update) && !(*e is Proximity)
                ==> *final(self) == *old(self) && *final(sv) == *old(sv),
    {
        match *e {
            Event::Spawn => {
                self.ev.set_repeating_timer(1, 1000);
            },
            Event::Timer(1) => {
                if !self.pg.in_screen() {
                    self.ev.destroy_self(&mut sv.handler);
                }
            },
            Event::Update(t) => {
                self.pg.update(t);
                self.ev.update(t, &mut sv.handler);
                self.pg.sync_pos(&mut sv.physics);
            },
            Event::Proximity(other, data) => {
                if matches!(data.proximity, crate::events::ProximityState::Disjoint) {
                    let name = sv.registry.get_aliased_string(other);
                    if let Some(s) = name {
                        if s == "screen_area".to_owned() {
                            self.ev.destroy_self(&mut sv.handler);
                        }
                    }
                }
            },
            _ => {},
        }
    }
}

/// An enemy bullet: follows its behavior, despawns off screen or on
/// hitting the player.
pub struct Bullet {
    /// Identity of the bullet entity.
    pub id: u64,
    /// Kinematics.
    pub pg: PGComp,
    /// Event facet holding the housekeeping timers.
    pub ev: EventComp,
    /// Damage dealt on contact.
    pub damage: u64,
    /// Motion behavior; a deceleration counts its remaining time here.
    pub behavior: Behavior,
}

impl Bullet {
    /// Structural bounds of an enemy bullet: sound facets keyed by the
    /// entity's own identity, and a bounded behavior.
    pub open spec fn wf(self) -> bool {
        &&& self.pg.wf()
        &&& self.ev.wf()
        &&& self.ev.id == self.id
        &&& self.pg.id == self.id
        &&& match self.behavior {
            Behavior::Straight => true,
            Behavior::Deaccelerate(t, a) => -MAG_LIMIT <= t && 0 <= a <= MAG_LIMIT,
        }
    }

    /// React to one delivered event: on creation two housekeeping
    /// timers start; an off-screen check despawns the bullet; update
    /// ticks integrate motion and run any deceleration down; contact
    /// with the player despawns the bullet.
    pub fn handle_event(&mut self, e: &Event, sv: &mut Services)
        requires
            old(self).wf(),
            old(sv).wf(),
            *e matches Event::Update(t) ==> 0 <= t <= TICK_LIMIT,
        ensures
            final(self).wf(),
            final(sv).wf(),
            final(self).id == old(self).id,
            final(sv).registry == old(sv).registry,
            final(sv).scaler == old(sv).scaler,
            final(sv).handler.subscriptions@ == old(sv).handler.subscriptions@,
            final(sv).player_pos == old(sv).player_pos,
            *e is Spawn ==> *final(sv) == *old(sv) && *final(self) == (Bullet {
                ev: final(self).ev,
                ..*old(self)
            }) && final(self).ev.id == old(self).ev.id
                && final(self).ev.timers@ =~= old(self).ev.timers@.push(
                Timer {
                    id: 1u64,
                    class: 0u8,
                    repeat: true,
                    amount: 1000i64,
                    left: 1000i64,
                    event: Event::Timer(1),
                },
            ).push(
                Timer {
                    id: 2u64,
                    class: 0u8,
                    repeat: true,
                    amount: 300i64,
                    left: 300i64,
                    event: Event::Timer(2),
                },
            ),
            *e matches Event::Timer(n) ==> ({
                let sc = old(self).pg.scaler;
                let off_screen = !(-sc <= old(self).pg.pos.x <= sc && -sc <= old(self).pg.pos.y
                    <= sc);
                &&& (n == 1 && off_screen ==> *final(self) == *old(self)
                    && final(sv).handler.sysqueue@ =~= old(sv).handler.sysqueue@.push(
                    SysEvent::Destroy(old(self).id),
                ) && final(sv).handler.queue@ == old(sv).handler.queue@
                    && final(sv).physics == old(sv).physics)
                &&& (!(n == 1 && off_screen) ==> *final(self) == *old(self)
                    && *final(sv) == *old(sv))
            }),
            *e matches Event::Update(t) ==> ({
                let moved = old(self).pg.updated(t as int);
                &&& final(self).ev.timers@ =~= timers_after(old(self).ev.timers@, t as int)
                &&& final(sv).handler.queue@ =~= old(sv).handler.queue@ + timer_deliveries(
                    old(self).id,
                    old(self).ev.timers@,
                    t as int,
                )
                &&& final(sv).handler.sysqueue@ == old(sv).handler.sysqueue@
                &&& final(sv).physics.staged@ =~= old(sv).physics.staged@.push(
                    crate::physics::StagedOp::SetPos(old(self).id, moved.pos),
                )
                &&& final(sv).physics.objects@ == old(sv).physics.objects@
                &&& (old(self).behavior is Straight ==> final(self).pg == moved
                    && final(self).behavior is Straight)
                &&& (old(self).behavior matches Behavior::Deaccelerate(left, acc) ==> ({
                    let nl: int = if left >= -MAG_LIMIT + TICK_LIMIT {
                        left - t
                    } else {
                        -MAG_LIMIT as int
                    };
                    &&& final(self).behavior == Behavior::Deaccelerate(nl as i64, acc)
                    &&& (nl <= 0 ==> final(self).pg == (PGComp {
                        acceleration: Vec2 { x: 0i64, y: 0i64 },
                        ..moved
                    }))
                    &&& (nl > 0 ==> final(self).pg == moved)
                }))
            }),
            *e matches Event::Collision(other, _data) ==> ({
                let hit_player = crate::registry::rev_alias_first(
                    old(sv).registry.rev_names@,
                    other,
                ) == Some("player"@);
                &&& (hit_player ==> *final(self) == *old(self)
                    && final(sv).handler.sysqueue@ =~= old(sv).handler.sysqueue@.push(
                    SysEvent::Destroy(old(self).id),
                ) && final(sv).handler.queue@ == old(sv).handler.queue@
                    && final(sv).physics == old(sv).physics)
                &&& (!hit_player ==> *final(self) == *old(self) && *final(sv) == *old(sv))
            }),
            !(*e is Spawn) && !(*e is Timer) && !(*e is Update) && !(*e is Collision)
                ==> *final(self) == *old(self) && *final(sv) == *old(sv),
    {
        match *e {
            Event::Spawn => {
                self.ev.set_repeating_timer(1, 1000);
                self.ev.set_repeating_timer(2, 300);
            },
            Event::Timer(1) => {
                if !self.pg.in_screen() {
                    self.ev.destroy_self(&mut sv.handler);
                }
            },
            Event::Update(t) => {
                self.ev.update(t, &mut sv.handler);
                self.pg.update(t);
                self.pg.sync_pos(&mut sv.physics);
                match self.behavior {
                    Behavior::Deaccelerate(left, acc) => {
                        let nl = if left >= -MAG_LIMIT + TICK_LIMIT {
                            left - t
                        } else {
                            -MAG_LIMIT
                        };
                        self.behavior = Behavior::Deaccelerate(nl, acc);
                        if nl <= 0 {
                            self.pg.acceleration = Vec2 { x: 0, y: 0 };
                        }
                    },
                    Behavior::Straight => {},
                }
            },
            Event::Collision(other, _) => {
                let name = sv.registry.get_aliased_string(other);
                if let Some(s) = name {
                    if s == "player".to_owned() {
                        self.ev.destroy_self(&mut sv.handler);
                    }
                }
            },
            _ => {},
        }
    }
}

/// An enemy: walks its paths, schedules the actions each path carries,
/// and emits bullets from its active patterns.
pub struct Enemy {
    /// Identity of the enemy entity.
    pub id: u64,
    /// Hit points.
    pub health: u64,
    /// Damage dealt on contact.
    pub damage: u64,
    /// Paths still to walk, last first so the next pops off the back.
    pub paths: Vec<PathBuilder>,
    /// The path currently walked.
    pub cpath: Path,
    /// Actions waiting on their delay timers, indexed by timer id.
    pub actions: Vec<ActionType>,
    /// Bullet patterns currently emitting.
    pub patterns: Vec<(BulletInfo, Pattern)>,
    /// Kinematics.
    pub pg: PGComp,
    /// Event facet holding the action timers.
    pub ev: EventComp,
}

impl Enemy {
    /// Structural bounds of an enemy: sound facets keyed by the entity's
    /// own identity, and well-formed paths, actions and patterns.
    pub open spec fn wf(self) -> bool {
        &&& self.pg.wf()
        &&& self.ev.wf()
        &&& self.ev.id == self.id
        &&& self.pg.id == self.id
        &&& self.cpath.wf()
        &&& paths_wf(self.paths@)
        &&& (forall|i: int| 0 <= i < self.actions@.len() ==> (#[trigger] self.actions@[i]).wf())
        &&& (forall|i: int|
            0 <= i < self.patterns@.len() ==> (#[trigger] self.patterns@[i]).1.wf()
                && self.patterns@[i].0.wf())
    }

    /// Start one delayed action now: a bullet action builds its pattern
    /// against the enemy's and the player's current positions and starts
    /// emitting, tracking both positions.
    pub fn handle_action(&mut self, a: ActionType, sv: &Services)
        requires
            old(self).wf(),
            sv.wf(),
            a.wf(),
        ensures
            final(self).wf(),
            final(self).id == old(self).id,
            a is Idle ==> *final(self) == *old(self),
            a matches ActionType::Bullets(b, pb) ==> pattern_models(final(self).patterns@)
                =~= pattern_models(old(self).patterns@).push(
                (b, built_tracking_model(pb, world_clamped(old(self).pg.pos), sv.player_pos)),
            ),
            *final(self) == (Enemy { patterns: final(self).patterns, ..*old(self) }),
    {
        match a {
            ActionType::Bullets(binfo, pb) => {
                let cur = clamp_world(self.pg.pos);
                let mut pattern = pb.build(cur, sv.player_pos);
                pattern.set_pos_fetcher(cur, sv.player_pos);
                self.patterns.push((binfo, pattern));
                proof {
                    assert forall|i: int|
                        0 <= i < self.patterns@.len() implies (
                    #[trigger] self.patterns@[i]).1.wf() && self.patterns@[i].0.wf() by {}
                    assert(pattern_models(self.patterns@) =~= pattern_models(
                        old(self).patterns@,
                    ).push(
                        (
                            binfo,
                            crate::pattern::built_tracking_model(
                                pb,
                                world_clamped(old(self).pg.pos),
                                sv.player_pos,
                            ),
                        ),
                    )) by {
                        assert(pattern.model() =~= crate::pattern::built_tracking_model(
                            pb,
                            world_clamped(old(self).pg.pos),
                            sv.player_pos,
                        ));
                    }
                }
            },
            ActionType::Idle => {},
        }
    }

    /// React to one delivered event: update ticks walk the current
    /// path (moving to the next path, scheduling its actions, or
    /// despawning when none are left) and advance every bullet pattern;
    /// a class-1 timer fires its delayed action; contact with the
    /// player despawns the enemy.
    #[verifier::loop_isolation(false)]
    pub fn handle_event(&mut self, e: &Event, sv: &mut Services)
        requires
            old(self).wf(),
            old(sv).wf(),
            *e matches Event::Update(t) ==> 0 <= t <= TICK_LIMIT,
        ensures
            final(self).wf(),
            final(sv).wf(),
            final(self).id == old(self).id,
            final(sv).registry == old(sv).registry,
            final(sv).scaler == old(sv).scaler,
            final(sv).handler.subscriptions@ == old(sv).handler.subscriptions@,
            final(sv).player_pos == old(sv).player_pos,
            final(self).health == old(self).health,
            final(self).damage == old(self).damage,
            *e matches Event::Update(t) ==> ({
                let moved = old(self).pg.updated(t as int);
                let adv = path_model_advanced(old(self).cpath.model(), t as int);
                let models0 = pattern_models(old(self).patterns@);
                &&& final(sv).handler.queue@ =~= old(sv).handler.queue@ + timer_deliveries(
                    old(self).id,
                    old(self).ev.timers@,
                    t as int,
                )
                &&& (adv.1 matches Some(p) ==> ({
                    let landed = Vec2 {
                        x: sat_at(p.x as int, crate::physics::WORLD_LIMIT as int) as i64,
                        y: sat_at(p.y as int, crate::physics::WORLD_LIMIT as int) as i64,
                    };
                    &&& final(self).cpath.model() == adv.0
                    &&& final(self).pg == (PGComp { pos: landed, ..moved })
                    &&& final(self).paths@ == old(self).paths@
                    &&& final(self).actions@ == old(self).actions@
                    &&& final(self).ev.timers@ =~= timers_after(old(self).ev.timers@, t as int)
                    &&& final(sv).physics.staged@ =~= old(sv).physics.staged@.push(
                        crate::physics::StagedOp::SetPos(old(self).id, landed),
                    )
                    &&& final(sv).physics.objects@ == old(sv).physics.objects@
                    &&& pattern_models(final(self).patterns@) =~= patterns_kept(
                        models0,
                        t as int,
                        world_clamped(landed),
                        old(sv).player_pos,
                    )
                    &&& final(sv).handler.sysqueue@ =~= old(sv).handler.sysqueue@
                        + patterns_requests(
                        models0,
                        t as int,
                        world_clamped(landed),
                        old(sv).player_pos,
                    )
                }))
                &&& (adv.1 is None && old(self).paths@.len() == 0 ==> ({
                    &&& final(self).cpath.model() == adv.0
                    &&& final(self).pg == moved
                    &&& final(self).paths@ == old(self).paths@
                    &&& final(self).actions@ == old(self).actions@
                    &&& final(self).ev.timers@ =~= timers_after(old(self).ev.timers@, t as int)
                    &&& final(sv).physics == old(sv).physics
                    &&& pattern_models(final(self).patterns@) =~= patterns_kept(
                        models0,
                        t as int,
                        world_clamped(moved.pos),
                        old(sv).player_pos,
                    )
                    &&& final(sv).handler.sysqueue@ =~= old(sv).handler.sysqueue@.push(
                        SysEvent::Destroy(old(self).id),
                    ) + patterns_requests(
                        models0,
                        t as int,
                        world_clamped(moved.pos),
                        old(sv).player_pos,
                    )
                }))
                &&& (adv.1 is None && old(self).paths@.len() > 0 ==> ({
                    let pb = old(self).paths@.last();
                    let cur = world_clamped(moved.pos);
                    &&& final(self).pg == moved
                    &&& final(self).paths@ == old(self).paths@.drop_last()
                    &&& final(sv).physics == old(sv).physics
                    &&& (resolvable_spec(pb, cur, old(sv).player_pos) ==> ({
                        let out = scheduled(
                            (
                                old(self).actions@,
                                timers_after(old(self).ev.timers@, t as int),
                                models0,
                            ),
                            pb.actions@,
                            cur,
                            old(sv).player_pos,
                        );
                        &&& final(self).cpath.model() == built_path_model(
                            pb,
                            cur,
                            old(sv).player_pos,
                        )
                        &&& final(self).cpath.actions_spec() =~= Seq::<
                            crate::action::Action,
                        >::empty()
                        &&& final(self).actions@ =~= out.0
                        &&& final(self).ev.timers@ =~= out.1
                        &&& pattern_models(final(self).patterns@) =~= patterns_kept(
                            out.2,
                            t as int,
                            cur,
                            old(sv).player_pos,
                        )
                        &&& final(sv).handler.sysqueue@ =~= old(sv).handler.sysqueue@
                            + patterns_requests(out.2, t as int, cur, old(sv).player_pos)
                    }))
                    &&& (!resolvable_spec(pb, cur, old(sv).player_pos) ==> ({
                        &&& final(self).cpath.model() == adv.0
                        &&& final(self).actions@ == old(self).actions@
                        &&& final(self).ev.timers@ =~= timers_after(
                            old(self).ev.timers@,
                            t as int,
                        )
                        &&& pattern_models(final(self).patterns@) =~= patterns_kept(
                            models0,
                            t as int,
                            cur,
                            old(sv).player_pos,
                        )
                        &&& final(sv).handler.sysqueue@ =~= old(sv).handler.sysqueue@.push(
                            SysEvent::Destroy(old(self).id),
                        ) + patterns_requests(models0, t as int, cur, old(sv).player_pos)
                    }))
                }))
            }),
            *e matches Event::CTimer(c, i) ==> ({
                &&& (c == 1 && i < old(self).actions@.len() ==> ({
                    &&& final(self).actions@ =~= old(self).actions@.update(
                        i as int,
                        ActionType::Idle,
                    )
                    &&& (old(self).actions@[i as int] matches ActionType::Bullets(b, pb)
                        ==> pattern_models(final(self).patterns@) =~= pattern_models(
                        old(self).patterns@,
                    ).push(
                        (
                            b,
                            built_tracking_model(
                                pb,
                                world_clamped(old(self).pg.pos),
                                old(sv).player_pos,
                            ),
                        ),
                    ))
                    &&& (old(self).actions@[i as int] is Idle ==> final(self).patterns@ == old(
                        self,
                    ).patterns@)
                    &&& *final(sv) == *old(sv)
                    &&& final(self).pg == old(self).pg
                    &&& final(self).ev == old(self).ev
                    &&& final(self).paths@ == old(self).paths@
                    &&& final(self).cpath == old(self).cpath
                }))
                &&& (!(c == 1 && i < old(self).actions@.len()) ==> *final(self) == *old(self)
                    && *final(sv) == *old(sv))
            }),
            *e matches Event::Collision(other, _data) ==> ({
                let hit_player = crate::registry::rev_alias_first(
                    old(sv).registry.rev_names@,
                    other,
                ) == Some("player"@);
                &&& (hit_player ==> *final(self) == *old(self)
                    && final(sv).handler.sysqueue@ =~= old(sv).handler.sysqueue@.push(
                    SysEvent::Destroy(old(self).id),
                ) && final(sv).handler.queue@ == old(sv).handler.queue@
                    && final(sv).physics == old(sv).physics)
                &&& (!hit_player ==> *final(self) == *old(self) && *final(sv) == *old(sv))
            }),
            !(*e is Update) && !(*e is CTimer) && !(*e is Collision) ==> *final(self) == *old(self)
                && *final(sv) == *old(sv),
    {
        match *e {
            Event::Update(t) => {
                self.ev.update(t, &mut sv.handler);
                self.pg.update(t);
                let moved = self.cpath.travel(t);
                match moved {
                    Some(p) => {
                        self.pg.set_pos(p);
                        self.pg.sync_pos(&mut sv.physics);
                    },
                    None => {
                        let next = self.paths.pop();
                        match next {
                            Some(pb) => {
                                proof {
                                    assert(old(self).paths@.last().wf());
                                    assert(old(self).paths@.last().path_type is Arc ==> old(
                                        self,
                                    ).paths@.last().center is Some && old(
                                        self,
                                    ).paths@.last().direction is Some);
                                    assert(old(self).paths@.last().path_type is Curve ==> old(
                                        self,
                                    ).paths@.last().points is Some);
                                }
                                let cur = clamp_world(self.pg.pos);
                                if builder_resolvable(&pb, cur, sv.player_pos) {
                                    let mut path = pb.build(cur, sv.player_pos);
                                    let acts = path.actions();
                                    self.cpath = path;
                                    self.schedule_actions(acts, sv);
                                } else {
                                    self.ev.destroy_self(&mut sv.handler);
                                }
                            },
                            None => {
                                self.ev.destroy_self(&mut sv.handler);
                            },
                        }
                    },
                }
                self.advance_patterns(t, sv);
            },
            Event::CTimer(1, i) => {
                if i < self.actions.len() as u64 {
                    let idx = i as usize;
                    let mut taken = ActionType::Idle;
                    core::mem::swap(&mut taken, &mut self.actions[idx]);
                    proof {
                        assert forall|j: int|
                            0 <= j < self.actions@.len() implies (
                        #[trigger] self.actions@[j]).wf() by {
                            if j != idx {
                                assert(self.actions@[j] == old(self).actions@[j]);
                            }
                        }
                        assert(old(self).actions@[idx as int].wf());
                    }
                    let sv_read = &*sv;
                    self.handle_action(taken, sv_read);
                }
            },
            Event::Collision(other, _) => {
                let name = sv.registry.get_aliased_string(other);
                if let Some(s) = name {
                    if s == "player".to_owned() {
                        self.ev.destroy_self(&mut sv.handler);
                    }
                }
            },
            _ => {},
        }
    }

    /// Park a path's actions behind their delay timers (class 1), or
    /// start immediate ones now.
    #[verifier::loop_isolation(false)]
    pub fn schedule_actions(&mut self, acts: Vec<crate::action::Action>, sv: &Services)
        requires
            old(self).wf(),
            sv.wf(),
            forall|i: int| 0 <= i < acts@.len() ==> (#[trigger] acts@[i]).wf(),
        ensures
            final(self).wf(),
            final(self).id == old(self).id,
            ({
                let out = scheduled(
                    (old(self).actions@, old(self).ev.timers@, pattern_models(old(self).patterns@)),
                    acts@,
                    world_clamped(old(self).pg.pos),
                    sv.player_pos,
                );
                &&& final(self).actions@ =~= out.0
                &&& final(self).ev.timers@ =~= out.1
                &&& pattern_models(final(self).patterns@) =~= out.2
            }),
            final(self).ev.id == old(self).ev.id,
            final(self).pg == old(self).pg,
            final(self).paths@ == old(self).paths@,
            final(self).cpath == old(self).cpath,
            final(self).health == old(self).health,
            final(self).damage == old(self).damage,
    {
        let ghost init = (
            old(self).actions@,
            old(self).ev.timers@,
            pattern_models(old(self).patterns@),
        );
        let ghost cur = world_clamped(old(self).pg.pos);
        let n = acts.len();
        let mut k: usize = 0;
        while k < n
            invariant
                k <= n == acts@.len(),
                self.wf(),
                self.id == old(self).id,
                self.ev.id == old(self).ev.id,
                self.pg == old(self).pg,
                self.paths@ == old(self).paths@,
                self.cpath == old(self).cpath,
                self.health == old(self).health,
                self.damage == old(self).damage,
                forall|i: int| 0 <= i < acts@.len() ==> (#[trigger] acts@[i]).wf(),
                scheduled(init, acts@, cur, sv.player_pos) == scheduled(
                    (self.actions@, self.ev.timers@, pattern_models(self.patterns@)),
                    acts@.skip(k as int),
                    cur,
                    sv.player_pos,
                ),
            decreases n - k,
        {
            proof {
                assert(acts@.skip(k as int).first() == acts@[k as int]);
                assert(acts@.skip(k as int).drop_first() =~= acts@.skip(k as int + 1));
            }
            let ghost pre = (self.actions@, self.ev.timers@, pattern_models(self.patterns@));
            let a = &acts[k];
            if a.delay > 0 {
                if self.actions.len() < usize::MAX {
                    let slot = self.actions.len() as u64;
                    self.actions.push(a.action_type);
                    proof {
                        assert forall|j: int|
                            0 <= j < self.actions@.len() implies (
                        #[trigger] self.actions@[j]).wf() by {}
                    }
                    self.ev.set_timer_with_class(slot, a.delay, 1);
                }
            } else {
                let at = a.action_type;
                self.handle_action(at, sv);
            }
            proof {
                assert((self.actions@, self.ev.timers@, pattern_models(self.patterns@))
                    =~= sched_step(pre, acts@[k as int], cur, sv.player_pos));
            }
            k = k + 1;
        }
        proof {
            assert(acts@.skip(n as int) =~= Seq::<crate::action::Action>::empty());
        }
    }

    /// Re-aim every tracking pattern at the enemy's and the player's
    /// current positions, advance every pattern, and turn each emitted
    /// shot into a bullet creation request; spent patterns are dropped.
    #[verifier::loop_isolation(false)]
    fn advance_patterns(&mut self, t: Milli, sv: &mut Services)
        requires
            old(self).wf(),
            old(sv).wf(),
            0 <= t <= TICK_LIMIT,
        ensures
            final(self).wf(),
            final(sv).wf(),
            final(self).id == old(self).id,
            pattern_models(final(self).patterns@) =~= patterns_kept(
                pattern_models(old(self).patterns@),
                t as int,
                world_clamped(old(self).pg.pos),
                old(sv).player_pos,
            ),
            final(sv).handler.sysqueue@ =~= old(sv).handler.sysqueue@ + patterns_requests(
                pattern_models(old(self).patterns@),
                t as int,
                world_clamped(old(self).pg.pos),
                old(sv).player_pos,
            ),
            final(sv).handler.queue@ == old(sv).handler.queue@,
            final(sv).handler.subscriptions@ == old(sv).handler.subscriptions@,
            final(sv).physics == old(sv).physics,
            final(sv).registry == old(sv).registry,
            final(sv).player_pos == old(sv).player_pos,
            final(sv).scaler == old(sv).scaler,
            *final(self) == (Enemy { patterns: final(self).patterns, ..*old(self) }),
    {
        let ghost all = pattern_models(old(self).patterns@);
        let ghost base_s = world_clamped(old(self).pg.pos);
        let ghost player_s = old(sv).player_pos;
        let mut olds: Vec<(BulletInfo, Pattern)> = Vec::new();
        core::mem::swap(&mut olds, &mut self.patterns);
        let mut kept: Vec<(BulletInfo, Pattern)> = Vec::new();
        proof {
            assert(pattern_models(kept@) + patterns_kept(
                pattern_models(olds@),
                t as int,
                base_s,
                player_s,
            ) =~= patterns_kept(all, t as int, base_s, player_s)) by {
                assert(pattern_models(kept@) =~= Seq::<(BulletInfo, PatternModel)>::empty());
                assert(pattern_models(olds@) =~= all);
            }
            assert(sv.handler.sysqueue@ + patterns_requests(
                pattern_models(olds@),
                t as int,
                base_s,
                player_s,
            ) =~= old(sv).handler.sysqueue@ + patterns_requests(all, t as int, base_s, player_s))
                by {
                assert(pattern_models(olds@) =~= all);
            }
        }
        while olds.len() > 0
            invariant
                self.wf(),
                sv.wf(),
                self.id == old(self).id,
                self.pg == old(self).pg,
                self.patterns@.len() == 0,
                *self == (Enemy { patterns: self.patterns, ..*old(self) }),
                sv.handler.queue@ == old(sv).handler.queue@,
                sv.handler.subscriptions@ == old(sv).handler.subscriptions@,
                sv.physics == old(sv).physics,
                sv.registry == old(sv).registry,
                sv.player_pos == old(sv).player_pos,
                sv.scaler == old(sv).scaler,
                0 <= t <= TICK_LIMIT,
                forall|j: int|
                    0 <= j < olds@.len() ==> (#[trigger] olds@[j]).1.wf() && olds@[j].0.wf(),
                forall|j: int|
                    0 <= j < kept@.len() ==> (#[trigger] kept@[j]).1.wf() && kept@[j].0.wf(),
                pattern_models(kept@) + patterns_kept(pattern_models(olds@), t as int, base_s, player_s)
                    =~= patterns_kept(all, t as int, base_s, player_s),
                sv.handler.sysqueue@ + patterns_requests(
                    pattern_models(olds@),
                    t as int,
                    base_s,
                    player_s,
                ) =~= old(sv).handler.sysqueue@ + patterns_requests(all, t as int, base_s, player_s),
            decreases olds@.len(),
        {
            let ghost pre_olds = olds@;
            let ghost pre_kept = kept@;
            let ghost pre_sys = sv.handler.sysqueue@;
            let (binfo, mut pat) = olds.remove(0);
            proof {
                assert(pre_olds[0].1.wf() && pre_olds[0].0.wf());
                assert forall|j: int|
                    0 <= j < olds@.len() implies (#[trigger] olds@[j]).1.wf()
                    && olds@[j].0.wf() by {
                    assert(olds@[j] == pre_olds[j + 1]);
                }
                assert(pattern_models(pre_olds).first() == (binfo, pat.model()));
                assert(pattern_models(pre_olds).drop_first() =~= pattern_models(olds@));
            }
            let ghost raw_model = pat.model();
            if pat.tracking {
                let basev = clamp_world(self.pg.pos);
                pat.set_pos_fetcher(basev, sv.player_pos);
            }
            let ghost pre_model = crate::pattern::retracked(raw_model, base_s, player_s);
            proof {
                assert(pat.model() =~= pre_model);
            }
            let shots = pat.next(t);
            let done = shots.len() == 0 && pat.finished();
            proof {
                assert(done == (advanced_model(pre_model, t as int).1.len() == 0
                    && model_finished(advanced_model(pre_model, t as int).0)));
            }
            let m = shots.len();
            let mut k: usize = 0;
            while k < m
                invariant
                    k <= m == shots@.len(),
                    self.wf(),
                    sv.wf(),
                    *self == (Enemy { patterns: self.patterns, ..*old(self) }),
                    self.patterns@.len() == 0,
                    self.pg == old(self).pg,
                    sv.handler.queue@ == old(sv).handler.queue@,
                    sv.handler.subscriptions@ == old(sv).handler.subscriptions@,
                    sv.physics == old(sv).physics,
                    sv.registry == old(sv).registry,
                    sv.player_pos == old(sv).player_pos,
                    sv.scaler == old(sv).scaler,
                    sv.handler.sysqueue@ =~= pre_sys + shots_requests(
                        binfo,
                        shots@.take(k as int),
                        base_s,
                    ),
                decreases m - k,
            {
                let shot = &shots[k];
                let base = clamp_world(self.pg.pos);
                let off = clamp_world(shot.offset);
                let vel = clamp_world(shot.velocity);
                let pos = Vec2 { x: base.x + off.x, y: base.y + off.y };
                sv.handler.enqueue_sys(
                    crate::events::SysEvent::Create(CreateRequest::Bullet(binfo, pos, vel)),
                );
                proof {
                    assert(shots_requests(binfo, shots@.take(k as int + 1), base_s)
                        =~= shots_requests(binfo, shots@.take(k as int), base_s).push(
                        shot_request(binfo, shots@[k as int], base_s),
                    ));
                }
                k = k + 1;
            }
            proof {
                assert(shots@.take(m as int) =~= shots@);
                assert(shots@ == advanced_model(pre_model, t as int).1);
            }
            if !done {
                kept.push((binfo, pat));
                proof {
                    assert forall|j: int|
                        0 <= j < kept@.len() implies (#[trigger] kept@[j]).1.wf()
                        && kept@[j].0.wf() by {}
                    assert(pattern_models(kept@) =~= pattern_models(pre_kept).push(
                        (binfo, pat.model()),
                    ));
                }
            }
            proof {
                assert(pattern_models(kept@) + patterns_kept(
                    pattern_models(olds@),
                    t as int,
                    base_s,
                    player_s,
                ) =~= patterns_kept(all, t as int, base_s, player_s));
                assert(sv.handler.sysqueue@ + patterns_requests(
                    pattern_models(olds@),
                    t as int,
                    base_s,
                    player_s,
                ) =~= old(sv).handler.sysqueue@ + patterns_requests(
                    all,
                    t as int,
                    base_s,
                    player_s,
                ));
            }
        }
        self.patterns = kept;
        proof {
            assert(patterns_requests(pattern_models(olds@), t as int, base_s, player_s) =~= Seq::<
                SysEvent<CreateRequest>,
            >::empty());
            assert(patterns_kept(pattern_models(olds@), t as int, base_s, player_s) =~= Seq::<
                (BulletInfo, PatternModel),
            >::empty());
        }
    }
}

/// Whether a path builder's geometry resolves inside the world bound at
/// these positions, so it can be built.
pub fn builder_resolvable(pb: &PathBuilder, cur: Vec2, player: Vec2) -> (r: bool)
    requires
        pb.wf(),
        cur.wf(),
        player.wf(),
        pb.path_type is Arc ==> pb.center is Some,
        pb.path_type is Curve ==> pb.points is Some,
    ensures
        r == resolvable_spec(*pb, cur, player),
{
    if pb.speed.is_none() {
        return false;
    }
    match pb.path_type {
        PathType::Arc => {
            if pb.radius.is_none() || pb.degrees.is_none() {
                return false;
            }
            let c = match pb.center {
                Some(c) => c,
                None => {
                    return false;
                },
            };
            let rp = c.eval(cur, player);
            -MAG_LIMIT <= rp.x && rp.x <= MAG_LIMIT && -MAG_LIMIT <= rp.y && rp.y <= MAG_LIMIT
        },
        PathType::Curve => {
            match &pb.points {
                Some(pts) => {
                    let n = pts.len();
                    let mut i: usize = 0;
                    while i < n
                        invariant
                            i <= n == pts@.len(),
                            pb.path_type is Curve,
                            pb.speed is Some,
                            pb.points is Some,
                            pts@ == pb.points.unwrap()@,
                            cur.wf(),
                            player.wf(),
                            forall|j: int| 0 <= j < n ==> (#[trigger] pts@[j]).wf(),
                            forall|j: int|
                                0 <= j < i ==> (#[trigger] pts@[j]).resolved(cur, player).wf(),
                        decreases n - i,
                    {
                        let rp = pts[i].eval(cur, player);
                        if !(-MAG_LIMIT <= rp.x && rp.x <= MAG_LIMIT && -MAG_LIMIT <= rp.y && rp.y
                            <= MAG_LIMIT) {
                            proof {
                                assert(!pb.points.unwrap()@[i as int].resolved(cur, player).wf());
                                assert(!(forall|j: int|
                                    0 <= j < pb.points.unwrap()@.len() ==> (
                                    #[trigger] pb.points.unwrap()@[j]).resolved(
                                        cur,
                                        player,
                                    ).wf())) by {
                                    assert(0 <= i < pb.points.unwrap()@.len());
                                }
                                assert(pb.path_type is Curve);
                                assert(resolvable_spec(*pb, cur, player) ==> (forall|j: int|
                                    0 <= j < pb.points.unwrap()@.len() ==> (
                                    #[trigger] pb.points.unwrap()@[j]).resolved(
                                        cur,
                                        player,
                                    ).wf()));
                                assert(!resolvable_spec(*pb, cur, player));
                            }
                            return false;
                        }
                        i = i + 1;
                    }
                    true
                },
                None => false,
            }
        },
        PathType::Fixed => pb.time.is_some(),
    }
}


impl Player {
    /// Create the player: screen locked, aliased "player", its hitbox
    /// registered under the interactive group with the player payload
    /// byte.
    pub fn create(id: u64, sv: &mut Services) -> (r: Player)
        requires
            old(sv).wf(),
        ensures
            final(sv).wf(),
            r.wf(),
            r.id == id,
            r.pg == (PGComp {
                id,
                pos: Vec2 { x: 0i64, y: 0i64 },
                velocity: Vec2 { x: 0i64, y: 0i64 },
                acceleration: Vec2 { x: 0i64, y: 0i64 },
                scaler: old(sv).scaler,
                screen_locked: true,
                half_widths: (25_000i64, 50_000i64),
            }),
            r.ev.id == id,
            r.ev.timers@ =~= Seq::<Timer>::empty(),
            !r.slow,
            final(sv).physics.staged@ =~= old(sv).physics.staged@.push(
                crate::physics::StagedOp::Add(
                    crate::physics::SpatialObject {
                        id,
                        pos: Vec2 { x: 0i64, y: 0i64 },
                        shape: crate::physics::Shape::Ball(2_500),
                        group: crate::physics::PhysicsInteraction::Interactive,
                        data: crate::events::PhysicsData { entity_id: id, tag: 0u64, group: 1u8 },
                    },
                ),
            ),
            final(sv).physics.objects@ == old(sv).physics.objects@,
            final(sv).physics.watched == Some(id),
            !old(sv).registry.has_alias("player"@) ==> exists|nm: String|
                #[trigger] nm@ == "player"@ && final(sv).registry.names@ =~= old(
                    sv,
                ).registry.names@.push((nm, id)),
            old(sv).registry.has_alias("player"@) ==> final(sv).registry.names@ == old(
                sv,
            ).registry.names@,
            final(sv).registry.counter == old(sv).registry.counter,
            final(sv).registry.free@ == old(sv).registry.free@,
            final(sv).registry.reclaimed@ == old(sv).registry.reclaimed@,
            final(sv).registry.reclaimable == old(sv).registry.reclaimable,
            final(sv).registry.tags@ == old(sv).registry.tags@,
            final(sv).handler == old(sv).handler,
            final(sv).player_pos == old(sv).player_pos,
            final(sv).scaler == old(sv).scaler,
    {
        let origin = Vec2 { x: 0, y: 0 };
        sv.physics.add(
            id,
            origin,
            crate::physics::Shape::Ball(2_500),
            crate::physics::PhysicsInteraction::Interactive,
            crate::events::PhysicsData::new(id, 0, 1),
        );
        // A second player would find the name taken; the alias simply
        // stays with its first holder, a non-fatal content error.
        let alias_taken = sv.registry.create_alias("player".to_owned(), id);
        if alias_taken.is_err() {
        }
        let mut pg = PGComp::new(id, origin, sv.scaler);
        pg.screen_lock((25_000, 50_000));
        Player { id, pg, ev: EventComp::new(id), slow: false }
    }
}

impl PlayerBullet {
    /// Create a player bullet flying straight up from a position.
    pub fn create(id: u64, pos: Vec2, sv: &mut Services) -> (r: PlayerBullet)
        requires
            old(sv).wf(),
        ensures
            final(sv).wf(),
            r.wf(),
            r.id == id,
            r.pg == (PGComp {
                id,
                pos: world_clamped(pos),
                velocity: Vec2 { x: 0i64, y: 100_000i64 },
                acceleration: Vec2 { x: 0i64, y: 0i64 },
                scaler: old(sv).scaler,
                screen_locked: false,
                half_widths: (0i64, 0i64),
            }),
            r.ev.id == id,
            r.ev.timers@ =~= Seq::<Timer>::empty(),
            final(sv).physics.staged@ =~= old(sv).physics.staged@.push(
                crate::physics::StagedOp::Add(
                    crate::physics::SpatialObject {
                        id,
                        pos: world_clamped(pos),
                        shape: crate::physics::Shape::Ball(2_000),
                        group: crate::physics::PhysicsInteraction::SemiInteractive,
                        data: crate::events::PhysicsData { entity_id: id, tag: 0u64, group: 8u8 },
                    },
                ),
            ),
            final(sv).physics.objects@ == old(sv).physics.objects@,
            final(sv).physics.watched == old(sv).physics.watched,
            final(sv).registry == old(sv).registry,
            final(sv).handler == old(sv).handler,
            final(sv).player_pos == old(sv).player_pos,
            final(sv).scaler == old(sv).scaler,
    {
        let p = clamp_world(pos);
        sv.physics.add(
            id,
            p,
            crate::physics::Shape::Ball(2_000),
            crate::physics::PhysicsInteraction::SemiInteractive,
            crate::events::PhysicsData::new(id, 0, 8),
        );
        let mut pg = PGComp::new(id, p, sv.scaler);
        pg.velocity = Vec2 { x: 0, y: 100_000 };
        PlayerBullet { id, pg, ev: EventComp::new(id) }
    }
}

impl Bullet {
    /// Create an enemy bullet of a kind at a position with a velocity; a
    /// decelerating kind starts with the opposite of its heading scaled
    /// by the deceleration rate.
    pub fn create(id: u64, info: BulletInfo, pos: Vec2, vel: Vec2, sv: &mut Services) -> (r: Bullet)
        requires
            old(sv).wf(),
            info.wf(),
            vel.wf(),
        ensures
            final(sv).wf(),
            r.wf(),
            r.id == id,
            r.damage == info.damage,
            r.behavior == info.behavior,
            r.ev.id == id,
            r.ev.timers@ =~= Seq::<Timer>::empty(),
            r.pg.id == id,
            r.pg.pos == world_clamped(pos),
            r.pg.velocity == vel,
            r.pg.scaler == old(sv).scaler,
            !r.pg.screen_locked,
            info.behavior is Straight ==> r.pg.acceleration == (Vec2 { x: 0i64, y: 0i64 }),
            info.behavior matches Behavior::Deaccelerate(_t, acc) ==> ({
                let av = crate::geom::polar_vec(
                    acc as int,
                    crate::num::vec_angle(vel.y as int, vel.x as int) % 360_000,
                );
                r.pg.acceleration == (Vec2 { x: (-av.x) as i64, y: (-av.y) as i64 })
            }),
            final(sv).physics.staged@ =~= old(sv).physics.staged@.push(
                crate::physics::StagedOp::Add(
                    crate::physics::SpatialObject {
                        id,
                        pos: world_clamped(pos),
                        shape: crate::physics::Shape::Ball(2_000),
                        group: crate::physics::PhysicsInteraction::SemiInteractive,
                        data: crate::events::PhysicsData { entity_id: id, tag: 0u64, group: 2u8 },
                    },
                ),
            ),
            final(sv).physics.objects@ == old(sv).physics.objects@,
            final(sv).physics.watched == old(sv).physics.watched,
            final(sv).registry == old(sv).registry,
            final(sv).handler == old(sv).handler,
            final(sv).player_pos == old(sv).player_pos,
            final(sv).scaler == old(sv).scaler,
    {
        let p = clamp_world(pos);
        sv.physics.add(
            id,
            p,
            crate::physics::Shape::Ball(2_000),
            crate::physics::PhysicsInteraction::SemiInteractive,
            crate::events::PhysicsData::new(id, 0, 2),
        );
        let mut pg = PGComp::new(id, p, sv.scaler);
        pg.velocity = vel;
        match info.behavior {
            Behavior::Deaccelerate(_, acc) => {
                let ang = crate::num::atan2_milli(vel.y, vel.x);
                let a = crate::geom::to_cartesian(acc, ang);
                pg.acceleration = Vec2 { x: -a.x, y: -a.y };
            },
            Behavior::Straight => {},
        }
        Bullet { id, pg, ev: EventComp::new(id), damage: info.damage, behavior: info.behavior }
    }
}

impl Enemy {
    /// Create an enemy at a position, walking the given paths in order:
    /// the first path is built at once and its actions scheduled.
    #[verifier::loop_isolation(false)]
    pub fn create(id: u64, info: EnemyInfo, pos: Vec2, paths: Vec<PathBuilder>, sv: &mut Services) -> (r:
        Enemy)
        requires
            old(sv).wf(),
            paths_wf(paths@),
        ensures
            final(sv).wf(),
            r.wf(),
            r.id == id,
            r.health == info.health,
            r.damage == info.damage,
            r.ev.id == id,
            r.pg.id == id,
            r.pg.pos == world_clamped(pos),
            r.pg.velocity == (Vec2 { x: 0i64, y: 0i64 }),
            r.pg.acceleration == (Vec2 { x: 0i64, y: 0i64 }),
            r.pg.scaler == old(sv).scaler,
            !r.pg.screen_locked,
            final(sv).physics.staged@ =~= old(sv).physics.staged@.push(
                crate::physics::StagedOp::Add(
                    crate::physics::SpatialObject {
                        id,
                        pos: world_clamped(pos),
                        shape: crate::physics::Shape::Ball(5_000),
                        group: crate::physics::PhysicsInteraction::SemiInteractive,
                        data: crate::events::PhysicsData { entity_id: id, tag: 0u64, group: 4u8 },
                    },
                ),
            ),
            final(sv).physics.objects@ == old(sv).physics.objects@,
            final(sv).physics.watched == old(sv).physics.watched,
            final(sv).registry == old(sv).registry,
            final(sv).handler == old(sv).handler,
            final(sv).player_pos == old(sv).player_pos,
            final(sv).scaler == old(sv).scaler,
            paths@.len() == 0 ==> r.paths@.len() == 0 && r.cpath.model() == PathModel::Fixed(
                crate::path::FixedModel { time: 0, pos: world_clamped(pos) },
            ) && r.actions@ =~= Seq::<ActionType>::empty() && r.ev.timers@ =~= Seq::<
                Timer,
            >::empty() && r.patterns@.len() == 0,
            paths@.len() >= 1 ==> ({
                let cur = world_clamped(pos);
                let pb0 = paths@[0];
                &&& r.paths@.len() == paths@.len() - 1
                &&& (forall|k: int|
                    0 <= k < r.paths@.len() ==> crate::path::pb_core(#[trigger] r.paths@[k])
                        == crate::path::pb_core(paths@[paths@.len() - 1 - k]))
                &&& (resolvable_spec(pb0, cur, old(sv).player_pos) ==> ({
                    let out = scheduled(
                        (
                            Seq::<ActionType>::empty(),
                            Seq::<Timer>::empty(),
                            Seq::<(BulletInfo, PatternModel)>::empty(),
                        ),
                        pb0.actions@,
                        cur,
                        old(sv).player_pos,
                    );
                    &&& r.cpath.model() == built_path_model(pb0, cur, old(sv).player_pos)
                    &&& r.cpath.actions_spec() =~= Seq::<crate::action::Action>::empty()
                    &&& r.actions@ =~= out.0
                    &&& r.ev.timers@ =~= out.1
                    &&& pattern_models(r.patterns@) =~= out.2
                }))
                &&& (!resolvable_spec(pb0, cur, old(sv).player_pos) ==> r.cpath.model()
                    == PathModel::Fixed(
                    crate::path::FixedModel { time: 0, pos: world_clamped(pos) },
                ) && r.actions@ =~= Seq::<ActionType>::empty() && r.ev.timers@ =~= Seq::<
                    Timer,
                >::empty() && r.patterns@.len() == 0)
            }),
    {
        let p = clamp_world(pos);
        sv.physics.add(
            id,
            p,
            crate::physics::Shape::Ball(5_000),
            crate::physics::PhysicsInteraction::SemiInteractive,
            crate::events::PhysicsData::new(id, 0, 4),
        );
        let pg = PGComp::new(id, p, sv.scaler);
        let n = paths.len();
        let mut rev: Vec<PathBuilder> = Vec::new();
        let mut i: usize = n;
        while i > 0
            invariant
                i <= n == paths@.len(),
                paths_wf(paths@),
                paths_wf(rev@),
                rev@.len() == n - i,
                forall|k: int|
                    0 <= k < rev@.len() ==> crate::path::pb_core(#[trigger] rev@[k])
                        == crate::path::pb_core(paths@[n - 1 - k]),
            decreases i,
        {
            i = i - 1;
            let pb = paths[i].duplicate();
            proof {
                assert(paths_wf(rev@.push(pb)));
            }
            rev.push(pb);
        }
        let mut enemy = Enemy {
            id,
            health: info.health,
            damage: info.damage,
            paths: rev,
            cpath: Path::Fixed(
                crate::path::Fixed { time: 0, pos: p, actions: Vec::new() },
            ),
            actions: Vec::new(),
            patterns: Vec::new(),
            pg,
            ev: EventComp::new(id),
        };
        let first = enemy.paths.pop();
        if let Some(pb) = first {
            proof {
                assert(crate::path::pb_core(pb) == crate::path::pb_core(paths@[0]));
                lemma_core_same_resolvable(pb, paths@[0], p, sv.player_pos);
            }
            if builder_resolvable(&pb, p, sv.player_pos) {
                let mut path = pb.build(p, sv.player_pos);
                proof {
                    lemma_core_same_built(pb, paths@[0], p, sv.player_pos);
                }
                let acts = path.actions();
                enemy.cpath = path;
                let ghost pre_sched = enemy;
                enemy.schedule_actions(acts, sv);
                proof {
                    assert(world_clamped(pre_sched.pg.pos) == world_clamped(pos));
                    assert(acts@ == paths@[0].actions@);
                    assert(pre_sched.actions@ =~= Seq::<ActionType>::empty());
                    assert(pre_sched.ev.timers@ =~= Seq::<Timer>::empty());
                    assert(pattern_models(pre_sched.patterns@) =~= Seq::<
                        (BulletInfo, PatternModel),
                    >::empty());
                }
            }
        }
        enemy
    }
}


/// Builders with the same determining fields resolve alike.
proof fn lemma_core_same_resolvable(a: PathBuilder, b: PathBuilder, cur: Vec2, player: Vec2)
    requires
        crate::path::pb_core(a) == crate::path::pb_core(b),
    ensures
        resolvable_spec(a, cur, player) == resolvable_spec(b, cur, player),
{
    assert(a.path_type == b.path_type);
    assert(a.speed == b.speed && a.center == b.center && a.radius == b.radius && a.degrees
        == b.degrees && a.time == b.time);
    match a.path_type {
        PathType::Curve => {
            assert(a.points is Some <==> b.points is Some);
            if a.points is Some {
                assert(a.points.unwrap()@ == b.points.unwrap()@);
            }
        },
        _ => {},
    }
}

/// Builders with the same determining fields build the same path model.
proof fn lemma_core_same_built(a: PathBuilder, b: PathBuilder, cur: Vec2, player: Vec2)
    requires
        crate::path::pb_core(a) == crate::path::pb_core(b),
    ensures
        built_path_model(a, cur, player) == built_path_model(b, cur, player),
{
    assert(a.path_type == b.path_type);
    assert(a.speed == b.speed && a.center == b.center && a.radius == b.radius && a.degrees
        == b.degrees && a.time == b.time && a.direction == b.direction);
    match a.path_type {
        PathType::Curve => {
            assert(a.points.unwrap()@ == b.points.unwrap()@);
            assert(built_path_model(a, cur, player) =~= built_path_model(b, cur, player));
        },
        _ => {
            assert(built_path_model(a, cur, player) =~= built_path_model(b, cur, player));
        },
    }
}

/// The inert screen boundary volume.
pub struct ScreenArea {
    /// Identity of the boundary entity.
    pub id: u64,
}

/// The closed set of entity kinds.
/// The whole contract of `Enemy::handle_event`, as a relation between
/// the states before and after one delivery.
pub open spec fn enemy_stepped(
    pre: Enemy,
    e: Event,
    sv0: Services,
    post: Enemy,
    sv1: Services,
) -> bool {
    &&& post.wf()
    &&& sv1.wf()
    &&& post.id == pre.id
    &&& sv1.registry == sv0.registry
    &&& sv1.scaler == sv0.scaler
    &&& sv1.handler.subscriptions@ == sv0.handler.subscriptions@
    &&& sv1.player_pos == sv0.player_pos
    &&& post.health == pre.health
    &&& post.damage == pre.damage
    &&& (e matches Event::Update(t) ==> ({
        let moved = pre.pg.updated(t as int);
        let adv = path_model_advanced(pre.cpath.model(), t as int);
        let models0 = pattern_models(pre.patterns@);
        &&& sv1.handler.queue@ =~= sv0.handler.queue@ + timer_deliveries(
            pre.id,
            pre.ev.timers@,
            t as int,
        )
        &&& (adv.1 matches Some(p) ==> ({
            let landed = Vec2 {
                x: sat_at(p.x as int, crate::physics::WORLD_LIMIT as int) as i64,
                y: sat_at(p.y as int, crate::physics::WORLD_LIMIT as int) as i64,
            };
            &&& post.cpath.model() == adv.0
            &&& post.pg == (PGComp { pos: landed, ..moved })
            &&& post.paths@ == pre.paths@
            &&& post.actions@ == pre.actions@
            &&& post.ev.timers@ =~= timers_after(pre.ev.timers@, t as int)
            &&& sv1.physics.staged@ =~= sv0.physics.staged@.push(
                crate::physics::StagedOp::SetPos(pre.id, landed),
            )
            &&& sv1.physics.objects@ == sv0.physics.objects@
            &&& pattern_models(post.patterns@) =~= patterns_kept(
                models0,
                t as int,
                world_clamped(landed),
                sv0.player_pos,
            )
            &&& sv1.handler.sysqueue@ =~= sv0.handler.sysqueue@ + patterns_requests(
                models0,
                t as int,
                world_clamped(landed),
                sv0.player_pos,
            )
        }))
        &&& (adv.1 is None && pre.paths@.len() == 0 ==> ({
            &&& post.cpath.model() == adv.0
            &&& post.pg == moved
            &&& post.paths@ == pre.paths@
            &&& post.actions@ == pre.actions@
            &&& post.ev.timers@ =~= timers_after(pre.ev.timers@, t as int)
            &&& sv1.physics == sv0.physics
            &&& pattern_models(post.patterns@) =~= patterns_kept(
                models0,
                t as int,
                world_clamped(moved.pos),
                sv0.player_pos,
            )
            &&& sv1.handler.sysqueue@ =~= sv0.handler.sysqueue@.push(
                SysEvent::Destroy(pre.id),
            ) + patterns_requests(models0, t as int, world_clamped(moved.pos), sv0.player_pos)
        }))
        &&& (adv.1 is None && pre.paths@.len() > 0 ==> ({
            let pb = pre.paths@.last();
            let cur = world_clamped(moved.pos);
            &&& post.pg == moved
            &&& post.paths@ == pre.paths@.drop_last()
            &&& sv1.physics == sv0.physics
            &&& (resolvable_spec(pb, cur, sv0.player_pos) ==> ({
                let out = scheduled(
                    (pre.actions@, timers_after(pre.ev.timers@, t as int), models0),
                    pb.actions@,
                    cur,
                    sv0.player_pos,
                );
                &&& post.cpath.model() == built_path_model(pb, cur, sv0.player_pos)
                &&& post.cpath.actions_spec() =~= Seq::<crate::action::Action>::empty()
                &&& post.actions@ =~= out.0
                &&& post.ev.timers@ =~= out.1
                &&& pattern_models(post.patterns@) =~= patterns_kept(
                    out.2,
                    t as int,
                    cur,
                    sv0.player_pos,
                )
                &&& sv1.handler.sysqueue@ =~= sv0.handler.sysqueue@ + patterns_requests(
                    out.2,
                    t as int,
                    cur,
                    sv0.player_pos,
                )
            }))
            &&& (!resolvable_spec(pb, cur, sv0.player_pos) ==> ({
                &&& post.cpath.model() == adv.0
                &&& post.actions@ == pre.actions@
                &&& post.ev.timers@ =~= timers_after(pre.ev.timers@, t as int)
                &&& pattern_models(post.patterns@) =~= patterns_kept(
                    models0,
                    t as int,
                    cur,
                    sv0.player_pos,
                )
                &&& sv1.handler.sysqueue@ =~= sv0.handler.sysqueue@.push(
                    SysEvent::Destroy(pre.id),
                ) + patterns_requests(models0, t as int, cur, sv0.player_pos)
            }))
        }))
    }))
    &&& (e matches Event::CTimer(c, i) ==> ({
        &&& (c == 1 && i < pre.actions@.len() ==> ({
            &&& post.actions@ =~= pre.actions@.update(i as int, ActionType::Idle)
            &&& (pre.actions@[i as int] matches ActionType::Bullets(b, pb) ==> pattern_models(
                post.patterns@,
            ) =~= pattern_models(pre.patterns@).push(
                (b, built_tracking_model(pb, world_clamped(pre.pg.pos), sv0.player_pos)),
            ))
            &&& (pre.actions@[i as int] is Idle ==> post.patterns@ == pre.patterns@)
            &&& sv1 == sv0
            &&& post.pg == pre.pg
            &&& post.ev == pre.ev
            &&& post.paths@ == pre.paths@
            &&& post.cpath == pre.cpath
        }))
        &&& (!(c == 1 && i < pre.actions@.len()) ==> post == pre && sv1 == sv0)
    }))
    &&& (e matches Event::Collision(other, _data) ==> ({
        let hit_player = crate::registry::rev_alias_first(sv0.registry.rev_names@, other) == Some(
            "player"@,
        );
        &&& (hit_player ==> post == pre && sv1.handler.sysqueue@ =~= sv0.handler.sysqueue@.push(
            SysEvent::Destroy(pre.id),
        ) && sv1.handler.queue@ == sv0.handler.queue@ && sv1.physics == sv0.physics)
        &&& (!hit_player ==> post == pre && sv1 == sv0)
    }))
    &&& (!(e is Update) && !(e is CTimer) && !(e is Collision) ==> post == pre && sv1 == sv0)
}

/// The whole contract of `Player::handle_event`, as a relation between
/// the states before and after one delivery.
pub open spec fn player_stepped(
    pre: Player,
    e: Event,
    sv0: Services,
    post: Player,
    sv1: Services,
) -> bool {
    &&& post.wf()
    &&& sv1.wf()
    &&& post.id == pre.id
    &&& sv1.registry == sv0.registry
    &&& sv1.scaler == sv0.scaler
    &&& sv1.handler.subscriptions@ == sv0.handler.subscriptions@
    &&& (e matches Event::Update(t) ==> ({
        let moved = pre.pg.updated(t as int);
        &&& post.pg == moved
        &&& post.slow == pre.slow
        &&& post.ev.timers@ =~= timers_after(pre.ev.timers@, t as int)
        &&& sv1.handler.queue@ =~= sv0.handler.queue@ + timer_deliveries(
            pre.id,
            pre.ev.timers@,
            t as int,
        )
        &&& sv1.handler.sysqueue@ == sv0.handler.sysqueue@
        &&& sv1.physics.staged@ =~= sv0.physics.staged@.push(
            crate::physics::StagedOp::SetPos(pre.id, moved.pos),
        )
        &&& sv1.physics.objects@ == sv0.physics.objects@
        &&& sv1.player_pos == world_clamped(moved.pos)
    }))
    &&& (e matches Event::KeyInput(st, key) ==> ({
        let pressed = st is Pressed;
        &&& (key_delta(pressed, key) matches Some(d) ==> sv1 == sv0 && post == (Player {
            pg: PGComp { velocity: nudged_velocity(pre, d.0, d.1), ..pre.pg },
            ..pre
        }))
        &&& (pressed && key == KEY_SHIFT ==> sv1 == sv0 && post.slow && (pre.slow ==> post == pre)
            && (!pre.slow ==> post == (Player {
            slow: true,
            pg: PGComp {
                velocity: Vec2 {
                    x: crate::num::div_trunc(pre.pg.velocity.x as int, 2) as i64,
                    y: crate::num::div_trunc(pre.pg.velocity.y as int, 2) as i64,
                },
                ..pre.pg
            },
            ..pre
        })))
        &&& (!pressed && key == KEY_SHIFT ==> sv1 == sv0 && !post.slow && (!pre.slow ==> post
            == pre) && (pre.slow ==> post == (Player {
            slow: false,
            pg: PGComp {
                velocity: Vec2 {
                    x: sat_at(2 * pre.pg.velocity.x, MAG_LIMIT as int) as i64,
                    y: sat_at(2 * pre.pg.velocity.y, MAG_LIMIT as int) as i64,
                },
                ..pre.pg
            },
            ..pre
        })))
        &&& (pressed && key == KEY_SHOOT ==> sv1.handler.sysqueue@ =~= sv0.handler.sysqueue@.push(
            SysEvent::Create(CreateRequest::PlayerBullet(pre.pg.pos)),
        ) && post.ev.timers@ =~= pre.ev.timers@.push(
            Timer {
                id: 1u64,
                class: 0u8,
                repeat: true,
                amount: 80i64,
                left: 80i64,
                event: Event::Timer(1),
            },
        ) && post.pg == pre.pg && post.slow == pre.slow && sv1.handler.queue@
            == sv0.handler.queue@ && sv1.physics == sv0.physics && sv1.player_pos
            == sv0.player_pos)
        &&& (!pressed && key == KEY_SHOOT ==> sv1 == sv0 && post.ev.timers@
            =~= remove_first_timer(pre.ev.timers@, 1) && post.pg == pre.pg && post.slow
            == pre.slow)
        &&& (key_delta(pressed, key) is None && key != KEY_SHIFT && key != KEY_SHOOT ==> post
            == pre && sv1 == sv0)
    }))
    &&& (e matches Event::Timer(n) ==> ({
        &&& (n == 1 ==> sv1.handler.sysqueue@ =~= sv0.handler.sysqueue@.push(
            SysEvent::Create(CreateRequest::PlayerBullet(pre.pg.pos)),
        ) && post == pre && sv1.handler.queue@ == sv0.handler.queue@ && sv1.physics == sv0.physics
            && sv1.player_pos == sv0.player_pos)
        &&& (n != 1 ==> post == pre && sv1 == sv0)
    }))
    &&& (!(e is Update) && !(e is KeyInput) && !(e is Timer) ==> post == pre && sv1 == sv0)
}

/// The whole contract of `PlayerBullet::handle_event`, as a relation
/// between the states before and after one delivery.
pub open spec fn player_bullet_stepped(
    pre: PlayerBullet,
    e: Event,
    sv0: Services,
    post: PlayerBullet,
    sv1: Services,
) -> bool {
    &&& post.wf()
    &&& sv1.wf()
    &&& post.id == pre.id
    &&& sv1.registry == sv0.registry
    &&& sv1.scaler == sv0.scaler
    &&& sv1.handler.subscriptions@ == sv0.handler.subscriptions@
    &&& sv1.player_pos == sv0.player_pos
    &&& (e is Spawn ==> sv1 == sv0 && post == (PlayerBullet { ev: post.ev, ..pre }) && post.ev.id
        == pre.ev.id && post.ev.timers@ =~= pre.ev.timers@.push(
        Timer {
            id: 1u64,
            class: 0u8,
            repeat: true,
            amount: 1000i64,
            left: 1000i64,
            event: Event::Timer(1),
        },
    ))
    &&& (e matches Event::Timer(n) ==> ({
        let sc = pre.pg.scaler;
        let off_screen = !(-sc <= pre.pg.pos.x <= sc && -sc <= pre.pg.pos.y <= sc);
        &&& (n == 1 && off_screen ==> post == pre && sv1.handler.sysqueue@
            =~= sv0.handler.sysqueue@.push(SysEvent::Destroy(pre.id)) && sv1.handler.queue@
            == sv0.handler.queue@ && sv1.physics == sv0.physics)
        &&& (!(n == 1 && off_screen) ==> post == pre && sv1 == sv0)
    }))
    &&& (e matches Event::Update(t) ==> ({
        let moved = pre.pg.updated(t as int);
        &&& post.pg == moved
        &&& post.ev.timers@ =~= timers_after(pre.ev.timers@, t as int)
        &&& sv1.handler.queue@ =~= sv0.handler.queue@ + timer_deliveries(
            pre.id,
            pre.ev.timers@,
            t as int,
        )
        &&& sv1.handler.sysqueue@ == sv0.handler.sysqueue@
        &&& sv1.physics.staged@ =~= sv0.physics.staged@.push(
            crate::physics::StagedOp::SetPos(pre.id, moved.pos),
        )
        &&& sv1.physics.objects@ == sv0.physics.objects@
    }))
    &&& (e matches Event::Proximity(other, data) ==> ({
        let leaving = data.proximity is Disjoint && crate::registry::rev_alias_first(
            sv0.registry.rev_names@,
            other,
        ) == Some("screen_area"@);
        &&& (leaving ==> post == pre && sv1.handler.sysqueue@ =~= sv0.handler.sysqueue@.push(
            SysEvent::Destroy(pre.id),
        ) && sv1.handler.queue@ == sv0.handler.queue@ && sv1.physics == sv0.physics)
        &&& (!leaving ==> post == pre && sv1 == sv0)
    }))
    &&& (!(e is Spawn) && !(e is Timer) && !(e is Update) && !(e is Proximity) ==> post == pre
        && sv1 == sv0)
}

/// The whole contract of `Bullet::handle_event`, as a relation between
/// the states before and after one delivery.
pub open spec fn bullet_stepped(
    pre: Bullet,
    e: Event,
    sv0: Services,
    post: Bullet,
    sv1: Services,
) -> bool {
    &&& post.wf()
    &&& sv1.wf()
    &&& post.id == pre.id
    &&& sv1.registry == sv0.registry
    &&& sv1.scaler == sv0.scaler
    &&& sv1.handler.subscriptions@ == sv0.handler.subscriptions@
    &&& sv1.player_pos == sv0.player_pos
    &&& (e is Spawn ==> sv1 == sv0 && post == (Bullet { ev: post.ev, ..pre }) && post.ev.id
        == pre.ev.id && post.ev.timers@ =~= pre.ev.timers@.push(
        Timer {
            id: 1u64,
            class: 0u8,
            repeat: true,
            amount: 1000i64,
            left: 1000i64,
            event: Event::Timer(1),
        },
    ).push(
        Timer {
            id: 2u64,
            class: 0u8,
            repeat: true,
            amount: 300i64,
            left: 300i64,
            event: Event::Timer(2),
        },
    ))
    &&& (e matches Event::Timer(n) ==> ({
        let sc = pre.pg.scaler;
        let off_screen = !(-sc <= pre.pg.pos.x <= sc && -sc <= pre.pg.pos.y <= sc);
        &&& (n == 1 && off_screen ==> post == pre && sv1.handler.sysqueue@
            =~= sv0.handler.sysqueue@.push(SysEvent::Destroy(pre.id)) && sv1.handler.queue@
            == sv0.handler.queue@ && sv1.physics == sv0.physics)
        &&& (!(n == 1 && off_screen) ==> post == pre && sv1 == sv0)
    }))
    &&& (e matches Event::Update(t) ==> ({
        let moved = pre.pg.updated(t as int);
        &&& post.ev.timers@ =~= timers_after(pre.ev.timers@, t as int)
        &&& sv1.handler.queue@ =~= sv0.handler.queue@ + timer_deliveries(
            pre.id,
            pre.ev.timers@,
            t as int,
        )
        &&& sv1.handler.sysqueue@ == sv0.handler.sysqueue@
        &&& sv1.physics.staged@ =~= sv0.physics.staged@.push(
            crate::physics::StagedOp::SetPos(pre.id, moved.pos),
        )
        &&& sv1.physics.objects@ == sv0.physics.objects@
        &&& (pre.behavior is Straight ==> post.pg == moved && post.behavior is Straight)
        &&& (pre.behavior matches Behavior::Deaccelerate(left, acc) ==> ({
            let nl: int = if left >= -MAG_LIMIT + TICK_LIMIT {
                left - t
            } else {
                -MAG_LIMIT as int
            };
            &&& post.behavior == Behavior::Deaccelerate(nl as i64, acc)
            &&& (nl <= 0 ==> post.pg == (PGComp {
                acceleration: Vec2 { x: 0i64, y: 0i64 },
                ..moved
            }))
            &&& (nl > 0 ==> post.pg == moved)
        }))
    }))
    &&& (e matches Event::Collision(other, _data) ==> ({
        let hit_player = crate::registry::rev_alias_first(sv0.registry.rev_names@, other) == Some(
            "player"@,
        );
        &&& (hit_player ==> post == pre && sv1.handler.sysqueue@ =~= sv0.handler.sysqueue@.push(
            SysEvent::Destroy(pre.id),
        ) && sv1.handler.queue@ == sv0.handler.queue@ && sv1.physics == sv0.physics)
        &&& (!hit_player ==> post == pre && sv1 == sv0)
    }))
    &&& (!(e is Spawn) && !(e is Timer) && !(e is Update) && !(e is Collision) ==> post == pre
        && sv1 == sv0)
}

/// The whole per-kind contract of `Object::handle_event`, as a relation
/// between the states before and after one delivery: the kind is kept
/// and the payload steps by that kind's own relation. The screen
/// boundary reacts to nothing, and the level sequencer reaches only the
/// event bus of the services.
pub open spec fn object_stepped(
    pre: Object,
    e: Event,
    sv0: Services,
    post: Object,
    sv1: Services,
) -> bool {
    &&& (pre matches Object::Player(p) ==> post matches Object::Player(q) && player_stepped(
        p,
        e,
        sv0,
        q,
        sv1,
    ))
    &&& (pre matches Object::PlayerBullet(p) ==> post matches Object::PlayerBullet(q)
        && player_bullet_stepped(p, e, sv0, q, sv1))
    &&& (pre matches Object::Enemy(p) ==> post matches Object::Enemy(q) && enemy_stepped(
        p,
        e,
        sv0,
        q,
        sv1,
    ))
    &&& (pre matches Object::Bullet(p) ==> post matches Object::Bullet(q) && bullet_stepped(
        p,
        e,
        sv0,
        q,
        sv1,
    ))
    &&& (pre is ScreenArea ==> post == pre && sv1 == sv0)
    &&& (pre matches Object::Level(l) ==> post matches Object::Level(l2)
        && crate::level::level_stepped(l, e, sv0.handler, l2, sv1.handler) && sv1.physics
        == sv0.physics && sv1.registry == sv0.registry && sv1.player_pos == sv0.player_pos
        && sv1.scaler == sv0.scaler)
}

pub enum Object {
    Player(Player),
    PlayerBullet(PlayerBullet),
    Enemy(Enemy),
    Bullet(Bullet),
    ScreenArea(ScreenArea),
    Level(Level),
}

impl Object {
    /// The identity of the entity.
    pub open spec fn id_spec(self) -> u64 {
        match self {
            Object::Player(p) => p.id,
            Object::PlayerBullet(p) => p.id,
            Object::Enemy(p) => p.id,
            Object::Bullet(p) => p.id,
            Object::ScreenArea(p) => p.id,
            Object::Level(p) => p.id,
        }
    }

    /// Structural bounds of whichever kind this is.
    pub open spec fn wf(self) -> bool {
        match self {
            Object::Player(p) => p.wf(),
            Object::PlayerBullet(p) => p.wf(),
            Object::Enemy(p) => p.wf(),
            Object::Bullet(p) => p.wf(),
            Object::ScreenArea(_) => true,
            Object::Level(p) => p.wf(),
        }
    }

    /// Read the identity of the entity.
    pub fn id(&self) -> (r: u64)
        ensures
            r == self.id_spec(),
    {
        match self {
            Object::Player(p) => p.id,
            Object::PlayerBullet(p) => p.id,
            Object::Enemy(p) => p.id,
            Object::Bullet(p) => p.id,
            Object::ScreenArea(p) => p.id,
            Object::Level(p) => p.id,
        }
    }

    /// Dispatch one delivered event to the kind's own handler. The kind
    /// never changes; what each kind does per event is that kind's own
    /// contract.
    pub fn handle_event(&mut self, e: &Event, sv: &mut Services)
        requires
            old(self).wf(),
            old(sv).wf(),
            *e matches Event::Update(t) ==> 0 <= t <= TICK_LIMIT,
        ensures
            final(self).wf(),
            final(sv).wf(),
            final(self).id_spec() == old(self).id_spec(),
            final(sv).registry == old(sv).registry,
            final(sv).scaler == old(sv).scaler,
            final(sv).handler.subscriptions@ == old(sv).handler.subscriptions@,
            *old(self) is Player <==> *final(self) is Player,
            *old(self) is PlayerBullet <==> *final(self) is PlayerBullet,
            *old(self) is Enemy <==> *final(self) is Enemy,
            *old(self) is Bullet <==> *final(self) is Bullet,
            *old(self) is ScreenArea <==> *final(self) is ScreenArea,
            *old(self) is Level <==> *final(self) is Level,
            !(*old(self) is Player) ==> final(sv).player_pos == old(sv).player_pos,
            *e is Spawn && (*old(self) is Player || *old(self) is Enemy || *old(self)
                is ScreenArea) ==> *final(self) == *old(self) && *final(sv) == *old(sv),
            *e is Spawn ==> (*old(self) matches Object::PlayerBullet(b)
                ==> *final(self) matches Object::PlayerBullet(b2) && *final(sv) == *old(sv) && b2.id == b.id
                && b2.pg == b.pg && b2.ev.id == b.ev.id && b2.ev.timers@ =~= b.ev.timers@.push(
                Timer {
                    id: 1u64,
                    class: 0u8,
                    repeat: true,
                    amount: 1000i64,
                    left: 1000i64,
                    event: Event::Timer(1),
                },
            )),
            *e is Spawn ==> (*old(self) matches Object::Bullet(b)
                ==> *final(self) matches Object::Bullet(b2) && *final(sv) == *old(sv) && b2.id == b.id && b2.pg
                == b.pg && b2.damage == b.damage && b2.behavior == b.behavior && b2.ev.id
                == b.ev.id && b2.ev.timers@ =~= b.ev.timers@.push(
                Timer {
                    id: 1u64,
                    class: 0u8,
                    repeat: true,
                    amount: 1000i64,
                    left: 1000i64,
                    event: Event::Timer(1),
                },
            ).push(
                Timer {
                    id: 2u64,
                    class: 0u8,
                    repeat: true,
                    amount: 300i64,
                    left: 300i64,
                    event: Event::Timer(2),
                },
            )),
            *e is Spawn ==> (*old(self) matches Object::Level(l)
                ==> *final(self) matches Object::Level(l2) && l2.id == l.id && !l2.has_event(
                "start"@,
            ) && (forall|n: Seq<char>| l2.has_event(n) ==> l.has_event(n))
                && final(sv).physics == old(sv).physics
                && final(sv).player_pos == old(sv).player_pos
                && final(sv).handler.queue@ == old(sv).handler.queue@
                && final(sv).handler.sysqueue@ == old(sv).handler.sysqueue@),
            *e is Spawn ==> final(sv).handler.sysqueue@ == old(sv).handler.sysqueue@
                && final(sv).handler.queue@ == old(sv).handler.queue@
                && final(sv).physics == old(sv).physics
                && final(sv).player_pos == old(sv).player_pos,
            object_stepped(*old(self), *e, *old(sv), *final(self), *final(sv)),
    {
        match self {
            Object::Player(p) => p.handle_event(e, sv),
            Object::PlayerBullet(p) => p.handle_event(e, sv),
            Object::Enemy(p) => p.handle_event(e, sv),
            Object::Bullet(p) => p.handle_event(e, sv),
            Object::ScreenArea(_) => {},
            Object::Level(p) => p.handle_event(e, &mut sv.handler),
        }
    }
}

} // verus!
