//! Kinematic facet of a moving entity: velocity and acceleration
//! integration, optional screen locking, and the staged write of the
//! new position into the spatial world.
//!
//! Velocities and positions saturate at the simulation's bounds, which
//! no input the contracts admit can reach.

use vstd::prelude::*;

use crate::geom::Vec2;
use crate::num::{div_trunc, Milli, MAG_LIMIT};
use crate::pattern::TICK_LIMIT;
use crate::physics::{SpatialWorld, WORLD_LIMIT};

verus! {

/// A value held inside a symmetric bound.
pub open spec fn sat_at(x: int, bound: int) -> int {
    if x > bound {
        bound
    } else if x < -bound {
        -bound
    } else {
        x
    }
}

/// Kinematic state of an entity: its own position copy, velocity and
/// acceleration, the spatial object it moves, and the optional screen
/// lock.
pub struct PGComp {
    /// Key of the entity's spatial object.
    pub id: u64,
    /// Current position, in thousandths of a unit.
    pub pos: Vec2,
    /// Velocity, in thousandths of a unit per second.
    pub velocity: Vec2,
    /// Acceleration, in thousandths of a unit per second per second.
    pub acceleration: Vec2,
    /// Half size of the screen, in thousandths of a unit.
    pub scaler: Milli,
    /// Whether the position is clamped to the screen.
    pub screen_locked: bool,
    /// Half-widths kept inside the screen when locked.
    pub half_widths: (Milli, Milli),
}

impl PGComp {
    /// Structural bounds of a kinematic state.
    pub open spec fn wf(self) -> bool {
        &&& -WORLD_LIMIT <= self.pos.x <= WORLD_LIMIT
        &&& -WORLD_LIMIT <= self.pos.y <= WORLD_LIMIT
        &&& -MAG_LIMIT <= self.velocity.x <= MAG_LIMIT
        &&& -MAG_LIMIT <= self.velocity.y <= MAG_LIMIT
        &&& -MAG_LIMIT <= self.acceleration.x <= MAG_LIMIT
        &&& -MAG_LIMIT <= self.acceleration.y <= MAG_LIMIT
        &&& 0 <= self.scaler <= MAG_LIMIT
        &&& 0 <= self.half_widths.0 <= MAG_LIMIT
        &&& 0 <= self.half_widths.1 <= MAG_LIMIT
    }

    /// A still body at a position.
    pub fn new(id: u64, pos: Vec2, scaler: Milli) -> (r: PGComp)
        requires
            -WORLD_LIMIT <= pos.x <= WORLD_LIMIT,
            -WORLD_LIMIT <= pos.y <= WORLD_LIMIT,
            0 <= scaler <= MAG_LIMIT,
        ensures
            r.wf(),
            r.id == id,
            r.pos == pos,
            r.velocity == (Vec2 { x: 0i64, y: 0i64 }),
            r.acceleration == (Vec2 { x: 0i64, y: 0i64 }),
            r.scaler == scaler,
            !r.screen_locked,
            r.half_widths == (0i64, 0i64),
    {
        PGComp {
            id,
            pos,
            velocity: Vec2 { x: 0, y: 0 },
            acceleration: Vec2 { x: 0, y: 0 },
            scaler,
            screen_locked: false,
            half_widths: (0, 0),
        }
    }

    /// Keep the position at least these half-widths inside the screen
    /// from now on.
    pub fn screen_lock(&mut self, half_widths: (Milli, Milli))
        requires
            old(self).wf(),
            0 <= half_widths.0 <= MAG_LIMIT,
            0 <= half_widths.1 <= MAG_LIMIT,
        ensures
            final(self).wf(),
            *final(self) == (PGComp { screen_locked: true, half_widths, ..*old(self) }),
    {
        self.screen_locked = true;
        self.half_widths = half_widths;
    }

    /// The current position.
    pub fn get_pos(&self) -> (r: Vec2)
        ensures
            r == self.pos,
    {
        self.pos
    }

    /// The position after one integration step, before any screen lock:
    /// each coordinate moves by velocity times the tick, saturating at
    /// the world bound.
    pub open spec fn moved_coord(p: int, v: int, dt: int) -> int {
        sat_at(p + div_trunc(v * dt, 1000), WORLD_LIMIT as int)
    }

    /// The velocity after one integration step: each component gains
    /// acceleration times the tick, saturating at the magnitude bound.
    pub open spec fn accel_coord(v: int, a: int, dt: int) -> int {
        sat_at(v + div_trunc(a * dt, 1000), MAG_LIMIT as int)
    }

    /// A coordinate clamped to the screen minus a half-width.
    pub open spec fn locked_coord(p: int, scaler: int, half: int) -> int {
        if p > scaler - half {
            scaler - half
        } else if p < -scaler + half {
            -scaler + half
        } else {
            p
        }
    }

    /// The whole kinematic state after one integration step.
    pub open spec fn updated(self, dt: int) -> PGComp {
        let vx = Self::accel_coord(self.velocity.x as int, self.acceleration.x as int, dt);
        let vy = Self::accel_coord(self.velocity.y as int, self.acceleration.y as int, dt);
        let mx = Self::moved_coord(self.pos.x as int, vx, dt);
        let my = Self::moved_coord(self.pos.y as int, vy, dt);
        let px = if self.screen_locked {
            Self::locked_coord(mx, self.scaler as int, self.half_widths.0 as int)
        } else {
            mx
        };
        let py = if self.screen_locked {
            Self::locked_coord(my, self.scaler as int, self.half_widths.1 as int)
        } else {
            my
        };
        PGComp {
            pos: Vec2 { x: px as i64, y: py as i64 },
            velocity: Vec2 { x: vx as i64, y: vy as i64 },
            ..self
        }
    }

    /// Move the body to a position, saturating at the world bound.
    pub fn set_pos(&mut self, pos: Vec2)
        requires
            old(self).wf(),
        ensures
            final(self).wf(),
            final(self).pos.x == sat_at(pos.x as int, WORLD_LIMIT as int),
            final(self).pos.y == sat_at(pos.y as int, WORLD_LIMIT as int),
            *final(self) == (PGComp { pos: final(self).pos, ..*old(self) }),
    {
        let x = if pos.x > WORLD_LIMIT {
            WORLD_LIMIT
        } else if pos.x < -WORLD_LIMIT {
            -WORLD_LIMIT
        } else {
            pos.x
        };
        let y = if pos.y > WORLD_LIMIT {
            WORLD_LIMIT
        } else if pos.y < -WORLD_LIMIT {
            -WORLD_LIMIT
        } else {
            pos.y
        };
        self.pos = Vec2 { x, y };
    }

    /// Move the body by a displacement, saturating at the world bound.
    pub fn translate(&mut self, delta: Vec2)
        requires
            old(self).wf(),
            -MAG_LIMIT <= delta.x <= MAG_LIMIT,
            -MAG_LIMIT <= delta.y <= MAG_LIMIT,
        ensures
            final(self).wf(),
            final(self).pos.x == sat_at(old(self).pos.x + delta.x, WORLD_LIMIT as int),
            final(self).pos.y == sat_at(old(self).pos.y + delta.y, WORLD_LIMIT as int),
            *final(self) == (PGComp { pos: final(self).pos, ..*old(self) }),
    {
        let p = Vec2 { x: self.pos.x + delta.x, y: self.pos.y + delta.y };
        self.set_pos(p);
    }

    /// Whether the position lies within the screen.
    pub fn in_screen(&self) -> (r: bool)
        requires
            self.wf(),
        ensures
            r == (-self.scaler <= self.pos.x <= self.scaler && -self.scaler <= self.pos.y
                <= self.scaler),
    {
        -self.scaler <= self.pos.x && self.pos.x <= self.scaler && -self.scaler <= self.pos.y
            && self.pos.y <= self.scaler
    }

    /// One integration step: velocity gains the acceleration's
    /// contribution, the position moves by the new velocity, and a
    /// screen-locked body is clamped back inside the screen.
    pub fn update(&mut self, dt: Milli)
        requires
            old(self).wf(),
            0 <= dt <= TICK_LIMIT,
        ensures
            final(self).wf(),
            *final(self) == old(self).updated(dt as int),
            final(self).velocity.x == Self::accel_coord(
                old(self).velocity.x as int,
                old(self).acceleration.x as int,
                dt as int,
            ),
            final(self).velocity.y == Self::accel_coord(
                old(self).velocity.y as int,
                old(self).acceleration.y as int,
                dt as int,
            ),
            ({
                let mx = Self::moved_coord(
                    old(self).pos.x as int,
                    final(self).velocity.x as int,
                    dt as int,
                );
                let my = Self::moved_coord(
                    old(self).pos.y as int,
                    final(self).velocity.y as int,
                    dt as int,
                );
                if old(self).screen_locked {
                    final(self).pos.x == Self::locked_coord(
                        mx,
                        old(self).scaler as int,
                        old(self).half_widths.0 as int,
                    ) && final(self).pos.y == Self::locked_coord(
                        my,
                        old(self).scaler as int,
                        old(self).half_widths.1 as int,
                    )
                } else {
                    final(self).pos.x == mx && final(self).pos.y == my
                }
            }),
            final(self).acceleration == old(self).acceleration,
            final(self).id == old(self).id,
            final(self).scaler == old(self).scaler,
            final(self).screen_locked == old(self).screen_locked,
            final(self).half_widths == old(self).half_widths,
    {
        let vx = Self::integrate(self.velocity.x, self.acceleration.x, dt, MAG_LIMIT);
        let vy = Self::integrate(self.velocity.y, self.acceleration.y, dt, MAG_LIMIT);
        self.velocity = Vec2 { x: vx, y: vy };
        let px = Self::integrate(self.pos.x, vx, dt, WORLD_LIMIT);
        let py = Self::integrate(self.pos.y, vy, dt, WORLD_LIMIT);
        let locked = self.screen_locked;
        let (x, y) = if locked {
            let lo_x = -self.scaler + self.half_widths.0;
            let hi_x = self.scaler - self.half_widths.0;
            let lo_y = -self.scaler + self.half_widths.1;
            let hi_y = self.scaler - self.half_widths.1;
            let cx = if px > hi_x {
                hi_x
            } else if px < lo_x {
                lo_x
            } else {
                px
            };
            let cy = if py > hi_y {
                hi_y
            } else if py < lo_y {
                lo_y
            } else {
                py
            };
            (cx, cy)
        } else {
            (px, py)
        };
        self.pos = Vec2 { x, y };
    }

    /// One coordinate's integration: the base moves by rate times tick,
    /// held within the bound.
    fn integrate(base: Milli, rate: Milli, dt: Milli, bound: Milli) -> (r: Milli)
        requires
            -WORLD_LIMIT <= base <= WORLD_LIMIT,
            -MAG_LIMIT <= rate <= MAG_LIMIT,
            0 <= dt <= TICK_LIMIT,
            0 < bound <= WORLD_LIMIT,
        ensures
            r == sat_at(base + div_trunc(rate * dt, 1000), bound as int),
    {
        proof {
            assert(-10_000_000_000_000_000 <= rate * dt <= 10_000_000_000_000_000)
                by (nonlinear_arith)
                requires
                    -MAG_LIMIT <= rate <= MAG_LIMIT,
                    0 <= dt <= TICK_LIMIT,
            ;
        }
        let step = crate::num::div_t(rate * dt, 1000);
        proof {
            crate::geom::lemma_div_trunc_bound(rate * dt as int, 1000, 10_000_000_000_000_000);
        }
        let moved = base + step;
        if moved > bound {
            bound
        } else if moved < -bound {
            -bound
        } else {
            moved
        }
    }

    /// Write the current position into the spatial world as a staged
    /// move of the owned object.
    pub fn sync_pos(&self, world: &mut SpatialWorld)
        requires
            old(world).wf(),
            self.wf(),
        ensures
            final(world).wf(),
            final(world).staged@ =~= old(world).staged@.push(
                crate::physics::StagedOp::SetPos(self.id, self.pos),
            ),
            final(world).objects@ == old(world).objects@,
            final(world).watched == old(world).watched,
    {
        world.set_pos(self.id, self.pos);
    }
}

} // verus!
