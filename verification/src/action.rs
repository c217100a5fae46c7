//! Delayed actions a path carries, and the bullet descriptor they fire.

use vstd::prelude::*;

use crate::num::{Milli, MAG_LIMIT};
use crate::pattern::PatternBuilder;

verus! {

/// How a bullet moves after it spawns.
#[derive(Clone, Copy, Debug, PartialEq, Eq, Structural)]
pub enum Behavior {
    /// Keeps its initial velocity.
    Straight,
    /// Decelerates against its heading for the carried duration
    /// (milliseconds) at the carried rate (thousandths of a unit per
    /// second per second).
    Deaccelerate(Milli, Milli),
}

/// Descriptor of a bullet kind: its sprite, motion behavior and damage.
#[derive(Clone, Copy, Debug, PartialEq, Eq, Structural)]
pub struct Bullet {
    /// Sprite the bullet is drawn with.
    pub sprite: u64,
    /// Motion behavior after spawning.
    pub behavior: Behavior,
    /// Damage dealt on contact.
    pub damage: u64,
}

impl Bullet {
    /// Carried magnitudes within the simulation's bound.
    pub open spec fn wf(self) -> bool {
        match self.behavior {
            Behavior::Straight => true,
            Behavior::Deaccelerate(t, a) => {
                &&& -MAG_LIMIT <= t <= MAG_LIMIT
                &&& 0 <= a <= MAG_LIMIT
            },
        }
    }

    /// Bundle a bullet descriptor.
    pub fn new(sprite: u64, behavior: Behavior, damage: u64) -> (r: Bullet)
        ensures
            r == (Bullet { sprite, behavior, damage }),
    {
        Bullet { sprite, behavior, damage }
    }
}

/// What a delayed action does when it fires.
#[derive(Clone, Copy, Debug, PartialEq, Eq, Structural)]
pub enum ActionType {
    /// Start emitting the described bullets with the described pattern.
    Bullets(Bullet, PatternBuilder),
    /// Do nothing.
    Idle,
}

impl ActionType {
    /// Any carried pattern builder is well formed.
    pub open spec fn wf(self) -> bool {
        match self {
            ActionType::Bullets(b, pb) => b.wf() && pb.wf() && pb.start_angle is Some
                && pb.stop_angle is Some,
            ActionType::Idle => true,
        }
    }

    /// The y-axis reflection of an action: any carried pattern has both
    /// sweep endpoints mirrored.
    pub open spec fn mirrored_x(self) -> ActionType {
        match self {
            ActionType::Bullets(b, pb) => ActionType::Bullets(
                b,
                PatternBuilder {
                    start_angle: Some(pb.start_angle.unwrap().mirrored_x()),
                    stop_angle: Some(pb.stop_angle.unwrap().mirrored_x()),
                    ..pb
                },
            ),
            ActionType::Idle => ActionType::Idle,
        }
    }

    /// The x-axis reflection of an action: any carried pattern has its
    /// sweep endpoints mirrored and exchanged.
    pub open spec fn mirrored_y(self) -> ActionType {
        match self {
            ActionType::Bullets(b, pb) => ActionType::Bullets(
                b,
                PatternBuilder {
                    start_angle: Some(pb.stop_angle.unwrap().mirrored_y()),
                    stop_angle: Some(pb.start_angle.unwrap().mirrored_y()),
                    ..pb
                },
            ),
            ActionType::Idle => ActionType::Idle,
        }
    }

    /// Reflect any carried pattern across the y axis.
    pub fn mirror_x(&self) -> (r: ActionType)
        requires
            self.wf(),
        ensures
            r == self.mirrored_x(),
            r.wf(),
    {
        match *self {
            ActionType::Bullets(b, ref pb) => ActionType::Bullets(b, pb.mirror_x()),
            ActionType::Idle => ActionType::Idle,
        }
    }

    /// Reflect any carried pattern across the x axis.
    pub fn mirror_y(&self) -> (r: ActionType)
        requires
            self.wf(),
        ensures
            r == self.mirrored_y(),
            r.wf(),
    {
        match *self {
            ActionType::Bullets(b, ref pb) => ActionType::Bullets(b, pb.mirror_y()),
            ActionType::Idle => ActionType::Idle,
        }
    }
}

/// A delayed action: what to do, and how long after its path finishes.
#[derive(Clone, Copy, Debug, PartialEq, Eq, Structural)]
pub struct Action {
    /// Delay before the action fires, in milliseconds.
    pub delay: Milli,
    /// What the action does.
    pub action_type: ActionType,
}

impl Action {
    /// Delay within bounds and the payload well formed.
    pub open spec fn wf(self) -> bool {
        0 <= self.delay <= MAG_LIMIT && self.action_type.wf()
    }

    /// The y-axis reflection of a delayed action.
    pub open spec fn mirrored_x(self) -> Action {
        Action { delay: self.delay, action_type: self.action_type.mirrored_x() }
    }

    /// The x-axis reflection of a delayed action.
    pub open spec fn mirrored_y(self) -> Action {
        Action { delay: self.delay, action_type: self.action_type.mirrored_y() }
    }

    /// Reflect the action across the y axis.
    pub fn mirror_x(&self) -> (r: Action)
        requires
            self.wf(),
        ensures
            r == self.mirrored_x(),
            r.wf(),
    {
        Action { delay: self.delay, action_type: self.action_type.mirror_x() }
    }

    /// Reflect the action across the x axis.
    pub fn mirror_y(&self) -> (r: Action)
        requires
            self.wf(),
        ensures
            r == self.mirrored_y(),
            r.wf(),
    {
        Action { delay: self.delay, action_type: self.action_type.mirror_y() }
    }
}

} // verus!
