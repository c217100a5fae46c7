//! Symbolic points of the level format: fixed coordinates, or offsets
//! relative to the spawner or to the tracked target, resolved to
//! concrete coordinates when a path or pattern is built.

use vstd::prelude::*;

use crate::geom::Vec2;

verus! {

/// A point expression: a fixed place, or an offset from the tracked
/// target's position or from the moving object's current position.
#[derive(Clone, Copy, Debug, PartialEq, Eq, Structural)]
pub enum Point {
    /// The carried coordinates themselves.
    Fixed(Vec2),
    /// The carried offset added to the tracked target's position.
    Player(Vec2),
    /// The carried offset added to the current position.
    Current(Vec2),
}

impl Point {
    /// The carried coordinates.
    pub open spec fn coords(self) -> Vec2 {
        match self {
            Point::Fixed(p) => p,
            Point::Player(p) => p,
            Point::Current(p) => p,
        }
    }

    /// The carried coordinates are within the magnitude bound.
    pub open spec fn wf(self) -> bool {
        self.coords().wf()
    }

    /// The y-axis reflection of a point expression.
    pub open spec fn mirrored_x(self) -> Point {
        match self {
            Point::Fixed(p) => Point::Fixed(Vec2 { x: (-p.x) as i64, y: p.y }),
            Point::Player(p) => Point::Player(Vec2 { x: (-p.x) as i64, y: p.y }),
            Point::Current(p) => Point::Current(Vec2 { x: (-p.x) as i64, y: p.y }),
        }
    }

    /// The x-axis reflection of a point expression.
    pub open spec fn mirrored_y(self) -> Point {
        match self {
            Point::Fixed(p) => Point::Fixed(Vec2 { x: p.x, y: (-p.y) as i64 }),
            Point::Player(p) => Point::Player(Vec2 { x: p.x, y: (-p.y) as i64 }),
            Point::Current(p) => Point::Current(Vec2 { x: p.x, y: (-p.y) as i64 }),
        }
    }

    /// Reflect the point expression across the y axis.
    pub fn mirror_x(&self) -> (r: Point)
        requires
            self.wf(),
        ensures
            r == self.mirrored_x(),
            r.wf(),
    {
        match *self {
            Point::Fixed(p) => Point::Fixed(p.mirror_x()),
            Point::Current(p) => Point::Current(p.mirror_x()),
            Point::Player(p) => Point::Player(p.mirror_x()),
        }
    }

    /// Reflect the point expression across the x axis.
    pub fn mirror_y(&self) -> (r: Point)
        requires
            self.wf(),
        ensures
            r == self.mirrored_y(),
            r.wf(),
    {
        match *self {
            Point::Fixed(p) => Point::Fixed(p.mirror_y()),
            Point::Current(p) => Point::Current(p.mirror_y()),
            Point::Player(p) => Point::Player(p.mirror_y()),
        }
    }

    /// The concrete coordinates a point expression resolves to, given
    /// the current position and the tracked target's position.
    pub open spec fn resolved(self, current: Vec2, player: Vec2) -> Vec2 {
        match self {
            Point::Fixed(p) => p,
            Point::Current(p) => Vec2 { x: (p.x + current.x) as i64, y: (p.y + current.y) as i64 },
            Point::Player(p) => Vec2 { x: (p.x + player.x) as i64, y: (p.y + player.y) as i64 },
        }
    }

    /// Resolve the point expression against the current position and the
    /// tracked target's position.
    pub fn eval(&self, current: Vec2, player: Vec2) -> (r: Vec2)
        requires
            self.wf(),
            current.wf(),
            player.wf(),
        ensures
            r == self.resolved(current, player),
    {
        match *self {
            Point::Fixed(p) => p,
            Point::Current(p) => p.add(current),
            Point::Player(p) => p.add(player),
        }
    }
}

} // verus!
