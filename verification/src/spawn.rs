//! Spawn descriptors of the level format: what to create, the paths and
//! pattern it comes with, and the repeat schedule.

use vstd::prelude::*;

use crate::geom::Vec2;
use crate::num::{Milli, MAG_LIMIT};
use crate::path::PathBuilder;
use crate::pattern::{Angle, Pattern, PatternBuilder};

verus! {

broadcast use vstd::seq_lib::group_seq_properties;

/// Descriptor of an enemy kind: its sprite, health, damage, and the
/// level event fired when it dies.
#[derive(Clone, Copy, Debug, PartialEq, Eq, Structural)]
pub struct Enemy {
    /// Sprite the enemy is drawn with.
    pub sprite: u64,
    /// Hit points.
    pub health: u64,
    /// Damage dealt on contact.
    pub damage: u64,
    /// Level event fired when the enemy dies.
    pub event_id: u64,
}

/// What a spawn creates: the player, or a described enemy.
#[derive(Clone, Copy, Debug, PartialEq, Eq, Structural)]
pub enum SpawnType {
    Enemy(Enemy),
    Player,
}

/// A spawn in flight: its kind, the paths the spawned entity will walk,
/// the emission pattern driving the creations, the remaining repeats and
/// their delay, and where the spawn is anchored.
pub struct Spawn {
    /// What to create.
    pub spawn_type: SpawnType,
    /// Paths the created entity will walk, in order.
    pub paths: Vec<PathBuilder>,
    /// Pattern whose shots drive the creations.
    pub pattern: Pattern,
    /// Activations left beyond the current one.
    pub repeat: u64,
    /// Delay between activations, in milliseconds.
    pub repeat_delay: Milli,
    /// Anchor the shot offsets are applied to.
    pub location: Vec2,
}


/// The projection of a spawn that determines its behavior: its kind,
/// the determining fields of every path builder, the pattern's model,
/// and the repeat schedule and anchor.
pub open spec fn spawn_core(s: Spawn) -> (
    SpawnType,
    Seq<
        (
            crate::path::PathType,
            Option<Milli>,
            Seq<crate::action::Action>,
            Option<crate::point::Point>,
            Option<Milli>,
            Option<Milli>,
            Option<crate::path::RotationDirection>,
            Option<Seq<crate::point::Point>>,
            Option<Milli>,
        ),
    >,
    crate::pattern::PatternModel,
    u64,
    Milli,
    Vec2,
) {
    (
        s.spawn_type,
        s.paths@.map_values(|pb: PathBuilder| crate::path::pb_core(pb)),
        s.pattern.model(),
        s.repeat,
        s.repeat_delay,
        s.location,
    )
}

/// Every path builder carries what its kind and the mirrors need.
pub open spec fn paths_wf(paths: Seq<PathBuilder>) -> bool {
    forall|i: int|
        0 <= i < paths.len() ==> {
            &&& (#[trigger] paths[i]).wf()
            &&& (paths[i].path_type is Arc ==> paths[i].center is Some && paths[i].direction
                is Some)
            &&& (paths[i].path_type is Curve ==> paths[i].points is Some)
        }
}

impl Spawn {
    /// Structural bounds of a spawn in flight.
    pub open spec fn wf(self) -> bool {
        &&& paths_wf(self.paths@)
        &&& self.pattern.wf()
        &&& 0 <= self.repeat_delay <= MAG_LIMIT
        &&& self.location.wf()
    }

    /// A copy of the spawn: every path builder and the pattern copied
    /// field for field.
    #[verifier::loop_isolation(false)]
    pub fn duplicate(&self) -> (r: Spawn)
        requires
            self.wf(),
        ensures
            r.wf(),
            spawn_core(r) == spawn_core(*self),
            r.spawn_type == self.spawn_type,
            r.repeat == self.repeat,
            r.repeat_delay == self.repeat_delay,
            r.location == self.location,
            r.pattern.active_patterns@ =~= self.pattern.active_patterns@,
            r.pattern == (Pattern { active_patterns: r.pattern.active_patterns, ..self.pattern }),
            r.paths@.len() == self.paths@.len(),
    {
        let n = self.paths.len();
        let mut paths: Vec<PathBuilder> = Vec::new();
        let mut i: usize = 0;
        while i < n
            invariant
                i <= n == self.paths@.len(),
                paths@.len() == i,
                paths_wf(self.paths@),
                forall|j: int|
                    0 <= j < i ==> crate::path::pb_core(#[trigger] paths@[j]) == crate::path::pb_core(
                        self.paths@[j],
                    ),
                forall|j: int|
                    0 <= j < paths@.len() ==> {
                        &&& (#[trigger] paths@[j]).wf()
                        &&& (paths@[j].path_type is Arc ==> paths@[j].center is Some
                            && paths@[j].direction is Some)
                        &&& (paths@[j].path_type is Curve ==> paths@[j].points is Some)
                    },
            decreases n - i,
        {
            let p = self.paths[i].duplicate();
            paths.push(p);
            i = i + 1;
        }
        let r = Spawn {
            spawn_type: self.spawn_type,
            paths,
            pattern: self.pattern.duplicate(),
            repeat: self.repeat,
            repeat_delay: self.repeat_delay,
            location: self.location,
        };
        proof {
            assert(r.pattern.model() =~= self.pattern.model());
            assert(r.paths@.map_values(|pb: PathBuilder| crate::path::pb_core(pb))
                =~= self.paths@.map_values(|pb: PathBuilder| crate::path::pb_core(pb)));
        }
        r
    }

    /// The conventional player spawn: created at a location, with a
    /// one-shot pattern aimed straight down.
    pub fn player(location: Vec2) -> (r: Spawn)
        requires
            location.wf(),
        ensures
            r.wf(),
            r.spawn_type is Player,
            r.location == (Vec2 { x: 0i64, y: 0i64 }),
            r.repeat == 0,
            r.pattern.start_angle == 270_000,
            r.pattern.stop_angle == 270_000,
    {
        let pattern = PatternBuilder::new().fixed_angle(Angle::Fixed(270_000));
        SpawnBuilder::new().spawn_type(SpawnType::Player).pattern(pattern).build(
            location,
            Vec2 { x: 0, y: 0 },
        )
    }
}

/// Builder of a `Spawn`.
pub struct SpawnBuilder {
    /// What to create; mandatory before `build`.
    pub spawn_type: Option<SpawnType>,
    /// Paths the created entity will walk.
    pub paths: Vec<PathBuilder>,
    /// Activations beyond the first.
    pub repeat: u64,
    /// Delay between activations.
    pub repeat_delay: Option<Milli>,
    /// Pattern builder; mandatory before `build`.
    pub pattern: Option<PatternBuilder>,
    /// Anchor of the spawn.
    pub location: Vec2,
}

impl SpawnBuilder {
    /// Structural bounds of a spawn builder.
    pub open spec fn wf(self) -> bool {
        &&& paths_wf(self.paths@)
        &&& (self.pattern matches Some(pb) ==> pb.wf() && pb.start_angle is Some && pb.stop_angle
            is Some)
        &&& (self.repeat_delay matches Some(d) ==> 0 <= d <= MAG_LIMIT)
        &&& self.location.wf()
    }

    /// An empty builder: no kind, no paths, no pattern, anchored at the
    /// origin.
    pub fn new() -> (r: SpawnBuilder)
        ensures
            r.wf(),
            r.spawn_type is None,
            r.paths@ =~= Seq::<PathBuilder>::empty(),
            r.repeat == 0,
            r.repeat_delay is None,
            r.pattern is None,
            r.location == (Vec2 { x: 0i64, y: 0i64 }),
    {
        SpawnBuilder {
            spawn_type: None,
            paths: Vec::new(),
            repeat: 0,
            repeat_delay: None,
            pattern: None,
            location: Vec2 { x: 0, y: 0 },
        }
    }

    /// Set what to create.
    pub fn spawn_type(self, spawn_type: SpawnType) -> (r: SpawnBuilder)
        ensures
            r == (SpawnBuilder { spawn_type: Some(spawn_type), ..self }),
    {
        SpawnBuilder { spawn_type: Some(spawn_type), ..self }
    }

    /// Set the pattern builder.
    pub fn pattern(self, pattern: PatternBuilder) -> (r: SpawnBuilder)
        ensures
            r == (SpawnBuilder { pattern: Some(pattern), ..self }),
    {
        SpawnBuilder { pattern: Some(pattern), ..self }
    }

    /// Append paths for the created entity to walk.
    pub fn paths(self, paths: Vec<PathBuilder>) -> (r: SpawnBuilder)
        ensures
            r.paths@ =~= self.paths@ + paths@,
            r.spawn_type == self.spawn_type,
            r.repeat == self.repeat,
            r.repeat_delay == self.repeat_delay,
            r.pattern == self.pattern,
            r.location == self.location,
    {
        let mut s = self;
        let mut more = paths;
        s.paths.append(&mut more);
        s
    }

    /// Set the number of activations beyond the first.
    pub fn repeat(self, repeat: u64) -> (r: SpawnBuilder)
        ensures
            r == (SpawnBuilder { repeat, ..self }),
    {
        SpawnBuilder { repeat, ..self }
    }

    /// Set the delay between activations.
    pub fn repeat_delay(self, repeat_delay: Milli) -> (r: SpawnBuilder)
        ensures
            r == (SpawnBuilder { repeat_delay: Some(repeat_delay), ..self }),
    {
        SpawnBuilder { repeat_delay: Some(repeat_delay), ..self }
    }

    /// Set the anchor of the spawn.
    pub fn location(self, location: Vec2) -> (r: SpawnBuilder)
        ensures
            r == (SpawnBuilder { location, ..self }),
    {
        SpawnBuilder { location, ..self }
    }

    /// Reflect the whole spawn across the y axis: every path, the
    /// pattern, and the anchor's x coordinate.
    #[verifier::loop_isolation(false)]
    pub fn mirror_x(self) -> (r: SpawnBuilder)
        requires
            self.wf(),
            self.pattern is Some,
            self.location.x > i64::MIN,
        ensures
            r.wf(),
            r.spawn_type == self.spawn_type,
            r.repeat == self.repeat,
            r.repeat_delay == self.repeat_delay,
            r.location.x == -self.location.x,
            r.location.y == self.location.y,
            r.paths@.len() == self.paths@.len(),
            r.pattern matches Some(pb) && pb == (PatternBuilder {
                start_angle: Some(self.pattern.unwrap().start_angle.unwrap().mirrored_x()),
                stop_angle: Some(self.pattern.unwrap().stop_angle.unwrap().mirrored_x()),
                ..self.pattern.unwrap()
            }),
    {
        let n = self.paths.len();
        let mut paths: Vec<PathBuilder> = Vec::new();
        let mut i: usize = 0;
        while i < n
            invariant
                i <= n == self.paths@.len(),
                paths@.len() == i,
                paths_wf(self.paths@),
                paths_wf(paths@),
            decreases n - i,
        {
            let p = self.paths[i].mirror_x();
            proof {
                assert(paths_wf(paths@.push(p)));
            }
            paths.push(p);
            i = i + 1;
        }
        let pb = match self.pattern {
            Some(pb) => pb,
            None => PatternBuilder::new(),
        };
        SpawnBuilder {
            spawn_type: self.spawn_type,
            paths,
            repeat: self.repeat,
            repeat_delay: self.repeat_delay,
            pattern: Some(pb.mirror_x()),
            location: Vec2 { x: -self.location.x, y: self.location.y },
        }
    }

    /// Reflect the whole spawn across the x axis: every path, the
    /// pattern, and the anchor's y coordinate.
    #[verifier::loop_isolation(false)]
    pub fn mirror_y(self) -> (r: SpawnBuilder)
        requires
            self.wf(),
            self.pattern is Some,
            self.location.y > i64::MIN,
        ensures
            r.wf(),
            r.spawn_type == self.spawn_type,
            r.repeat == self.repeat,
            r.repeat_delay == self.repeat_delay,
            r.location.x == self.location.x,
            r.location.y == -self.location.y,
            r.paths@.len() == self.paths@.len(),
            r.pattern matches Some(pb) && pb == (PatternBuilder {
                start_angle: Some(self.pattern.unwrap().stop_angle.unwrap().mirrored_y()),
                stop_angle: Some(self.pattern.unwrap().start_angle.unwrap().mirrored_y()),
                ..self.pattern.unwrap()
            }),
    {
        let n = self.paths.len();
        let mut paths: Vec<PathBuilder> = Vec::new();
        let mut i: usize = 0;
        while i < n
            invariant
                i <= n == self.paths@.len(),
                paths@.len() == i,
                paths_wf(self.paths@),
                paths_wf(paths@),
            decreases n - i,
        {
            let p = self.paths[i].mirror_y();
            proof {
                assert(paths_wf(paths@.push(p)));
            }
            paths.push(p);
            i = i + 1;
        }
        let pb = match self.pattern {
            Some(pb) => pb,
            None => PatternBuilder::new(),
        };
        SpawnBuilder {
            spawn_type: self.spawn_type,
            paths,
            repeat: self.repeat,
            repeat_delay: self.repeat_delay,
            pattern: Some(pb.mirror_y()),
            location: Vec2 { x: self.location.x, y: -self.location.y },
        }
    }

    /// Build the spawn: the pattern is built against the given
    /// positions, and a missing repeat delay means none. Kind and
    /// pattern must have been set.
    pub fn build(self, current_pos: Vec2, player_pos: Vec2) -> (r: Spawn)
        requires
            self.wf(),
            self.spawn_type is Some,
            self.pattern is Some,
            current_pos.wf(),
            player_pos.wf(),
        ensures
            r.wf(),
            r.spawn_type == self.spawn_type.unwrap(),
            r.paths@ == self.paths@,
            r.repeat == self.repeat,
            r.repeat_delay == (match self.repeat_delay {
                Some(d) => d,
                None => 0i64,
            }),
            r.location == self.location,
            r.pattern.amount == self.pattern.unwrap().amount,
            r.pattern.repeat == self.pattern.unwrap().repeat,
            r.pattern.start_angle == self.pattern.unwrap().start_angle.unwrap().resolved(
                current_pos,
                player_pos,
            ),
            r.pattern.stop_angle == self.pattern.unwrap().stop_angle.unwrap().resolved(
                current_pos,
                player_pos,
            ),
            crate::pattern::model_pending(r.pattern.model()) == self.pattern.unwrap().repeat
                * self.pattern.unwrap().amount + self.pattern.unwrap().amount,
    {
        let st = match self.spawn_type {
            Some(s) => s,
            None => SpawnType::Player,
        };
        let pb = match self.pattern {
            Some(p) => p,
            None => PatternBuilder::new(),
        };
        let rd = match self.repeat_delay {
            Some(d) => d,
            None => 0,
        };
        Spawn {
            spawn_type: st,
            pattern: pb.build(current_pos, player_pos),
            paths: self.paths,
            repeat: self.repeat,
            repeat_delay: rd,
            location: self.location,
        }
    }
}


/// A field-for-field copy of a list of path builders.
#[verifier::loop_isolation(false)]
pub fn duplicate_paths(paths: &Vec<PathBuilder>) -> (r: Vec<PathBuilder>)
    requires
        paths_wf(paths@),
    ensures
        paths_wf(r@),
        r@.len() == paths@.len(),
{
    let n = paths.len();
    let mut out: Vec<PathBuilder> = Vec::new();
    let mut i: usize = 0;
    while i < n
        invariant
            i <= n == paths@.len(),
            out@.len() == i,
            paths_wf(paths@),
            paths_wf(out@),
        decreases n - i,
    {
        let p = paths[i].duplicate();
        proof {
            assert(paths_wf(out@.push(p)));
        }
        out.push(p);
        i = i + 1;
    }
    out
}

} // verus!
