//! Spatial world: per-object position, shape, interaction group and
//! payload, with staged mutation, a collision pass and a proximity pass.
//!
//! Adds, removals and position writes are staged and applied by an
//! explicit commit, so the live object table is never mutated while it
//! is being iterated. The collision pass evaluates precise contact only
//! against the single watched object (the player's hitbox): a curtain
//! game has one precise hitbox and thousands of bullets, so full
//! pairwise contact would buy nothing. The proximity pass compares each
//! object's overlap with the boundary volume (the screen area) before
//! and after the commit and reports the transitions, which is what lets
//! bullets notice they have left the screen.

use vstd::prelude::*;

use crate::events::PhysicsData;
use crate::geom::Vec2;
use crate::num::Milli;

verus! {

broadcast use vstd::seq_lib::group_seq_properties;

/// Interaction groups with asymmetric collision rules: interactive
/// objects collide with interactive and semi-interactive ones;
/// semi-interactive objects also collide with non-interactive ones;
/// non-interactive objects collide with semi-interactive ones only.
#[derive(Clone, Copy, Debug, PartialEq, Eq, Structural)]
pub enum PhysicsInteraction {
    Interactive,
    SemiInteractive,
    NonInteractive,
}

/// Whether two interaction groups generate collision events against
/// each other.
pub open spec fn groups_interact(a: PhysicsInteraction, b: PhysicsInteraction) -> bool {
    match (a, b) {
        (PhysicsInteraction::Interactive, PhysicsInteraction::Interactive) => true,
        (PhysicsInteraction::Interactive, PhysicsInteraction::SemiInteractive) => true,
        (PhysicsInteraction::SemiInteractive, PhysicsInteraction::Interactive) => true,
        (PhysicsInteraction::SemiInteractive, PhysicsInteraction::NonInteractive) => true,
        (PhysicsInteraction::NonInteractive, PhysicsInteraction::SemiInteractive) => true,
        _ => false,
    }
}

/// The interaction relation is symmetric: whichever side asks, the same
/// pairs of groups generate events.
pub proof fn lemma_groups_interact_symmetric(a: PhysicsInteraction, b: PhysicsInteraction)
    ensures
        groups_interact(a, b) == groups_interact(b, a),
{
}

/// Collision shape: a circle of the carried radius, or an axis-aligned
/// box of the carried half-widths, in thousandths of a unit.
#[derive(Clone, Copy, Debug, PartialEq, Eq, Structural)]
pub enum Shape {
    Ball(Milli),
    Box(Milli, Milli),
}

impl Shape {
    /// Carried extents nonnegative and bounded.
    pub open spec fn wf(self) -> bool {
        match self {
            Shape::Ball(r) => 0 <= r <= 100_000_000,
            Shape::Box(hx, hy) => 0 <= hx <= 100_000_000 && 0 <= hy <= 100_000_000,
        }
    }
}

/// One collision between two objects, with both payloads.
pub struct Collision<D> {
    /// Identity the first object's payload names.
    pub id1: u64,
    /// Identity the second object's payload names.
    pub id2: u64,
    /// Payload of the first object.
    pub data1: D,
    /// Payload of the second object.
    pub data2: D,
}

/// One spatial object.
pub struct SpatialObject {
    /// Key of the object in the spatial world.
    pub id: u64,
    /// Position of the object's center.
    pub pos: Vec2,
    /// Collision shape around the center.
    pub shape: Shape,
    /// Interaction group the object collides under.
    pub group: PhysicsInteraction,
    /// Immutable payload: owning entity and semantic tag.
    pub data: PhysicsData,
}

/// Whether two objects currently overlap: their extents overlap along
/// both axes, and two balls must also have their centers within the sum
/// of their radii.
pub open spec fn overlapping(a: SpatialObject, b: SpatialObject) -> bool {
    let (ax, ay) = shape_extents(a.shape);
    let (bx, by) = shape_extents(b.shape);
    let dx = abs_diff(a.pos.x as int, b.pos.x as int);
    let dy = abs_diff(a.pos.y as int, b.pos.y as int);
    &&& dx <= ax + bx
    &&& dy <= ay + by
    &&& match (a.shape, b.shape) {
        (Shape::Ball(r1), Shape::Ball(r2)) => dx * dx + dy * dy <= (r1 + r2) * (r1 + r2),
        _ => true,
    }
}

/// Half-widths of a shape along the two axes.
pub open spec fn shape_extents(s: Shape) -> (int, int) {
    match s {
        Shape::Ball(r) => (r as int, r as int),
        Shape::Box(hx, hy) => (hx as int, hy as int),
    }
}

/// Magnitude of a difference.
pub open spec fn abs_diff(a: int, b: int) -> int {
    if a >= b {
        a - b
    } else {
        b - a
    }
}

/// A staged mutation, applied at the next commit.
pub enum StagedOp {
    /// Insert this object.
    Add(SpatialObject),
    /// Remove the object with this key.
    Remove(u64),
    /// Move the object with this key to this position.
    SetPos(u64, Vec2),
}

/// One proximity transition against the boundary volume.
pub struct ProximityReport {
    /// Identity the boundary's payload names.
    pub id1: u64,
    /// Identity the crossing object's payload names.
    pub id2: u64,
    /// Payload of the boundary volume.
    pub data1: PhysicsData,
    /// Payload of the crossing object.
    pub data2: PhysicsData,
    /// Whether the object now overlaps the boundary (it entered) or no
    /// longer does (it left).
    pub entered: bool,
}

/// The spatial world: the live object table, the staged mutations, the
/// key of the watched object whose contacts are evaluated, and the key
/// of the boundary volume whose proximity transitions are reported.
pub struct SpatialWorld {
    /// Live objects, keyed by unique ids.
    pub objects: Vec<SpatialObject>,
    /// Mutations staged since the last commit, in staging order.
    pub staged: Vec<StagedOp>,
    /// Key of the watched object, if one was added.
    pub watched: Option<u64>,
    /// Key of the boundary volume, if one was added.
    pub boundary: Option<u64>,
}

/// Largest magnitude a spatial position can have.
pub const WORLD_LIMIT: i64 = 4_000_000_000;

impl SpatialObject {
    /// Structural bounds of one object.
    pub open spec fn wf(self) -> bool {
        &&& -WORLD_LIMIT <= self.pos.x <= WORLD_LIMIT
        &&& -WORLD_LIMIT <= self.pos.y <= WORLD_LIMIT
        &&& self.shape.wf()
    }
}

impl SpatialWorld {
    /// Live object keys are unique, and every object and staged
    /// position is within bounds.
    pub open spec fn wf(self) -> bool {
        &&& (forall|i: int, j: int|
            0 <= i < j < self.objects@.len() ==> (#[trigger] self.objects@[i]).id != (
            #[trigger] self.objects@[j]).id)
        &&& (forall|i: int| 0 <= i < self.objects@.len() ==> (#[trigger] self.objects@[i]).wf())
        &&& (forall|i: int|
            0 <= i < self.staged@.len() ==> staged_wf(#[trigger] self.staged@[i]))
    }

    /// Some live object has this key.
    pub open spec fn has_object(self, id: u64) -> bool {
        exists|i: int| 0 <= i < self.objects@.len() && (#[trigger] self.objects@[i]).id == id
    }

    /// An empty world with nothing staged, nothing watched and no
    /// boundary.
    pub fn new() -> (r: SpatialWorld)
        ensures
            r.wf(),
            r.objects@ =~= Seq::<SpatialObject>::empty(),
            r.staged@ =~= Seq::<StagedOp>::empty(),
            r.watched is None,
            r.boundary is None,
    {
        SpatialWorld { objects: Vec::new(), staged: Vec::new(), watched: None, boundary: None }
    }

    /// Stage an insertion. The object carrying the player's payload
    /// byte becomes the watched one, whose precise contacts the
    /// collision pass evaluates; an interactive object with the neutral
    /// payload byte becomes the boundary volume, whose proximity
    /// transitions the pass reports.
    pub fn add(&mut self, id: u64, pos: Vec2, shape: Shape, group: PhysicsInteraction, data: PhysicsData)
        requires
            old(self).wf(),
            -WORLD_LIMIT <= pos.x <= WORLD_LIMIT,
            -WORLD_LIMIT <= pos.y <= WORLD_LIMIT,
            shape.wf(),
        ensures
            final(self).wf(),
            final(self).staged@ =~= old(self).staged@.push(
                StagedOp::Add(SpatialObject { id, pos, shape, group, data }),
            ),
            final(self).objects@ == old(self).objects@,
            final(self).watched == (if data.group == 1u8 {
                Some(id)
            } else {
                old(self).watched
            }),
            final(self).boundary == (if group is Interactive && data.group == 0u8 {
                Some(id)
            } else {
                old(self).boundary
            }),
    {
        if data.group == 1 {
            self.watched = Some(id);
        }
        if matches!(group, PhysicsInteraction::Interactive) && data.group == 0 {
            self.boundary = Some(id);
        }
        self.staged.push(StagedOp::Add(SpatialObject { id, pos, shape, group, data }));
    }

    /// Stage a removal: the object is excluded from the next collision
    /// pass after the commit, but stays queryable until then.
    pub fn remove(&mut self, id: u64)
        requires
            old(self).wf(),
        ensures
            final(self).wf(),
            final(self).staged@ =~= old(self).staged@.push(StagedOp::Remove(id)),
            final(self).objects@ == old(self).objects@,
            final(self).watched == old(self).watched,
            final(self).boundary == old(self).boundary,
    {
        self.staged.push(StagedOp::Remove(id));
    }

    /// Stage a position write; several writes to one key in one step
    /// coalesce to the last, since the staged list applies in order.
    pub fn set_pos(&mut self, id: u64, pos: Vec2)
        requires
            old(self).wf(),
            -WORLD_LIMIT <= pos.x <= WORLD_LIMIT,
            -WORLD_LIMIT <= pos.y <= WORLD_LIMIT,
        ensures
            final(self).wf(),
            final(self).staged@ =~= old(self).staged@.push(StagedOp::SetPos(id, pos)),
            final(self).objects@ == old(self).objects@,
            final(self).watched == old(self).watched,
            final(self).boundary == old(self).boundary,
    {
        self.staged.push(StagedOp::SetPos(id, pos));
    }

    /// The last staged or live position of an object: staged writes win
    /// over the live table, later ones over earlier ones.
    pub open spec fn effective_pos(self, id: u64) -> Option<Vec2> {
        effective_pos_at(self.objects@, self.staged@, id)
    }

    /// Read an object's position, staged writes included.
    #[verifier::loop_isolation(false)]
    pub fn get_pos(&self, id: u64) -> (r: Option<Vec2>)
        requires
            self.wf(),
        ensures
            r == self.effective_pos(id),
    {
        let mut k: usize = self.staged.len();
        while k > 0
            invariant
                k <= self.staged@.len(),
                effective_pos_at(self.objects@, self.staged@, id) == effective_pos_at(
                    self.objects@,
                    self.staged@.take(k as int),
                    id,
                ),
            decreases k,
        {
            k = k - 1;
            proof {
                assert(self.staged@.take(k + 1).drop_last() =~= self.staged@.take(k as int));
                assert(self.staged@.take(k + 1).last() == self.staged@[k as int]);
            }
            match &self.staged[k] {
                StagedOp::SetPos(sid, p) => {
                    if *sid == id {
                        return Some(*p);
                    }
                },
                StagedOp::Add(o) => {
                    if o.id == id {
                        return Some(o.pos);
                    }
                },
                StagedOp::Remove(_) => {},
            }
        }
        proof {
            assert(self.staged@.take(0) =~= Seq::<StagedOp>::empty());
        }
        let mut i: usize = 0;
        while i < self.objects.len()
            invariant
                i <= self.objects@.len(),
                live_pos(self.objects@, id) == live_pos(self.objects@.skip(i as int), id),
            decreases self.objects@.len() - i,
        {
            proof {
                assert(self.objects@.skip(i as int).first() == self.objects@[i as int]);
                assert(self.objects@.skip(i as int).drop_first() =~= self.objects@.skip(
                    i as int + 1,
                ));
            }
            if self.objects[i].id == id {
                return Some(self.objects[i].pos);
            }
            i = i + 1;
        }
        proof {
            assert(self.objects@.skip(self.objects@.len() as int) =~= Seq::<
                SpatialObject,
            >::empty());
        }
        None
    }

    /// Apply every staged mutation to the live table, in staging order,
    /// and clear the staged list.
    #[verifier::loop_isolation(false)]
    pub fn commit(&mut self)
        requires
            old(self).wf(),
        ensures
            final(self).wf(),
            final(self).objects@ =~= apply_staged(old(self).objects@, old(self).staged@),
            final(self).staged@ =~= Seq::<StagedOp>::empty(),
            final(self).watched == old(self).watched,
            final(self).boundary == old(self).boundary,
    {
        let mut ops: Vec<StagedOp> = Vec::new();
        core::mem::swap(&mut ops, &mut self.staged);
        let n = ops.len();
        let mut k: usize = 0;
        while k < n
            invariant
                k <= n == ops@.len(),
                self.staged@ =~= Seq::<StagedOp>::empty(),
                self.watched == old(self).watched,
                self.boundary == old(self).boundary,
                forall|i: int| 0 <= i < n ==> staged_wf(#[trigger] ops@[i]),
                objects_wf(self.objects@),
                self.objects@ =~= apply_staged(old(self).objects@, ops@.take(k as int)),
            decreases n - k,
        {
            proof {
                assert(ops@.take(k + 1).drop_last() =~= ops@.take(k as int));
                assert(ops@.take(k + 1).last() == ops@[k as int]);
            }
            let ghost pre = self.objects@;
            match &ops[k] {
                StagedOp::Add(o) => {
                    self.remove_now(o.id);
                    let obj = SpatialObject {
                        id: o.id,
                        pos: o.pos,
                        shape: o.shape,
                        group: o.group,
                        data: o.data,
                    };
                    proof {
                        lemma_remove_id_gone(pre, o.id);
                    }
                    self.objects.push(obj);
                    proof {
                        let post = self.objects@;
                        assert forall|a: int, b: int|
                            0 <= a < b < post.len() implies (#[trigger] post[a]).id != (
                        #[trigger] post[b]).id by {
                            if b == post.len() - 1 {
                                assert(remove_id(pre, o.id).contains(post[a]));
                            }
                        }
                    }
                },
                StagedOp::Remove(rid) => {
                    self.remove_now(*rid);
                },
                StagedOp::SetPos(sid, p) => {
                    self.set_pos_now(*sid, *p);
                },
            }
            k = k + 1;
        }
        proof {
            assert(ops@.take(n as int) =~= ops@);
        }
    }

    /// Remove the object with this key from the live table at once.
    #[verifier::loop_isolation(false)]
    fn remove_now(&mut self, id: u64)
        requires
            objects_wf(old(self).objects@),
        ensures
            objects_wf(final(self).objects@),
            final(self).objects@ =~= remove_id(old(self).objects@, id),
            final(self).staged@ == old(self).staged@,
            final(self).watched == old(self).watched,
            final(self).boundary == old(self).boundary,
    {
        let n = self.objects.len();
        let mut out: Vec<SpatialObject> = Vec::new();
        let mut i: usize = 0;
        while i < n
            invariant
                i <= n == self.objects@.len(),
                *self == *old(self),
                out@ =~= remove_id(self.objects@.take(i as int), id),
            decreases n - i,
        {
            proof {
                assert(self.objects@.take(i + 1).drop_last() =~= self.objects@.take(i as int));
                assert(self.objects@.take(i + 1).last() == self.objects@[i as int]);
            }
            let keep = self.objects[i].id != id;
            if keep {
                let o = SpatialObject {
                    id: self.objects[i].id,
                    pos: self.objects[i].pos,
                    shape: self.objects[i].shape,
                    group: self.objects[i].group,
                    data: self.objects[i].data,
                };
                out.push(o);
            }
            i = i + 1;
        }
        proof {
            assert(self.objects@.take(n as int) =~= self.objects@);
        }
        self.objects = out;
        proof {
            lemma_remove_id_wf(old(self).objects@, id);
        }
    }

    /// Move the object with this key at once, if it is live.
    #[verifier::loop_isolation(false)]
    fn set_pos_now(&mut self, id: u64, pos: Vec2)
        requires
            objects_wf(old(self).objects@),
            -WORLD_LIMIT <= pos.x <= WORLD_LIMIT,
            -WORLD_LIMIT <= pos.y <= WORLD_LIMIT,
        ensures
            objects_wf(final(self).objects@),
            final(self).objects@ =~= move_id(old(self).objects@, id, pos),
            final(self).staged@ == old(self).staged@,
            final(self).watched == old(self).watched,
            final(self).boundary == old(self).boundary,
    {
        let n = self.objects.len();
        let ghost pre = *self;
        let mut i: usize = 0;
        while i < n
            invariant
                i <= n == self.objects@.len(),
                self.staged@ == pre.staged@,
                self.watched == pre.watched,
                self.boundary == pre.boundary,
                objects_wf(self.objects@),
                self.objects@ =~= move_id(pre.objects@, id, pos).take(i as int) + pre.objects@.skip(
                    i as int,
                ),
            decreases n - i,
        {
            if self.objects[i].id == id {
                let o = SpatialObject {
                    id,
                    pos,
                    shape: self.objects[i].shape,
                    group: self.objects[i].group,
                    data: self.objects[i].data,
                };
                self.objects[i] = o;
            }
            i = i + 1;
        }
        proof {
            assert(self.objects@ =~= move_id(pre.objects@, id, pos));
        }
    }
}

/// Sequence-level well-formedness of a live object table.
pub open spec fn objects_wf(objs: Seq<SpatialObject>) -> bool {
    &&& (forall|i: int, j: int|
        0 <= i < j < objs.len() ==> (#[trigger] objs[i]).id != (#[trigger] objs[j]).id)
    &&& (forall|i: int| 0 <= i < objs.len() ==> (#[trigger] objs[i]).wf())
}

/// A staged mutation carries only bounded data.
pub open spec fn staged_wf(op: StagedOp) -> bool {
    match op {
        StagedOp::Add(o) => o.wf(),
        StagedOp::Remove(_) => true,
        StagedOp::SetPos(_, p) => -WORLD_LIMIT <= p.x <= WORLD_LIMIT && -WORLD_LIMIT <= p.y
            <= WORLD_LIMIT,
    }
}

/// The table with every object of one key dropped, in order.
pub open spec fn remove_id(objs: Seq<SpatialObject>, id: u64) -> Seq<SpatialObject>
    decreases objs.len(),
{
    if objs.len() == 0 {
        Seq::empty()
    } else {
        let rest = remove_id(objs.drop_last(), id);
        if objs.last().id == id {
            rest
        } else {
            rest.push(objs.last())
        }
    }
}

/// The table with the object of one key moved to a position.
pub open spec fn move_id(objs: Seq<SpatialObject>, id: u64, pos: Vec2) -> Seq<SpatialObject> {
    objs.map_values(
        |o: SpatialObject|
            if o.id == id {
                SpatialObject { pos, ..o }
            } else {
                o
            },
    )
}

/// The table after a list of staged mutations, applied in order: an add
/// replaces any object of the same key, a removal drops it, a position
/// write moves it.
pub open spec fn apply_staged(objs: Seq<SpatialObject>, ops: Seq<StagedOp>) -> Seq<SpatialObject>
    decreases ops.len(),
{
    if ops.len() == 0 {
        objs
    } else {
        let prev = apply_staged(objs, ops.drop_last());
        match ops.last() {
            StagedOp::Add(o) => remove_id(prev, o.id).push(o),
            StagedOp::Remove(id) => remove_id(prev, id),
            StagedOp::SetPos(id, p) => move_id(prev, id, p),
        }
    }
}

proof fn lemma_remove_id_wf(objs: Seq<SpatialObject>, id: u64)
    requires
        objects_wf(objs),
    ensures
        objects_wf(remove_id(objs, id)),
        remove_id(objs, id).len() <= objs.len(),
        forall|k: int|
            0 <= k < remove_id(objs, id).len() ==> objs.contains(#[trigger] remove_id(objs, id)[k]),
    decreases objs.len(),
{
    if objs.len() > 0 {
        assert(objects_wf(objs.drop_last()));
        lemma_remove_id_wf(objs.drop_last(), id);
        let rest = remove_id(objs.drop_last(), id);
        assert forall|k: int|
            0 <= k < remove_id(objs, id).len() implies objs.contains(
            #[trigger] remove_id(objs, id)[k],
        ) by {
            if objs.last().id != id && k == remove_id(objs, id).len() - 1 {
                assert(objs[objs.len() - 1] == objs.last());
            } else {
                assert(objs.drop_last().contains(remove_id(objs, id)[k]));
                let w = choose|w: int|
                    0 <= w < objs.drop_last().len() && objs.drop_last()[w] == remove_id(
                        objs,
                        id,
                    )[k];
                assert(objs[w] == remove_id(objs, id)[k]);
            }
        }
        if objs.last().id != id {
            let post = remove_id(objs, id);
            assert forall|a: int, b: int|
                0 <= a < b < post.len() implies (#[trigger] post[a]).id != (
            #[trigger] post[b]).id by {
                if b == post.len() - 1 {
                    assert(objs.drop_last().contains(post[a]));
                    let w = choose|w: int|
                        0 <= w < objs.drop_last().len() && objs.drop_last()[w] == post[a];
                    assert(objs[w] == post[a]);
                    assert(objs.last() == objs[objs.len() - 1]);
                }
            }
        }
    }
}

/// After removing a key, no object of that key remains.
proof fn lemma_remove_id_gone(objs: Seq<SpatialObject>, id: u64)
    ensures
        forall|k: int| 0 <= k < remove_id(objs, id).len() ==> (#[trigger] remove_id(objs, id)[k]).id != id,
    decreases objs.len(),
{
    if objs.len() > 0 {
        lemma_remove_id_gone(objs.drop_last(), id);
    }
}

/// The position the live table gives one key.
pub open spec fn live_pos(objs: Seq<SpatialObject>, id: u64) -> Option<Vec2>
    decreases objs.len(),
{
    if objs.len() == 0 {
        None::<Vec2>
    } else if objs.first().id == id {
        Some(objs.first().pos)
    } else {
        live_pos(objs.drop_first(), id)
    }
}

/// The position of one key with staged mutations taken into account:
/// the latest staged write or insertion wins over the live table.
pub open spec fn effective_pos_at(objs: Seq<SpatialObject>, staged: Seq<StagedOp>, id: u64) -> Option<
    Vec2,
>
    decreases staged.len(),
{
    if staged.len() == 0 {
        live_pos(objs, id)
    } else {
        match staged.last() {
            StagedOp::SetPos(sid, p) => if sid == id {
                Some(p)
            } else {
                effective_pos_at(objs, staged.drop_last(), id)
            },
            StagedOp::Add(o) => if o.id == id {
                Some(o.pos)
            } else {
                effective_pos_at(objs, staged.drop_last(), id)
            },
            StagedOp::Remove(_) => effective_pos_at(objs, staged.drop_last(), id),
        }
    }
}

/// The collisions the watched object `t` has against a table: one entry
/// per other object whose group interacts with the watched one's and
/// which currently overlaps it, in table order, attributed by both
/// payloads.
pub open spec fn contact_reports(objs: Seq<SpatialObject>, t: SpatialObject) -> Seq<
    Collision<PhysicsData>,
>
    decreases objs.len(),
{
    if objs.len() == 0 {
        Seq::empty()
    } else {
        let rest = contact_reports(objs.drop_last(), t);
        let o = objs.last();
        if o.id != t.id && groups_interact(t.group, o.group) && overlapping(t, o) {
            rest.push(
                Collision { id1: t.data.entity_id, id2: o.data.entity_id, data1: t.data, data2: o.data },
            )
        } else {
            rest
        }
    }
}

/// The object the live table gives one key: the first match.
pub open spec fn live_obj(objs: Seq<SpatialObject>, id: u64) -> Option<SpatialObject>
    decreases objs.len(),
{
    if objs.len() == 0 {
        None::<SpatialObject>
    } else if objs.first().id == id {
        Some(objs.first())
    } else {
        live_obj(objs.drop_first(), id)
    }
}

/// The proximity transitions one pass reports against the boundary
/// volume: one entry per object, other than the boundary itself, that
/// was live before the commit and still is, and whose overlap with the
/// boundary changed across the commit, in table order. `b0` is the
/// boundary before the commit, `b1` after it.
pub open spec fn proximity_transitions(
    pre: Seq<SpatialObject>,
    post: Seq<SpatialObject>,
    b0: SpatialObject,
    b1: SpatialObject,
) -> Seq<ProximityReport>
    decreases post.len(),
{
    if post.len() == 0 {
        Seq::empty()
    } else {
        let rest = proximity_transitions(pre, post.drop_last(), b0, b1);
        let o = post.last();
        if o.id != b1.id && live_obj(pre, o.id) is Some && overlapping(
            b0,
            live_obj(pre, o.id).unwrap(),
        ) != overlapping(b1, o) {
            rest.push(
                ProximityReport {
                    id1: b1.data.entity_id,
                    id2: o.data.entity_id,
                    data1: b1.data,
                    data2: o.data,
                    entered: overlapping(b1, o),
                },
            )
        } else {
            rest
        }
    }
}

/// Compute whether two objects currently overlap.
pub fn overlaps(a: &SpatialObject, b: &SpatialObject) -> (r: bool)
    requires
        a.wf(),
        b.wf(),
    ensures
        r == overlapping(*a, *b),
{
    let dx = if a.pos.x >= b.pos.x {
        a.pos.x - b.pos.x
    } else {
        b.pos.x - a.pos.x
    };
    let dy = if a.pos.y >= b.pos.y {
        a.pos.y - b.pos.y
    } else {
        b.pos.y - a.pos.y
    };
    let (ax, ay) = extents(&a.shape);
    let (bx, by) = extents(&b.shape);
    if !(dx <= ax + bx && dy <= ay + by) {
        return false;
    }
    match (&a.shape, &b.shape) {
        (Shape::Ball(r1), Shape::Ball(r2)) => {
            proof {
                assert(dx * dx <= 40_000_000_000_000_000 && dy * dy <= 40_000_000_000_000_000 && (
                *r1 + *r2) * (*r1 + *r2) <= 40_000_000_000_000_000) by (nonlinear_arith)
                    requires
                        0 <= dx <= 200_000_000,
                        0 <= dy <= 200_000_000,
                        0 <= *r1 <= 100_000_000,
                        0 <= *r2 <= 100_000_000,
                ;
            }
            dx * dx + dy * dy <= (*r1 + *r2) * (*r1 + *r2)
        },
        _ => true,
    }
}

/// Find the first live object with this key and return a copy of it.
#[verifier::loop_isolation(false)]
fn find_object(objs: &Vec<SpatialObject>, id: u64) -> (r: Option<SpatialObject>)
    ensures
        r == live_obj(objs@, id),
{
    let n = objs.len();
    let mut i: usize = 0;
    while i < n
        invariant
            i <= n == objs@.len(),
            live_obj(objs@, id) == live_obj(objs@.skip(i as int), id),
        decreases n - i,
    {
        proof {
            assert(objs@.skip(i as int).first() == objs@[i as int]);
            assert(objs@.skip(i as int).drop_first() =~= objs@.skip(i as int + 1));
        }
        if objs[i].id == id {
            return Some(
                SpatialObject {
                    id: objs[i].id,
                    pos: objs[i].pos,
                    shape: objs[i].shape,
                    group: objs[i].group,
                    data: objs[i].data,
                },
            );
        }
        i = i + 1;
    }
    proof {
        assert(objs@.skip(n as int) =~= Seq::<SpatialObject>::empty());
    }
    None
}

impl SpatialWorld {
    /// One interaction pass: apply the staged mutations, then report
    /// every object that overlaps the watched one and whose group
    /// interacts with it — precise contact is evaluated against the
    /// watched object only — and every object whose overlap with the
    /// boundary volume changed across the commit.
    #[verifier::loop_isolation(false)]
    pub fn update(&mut self) -> (r: (Vec<Collision<PhysicsData>>, Vec<ProximityReport>))
        requires
            old(self).wf(),
        ensures
            final(self).wf(),
            final(self).objects@ =~= apply_staged(old(self).objects@, old(self).staged@),
            final(self).staged@ =~= Seq::<StagedOp>::empty(),
            final(self).watched == old(self).watched,
            final(self).boundary == old(self).boundary,
            final(self).watched is None ==> r.0@ =~= Seq::<Collision<PhysicsData>>::empty(),
            forall|i: int|
                final(self).watched == Some((#[trigger] final(self).objects@[i]).id) && 0 <= i
                    < final(self).objects@.len() ==> r.0@ =~= contact_reports(
                    final(self).objects@,
                    final(self).objects@[i],
                ),
            (final(self).watched matches Some(tid) && !final(self).has_object(tid)) ==> r.0@
                =~= Seq::<Collision<PhysicsData>>::empty(),
            final(self).boundary is None ==> r.1@ =~= Seq::<ProximityReport>::empty(),
            final(self).boundary matches Some(bid) ==> ({
                &&& (live_obj(old(self).objects@, bid) is Some && live_obj(
                    final(self).objects@,
                    bid,
                ) is Some ==> r.1@ =~= proximity_transitions(
                    old(self).objects@,
                    final(self).objects@,
                    live_obj(old(self).objects@, bid).unwrap(),
                    live_obj(final(self).objects@, bid).unwrap(),
                ))
                &&& (!(live_obj(old(self).objects@, bid) is Some && live_obj(
                    final(self).objects@,
                    bid,
                ) is Some) ==> r.1@ =~= Seq::<ProximityReport>::empty())
            }),
    {
        let ghost pre_table = self.objects@;
        let mut snap: Vec<SpatialObject> = Vec::new();
        let sn = self.objects.len();
        let mut si: usize = 0;
        while si < sn
            invariant
                si <= sn == self.objects@.len(),
                *self == *old(self),
                snap@ =~= self.objects@.take(si as int),
            decreases sn - si,
        {
            snap.push(
                SpatialObject {
                    id: self.objects[si].id,
                    pos: self.objects[si].pos,
                    shape: self.objects[si].shape,
                    group: self.objects[si].group,
                    data: self.objects[si].data,
                },
            );
            si = si + 1;
        }
        proof {
            assert(snap@ =~= pre_table);
        }
        self.commit();
        let contacts = self.contact_pass();
        let prox = self.proximity_pass(&snap);
        (contacts, prox)
    }

    /// The collision half of the pass, on the committed table.
    #[verifier::loop_isolation(false)]
    fn contact_pass(&self) -> (r: Vec<Collision<PhysicsData>>)
        requires
            self.wf(),
        ensures
            self.watched is None ==> r@ =~= Seq::<Collision<PhysicsData>>::empty(),
            forall|i: int|
                self.watched == Some((#[trigger] self.objects@[i]).id) && 0 <= i
                    < self.objects@.len() ==> r@ =~= contact_reports(
                    self.objects@,
                    self.objects@[i],
                ),
            (self.watched matches Some(tid) && !self.has_object(tid)) ==> r@ =~= Seq::<
                Collision<PhysicsData>,
            >::empty(),
    {
        let tid = match self.watched {
            Some(t) => t,
            None => {
                return Vec::new();
            },
        };
        let n = self.objects.len();
        let mut ti: usize = 0;
        let mut found = false;
        while ti < n
            invariant
                ti <= n == self.objects@.len(),
                !found,
                forall|j: int| 0 <= j < ti ==> (#[trigger] self.objects@[j]).id != tid,
            decreases n - ti,
        {
            if self.objects[ti].id == tid {
                found = true;
                break ;
            }
            ti = ti + 1;
        }
        if !found {
            return Vec::new();
        }
        let t = SpatialObject {
            id: self.objects[ti].id,
            pos: self.objects[ti].pos,
            shape: self.objects[ti].shape,
            group: self.objects[ti].group,
            data: self.objects[ti].data,
        };
        let mut out: Vec<Collision<PhysicsData>> = Vec::new();
        let mut i: usize = 0;
        while i < n
            invariant
                i <= n == self.objects@.len(),
                t == self.objects@[ti as int],
                ti < n,
                t.wf(),
                objects_wf(self.objects@),
                out@ =~= contact_reports(self.objects@.take(i as int), t),
            decreases n - i,
        {
            proof {
                assert(self.objects@.take(i + 1).drop_last() =~= self.objects@.take(i as int));
                assert(self.objects@.take(i + 1).last() == self.objects@[i as int]);
            }
            let o = &self.objects[i];
            if o.id != t.id && interacts(t.group, o.group) && overlaps(&t, o) {
                out.push(
                    Collision {
                        id1: t.data.entity_id,
                        id2: o.data.entity_id,
                        data1: t.data,
                        data2: o.data,
                    },
                );
            }
            i = i + 1;
        }
        proof {
            assert(self.objects@.take(n as int) =~= self.objects@);
            assert forall|i: int|
                self.watched == Some((#[trigger] self.objects@[i]).id) && 0 <= i
                    < self.objects@.len() implies out@ =~= contact_reports(
                self.objects@,
                self.objects@[i],
            ) by {
                if i != ti {
                    assert(self.objects@[ti as int].id == tid);
                }
            }
        }
        out
    }

    /// The proximity half of the pass: compare each object's overlap
    /// with the boundary before the commit (in the snapshot) and after
    /// it, and report every change.
    #[verifier::loop_isolation(false)]
    fn proximity_pass(&self, snap: &Vec<SpatialObject>) -> (r: Vec<ProximityReport>)
        requires
            self.wf(),
            forall|i: int| 0 <= i < snap@.len() ==> (#[trigger] snap@[i]).wf(),
        ensures
            self.boundary is None ==> r@ =~= Seq::<ProximityReport>::empty(),
            self.boundary matches Some(bid) ==> ({
                &&& (live_obj(snap@, bid) is Some && live_obj(self.objects@, bid) is Some ==> r@
                    =~= proximity_transitions(
                    snap@,
                    self.objects@,
                    live_obj(snap@, bid).unwrap(),
                    live_obj(self.objects@, bid).unwrap(),
                ))
                &&& (!(live_obj(snap@, bid) is Some && live_obj(self.objects@, bid) is Some)
                    ==> r@ =~= Seq::<ProximityReport>::empty())
            }),
    {
        let bid = match self.boundary {
            Some(b) => b,
            None => {
                return Vec::new();
            },
        };
        let b0 = match find_object(snap, bid) {
            Some(b) => b,
            None => {
                return Vec::new();
            },
        };
        let b1 = match find_object(&self.objects, bid) {
            Some(b) => b,
            None => {
                return Vec::new();
            },
        };
        proof {
            lemma_live_obj_wf(snap@, bid);
            lemma_live_obj_wf(self.objects@, bid);
        }
        let n = self.objects.len();
        let mut out: Vec<ProximityReport> = Vec::new();
        let mut i: usize = 0;
        while i < n
            invariant
                i <= n == self.objects@.len(),
                b0.wf(),
                b1.wf(),
                Some(b0) == live_obj(snap@, bid),
                Some(b1) == live_obj(self.objects@, bid),
                out@ =~= proximity_transitions(snap@, self.objects@.take(i as int), b0, b1),
            decreases n - i,
        {
            proof {
                assert(self.objects@.take(i + 1).drop_last() =~= self.objects@.take(i as int));
                assert(self.objects@.take(i + 1).last() == self.objects@[i as int]);
            }
            let o = &self.objects[i];
            if o.id != b1.id {
                match find_object(snap, o.id) {
                    Some(o0) => {
                        proof {
                            lemma_live_obj_wf(snap@, o.id);
                        }
                        let was = overlaps(&b0, &o0);
                        let now = overlaps(&b1, o);
                        if was != now {
                            out.push(
                                ProximityReport {
                                    id1: b1.data.entity_id,
                                    id2: o.data.entity_id,
                                    data1: b1.data,
                                    data2: o.data,
                                    entered: now,
                                },
                            );
                        }
                    },
                    None => {},
                }
            }
            i = i + 1;
        }
        proof {
            assert(self.objects@.take(n as int) =~= self.objects@);
        }
        out
    }
}

/// A key the live table resolves names a well-formed object of that key.
proof fn lemma_live_obj_wf(objs: Seq<SpatialObject>, id: u64)
    requires
        forall|i: int| 0 <= i < objs.len() ==> (#[trigger] objs[i]).wf(),
    ensures
        live_obj(objs, id) matches Some(o) ==> o.wf() && o.id == id,
    decreases objs.len(),
{
    if objs.len() > 0 {
        assert(objs[0].wf());
        assert(forall|i: int|
            0 <= i < objs.drop_first().len() ==> (#[trigger] objs.drop_first()[i]).wf());
        lemma_live_obj_wf(objs.drop_first(), id);
    }
}

/// Compute whether two interaction groups generate events against each
/// other.
pub fn interacts(a: PhysicsInteraction, b: PhysicsInteraction) -> (r: bool)
    ensures
        r == groups_interact(a, b),
{
    match (a, b) {
        (PhysicsInteraction::Interactive, PhysicsInteraction::Interactive) => true,
        (PhysicsInteraction::Interactive, PhysicsInteraction::SemiInteractive) => true,
        (PhysicsInteraction::SemiInteractive, PhysicsInteraction::Interactive) => true,
        (PhysicsInteraction::SemiInteractive, PhysicsInteraction::NonInteractive) => true,
        (PhysicsInteraction::NonInteractive, PhysicsInteraction::SemiInteractive) => true,
        _ => false,
    }
}

/// Compute a shape's half-widths along the two axes.
pub fn extents(s: &Shape) -> (r: (Milli, Milli))
    ensures
        (r.0 as int, r.1 as int) == shape_extents(*s),
{
    match *s {
        Shape::Ball(r) => (r, r),
        Shape::Box(hx, hy) => (hx, hy),
    }
}

} // verus!
