//! The engine: the entity table, the service context, and the step
//! pipeline that ties delivery, physics, structural mutation and
//! identity reclaim together in a fixed order.
//!
//! The engine's invariant carries the identity-uniqueness guarantee: no
//! two live entities ever hold the same id, every live entity's id is
//! live in the registry, and a released id becomes reusable only after
//! the step's reclaim. Collisions are delivered to both participants as
//! mirrored pairs.

use vstd::prelude::*;

use crate::entities::{Object, Player, PlayerBullet, Bullet, Enemy, ScreenArea, Services};
use crate::events::{CollisionData, Event, PhysicsData, SysEvent};
use crate::geom::Vec2;
use crate::level::{CreateRequest, Level};
use crate::num::{Milli, MAG_LIMIT};
use crate::pattern::TICK_LIMIT;
use crate::physics::Collision;

verus! {

broadcast use vstd::seq_lib::group_seq_properties;

/// The queue entries one collision list produces: for each collision,
/// first a delivery to the second participant naming the first, then
/// the mirrored delivery to the first naming the second, with the
/// payloads swapped between the two.
pub open spec fn collision_deliveries(cs: Seq<Collision<PhysicsData>>) -> Seq<(u64, Event)>
    decreases cs.len(),
{
    if cs.len() == 0 {
        Seq::empty()
    } else {
        let c = cs.last();
        collision_deliveries(cs.drop_last()).push(
            (c.id2, Event::Collision(c.id1, CollisionData { this_object: c.data2, other_object: c.data1 })),
        ).push(
            (c.id1, Event::Collision(c.id2, CollisionData { this_object: c.data1, other_object: c.data2 })),
        )
    }
}

/// Law: collision delivery is symmetric. For every collision of the
/// list, the produced queue entries hold, at known places, a delivery to
/// each participant naming the other, with the payload pair swapped
/// between the two deliveries.
pub proof fn lemma_collision_symmetry(cs: Seq<Collision<PhysicsData>>, k: int)
    requires
        0 <= k < cs.len(),
    ensures
        collision_deliveries(cs).len() == 2 * cs.len(),
        collision_deliveries(cs)[2 * k] == (
            cs[k].id2,
            Event::Collision(
                cs[k].id1,
                CollisionData { this_object: cs[k].data2, other_object: cs[k].data1 },
            ),
        ),
        collision_deliveries(cs)[2 * k + 1] == (
            cs[k].id1,
            Event::Collision(
                cs[k].id2,
                CollisionData { this_object: cs[k].data1, other_object: cs[k].data2 },
            ),
        ),
    decreases cs.len(),
{
    lemma_collision_deliveries_len(cs);
    if k == cs.len() - 1 {
        lemma_collision_deliveries_len(cs.drop_last());
    } else {
        lemma_collision_symmetry(cs.drop_last(), k);
    }
}

proof fn lemma_collision_deliveries_len(cs: Seq<Collision<PhysicsData>>)
    ensures
        collision_deliveries(cs).len() == 2 * cs.len(),
    decreases cs.len(),
{
    if cs.len() > 0 {
        lemma_collision_deliveries_len(cs.drop_last());
    }
}

/// The queue entries one batch of proximity transitions becomes: for
/// each report, in order, a delivery to the crossing object naming the
/// boundary, then one to the boundary naming the object, each carrying
/// whether the two now intersect or are disjoint.
pub open spec fn proximity_deliveries(ps: Seq<crate::physics::ProximityReport>) -> Seq<
    (u64, Event),
>
    decreases ps.len(),
{
    if ps.len() == 0 {
        Seq::empty()
    } else {
        let p = ps.last();
        let state = if p.entered {
            crate::events::ProximityState::Intersecting
        } else {
            crate::events::ProximityState::Disjoint
        };
        proximity_deliveries(ps.drop_last()).push(
            (
                p.id2,
                Event::Proximity(
                    p.id1,
                    crate::events::ProximityData {
                        proximity: state,
                        this_object: p.data2,
                        other_object: p.data1,
                    },
                ),
            ),
        ).push(
            (
                p.id1,
                Event::Proximity(
                    p.id2,
                    crate::events::ProximityData {
                        proximity: state,
                        this_object: p.data1,
                        other_object: p.data2,
                    },
                ),
            ),
        )
    }
}

/// The engine: the service context and the live entity table.
pub struct Engine {
    /// The event bus, spatial world, registry and shared read-only data.
    pub services: Services,
    /// Live entities, keyed by their unique ids.
    pub entities: Vec<(u64, Object)>,
}

/// The whole contract of `Engine::dispatch`, as a relation between the
/// engine states before and after one delivery: an unknown id is a
/// no-op; a live one steps its entity by the kind's own relation and
/// moves it to the back of the table.
pub open spec fn dispatched(pre: Engine, id: u64, e: Event, post: Engine) -> bool {
    &&& post.wf()
    &&& (!pre.has_entity(id) ==> post == pre)
    &&& (pre.has_entity(id) ==> exists|i: int|
        {
            &&& 0 <= i < pre.entities@.len()
            &&& (#[trigger] pre.entities@[i]).0 == id
            &&& post.entities@.len() == pre.entities@.len()
            &&& post.entities@ =~= pre.entities@.remove(i).push((id, post.entities@.last().1))
            &&& post.entities@.last().0 == id
            &&& crate::entities::object_stepped(
                pre.entities@[i].1,
                e,
                pre.services,
                post.entities@.last().1,
                post.services,
            )
        })
    &&& (forall|x: u64| pre.has_entity(x) <==> post.has_entity(x))
    &&& post.services.registry == pre.services.registry
    &&& post.services.handler.subscriptions@ == pre.services.handler.subscriptions@
    &&& post.services.scaler == pre.services.scaler
}

/// One entry of a drained delivery queue applied: an entity-addressed
/// entry whose tick is admissible is dispatched; an engine-addressed
/// entry (id zero) and a tick outside the admitted range are skipped
/// unchanged.
pub open spec fn queue_entry_applied(pre: Engine, entry: (u64, Event), post: Engine) -> bool {
    let skip = match entry.1 {
        Event::Update(t) => !(0 <= t <= TICK_LIMIT),
        _ => false,
    };
    if entry.0 == 0 || skip {
        post == pre
    } else {
        dispatched(pre, entry.0, entry.1, post)
    }
}

/// The whole contract of `Engine::handle_events`, as a relation: the
/// pending queue is drained and applied entry by entry, in order, each
/// step witnessed by an intermediate engine state.
pub open spec fn events_passed(pre: Engine, post: Engine) -> bool {
    exists|tr: Seq<Engine>|
        {
            &&& tr.len() == pre.services.handler.queue@.len() + 1
            &&& (#[trigger] tr.first()).entities@ == pre.entities@
            &&& tr.first().services.handler.queue@ =~= Seq::<(u64, Event)>::empty()
            &&& tr.first().services.handler.subscriptions@ == pre.services.handler.subscriptions@
            &&& tr.first().services.handler.sysqueue@ == pre.services.handler.sysqueue@
            &&& tr.first().services.physics == pre.services.physics
            &&& tr.first().services.registry == pre.services.registry
            &&& tr.first().services.player_pos == pre.services.player_pos
            &&& tr.first().services.scaler == pre.services.scaler
            &&& tr.last() == post
            &&& (forall|k: int|
                0 <= k < pre.services.handler.queue@.len() ==> #[trigger] queue_entry_applied(
                    tr[k],
                    pre.services.handler.queue@[k],
                    tr[k + 1],
                ))
        }
}

/// A publication of one update tick to every subscriber, and nothing
/// else.
pub open spec fn update_published(pre: Engine, step: Milli, post: Engine) -> bool {
    &&& post.entities@ == pre.entities@
    &&& post.services.handler.queue@ =~= pre.services.handler.queue@ + crate::events::deliveries(
        pre.services.handler.subscriptions@,
        Event::Update(step),
    )
    &&& post.services.handler.subscriptions@ == pre.services.handler.subscriptions@
    &&& post.services.handler.sysqueue@ == pre.services.handler.sysqueue@
    &&& post.services.physics == pre.services.physics
    &&& post.services.registry == pre.services.registry
    &&& post.services.player_pos == pre.services.player_pos
    &&& post.services.scaler == pre.services.scaler
}

/// The spatial pass and its deliveries: the staged mutations commit, and
/// the contacts and proximity transitions the committed world reports
/// are enqueued, both sides each, in report order.
pub open spec fn contacts_delivered(pre: Engine, post: Engine) -> bool {
    let w0 = pre.services.physics;
    let w1 = post.services.physics;
    &&& post.entities@ == pre.entities@
    &&& post.services.registry == pre.services.registry
    &&& post.services.player_pos == pre.services.player_pos
    &&& post.services.scaler == pre.services.scaler
    &&& post.services.handler.subscriptions@ == pre.services.handler.subscriptions@
    &&& post.services.handler.sysqueue@ == pre.services.handler.sysqueue@
    &&& w1.objects@ =~= crate::physics::apply_staged(w0.objects@, w0.staged@)
    &&& w1.staged@ =~= Seq::<crate::physics::StagedOp>::empty()
    &&& w1.watched == w0.watched
    &&& w1.boundary == w0.boundary
    &&& (exists|cs: Seq<Collision<PhysicsData>>, ps: Seq<crate::physics::ProximityReport>|
        #![trigger collision_deliveries(cs), proximity_deliveries(ps)]
        {
            &&& post.services.handler.queue@ =~= pre.services.handler.queue@
                + collision_deliveries(cs) + proximity_deliveries(ps)
            &&& (w1.watched is None ==> cs =~= Seq::<Collision<PhysicsData>>::empty())
            &&& (forall|i: int|
                w1.watched == Some((#[trigger] w1.objects@[i]).id) && 0 <= i < w1.objects@.len()
                    ==> cs =~= crate::physics::contact_reports(w1.objects@, w1.objects@[i]))
            &&& ((w1.watched matches Some(tid) && !w1.has_object(tid)) ==> cs =~= Seq::<
                Collision<PhysicsData>,
            >::empty())
            &&& (w1.boundary is None ==> ps =~= Seq::<crate::physics::ProximityReport>::empty())
            &&& (w1.boundary matches Some(bid) ==> ({
                &&& (crate::physics::live_obj(w0.objects@, bid) is Some
                    && crate::physics::live_obj(w1.objects@, bid) is Some ==> ps
                    =~= crate::physics::proximity_transitions(
                    w0.objects@,
                    w1.objects@,
                    crate::physics::live_obj(w0.objects@, bid).unwrap(),
                    crate::physics::live_obj(w1.objects@, bid).unwrap(),
                ))
                &&& (!(crate::physics::live_obj(w0.objects@, bid) is Some
                    && crate::physics::live_obj(w1.objects@, bid) is Some) ==> ps =~= Seq::<
                    crate::physics::ProximityReport,
                >::empty())
            }))
        })
}

/// One creation applied: a fresh id is issued and an entity of the
/// request's kind appended, subscribed as its kind asks, with its
/// spatial object staged.
pub open spec fn spawned(pre: Engine, req: CreateRequest, post: Engine) -> bool {
    exists|id: u64|
        {
            &&& !pre.has_entity(id)
            &&& !(#[trigger] pre.services.registry.is_live(id))
            &&& post.has_entity(id)
            &&& (forall|x: u64| pre.has_entity(x) ==> post.has_entity(x))
            &&& post.entities@.len() == pre.entities@.len() + 1
            &&& post.entities@.subrange(0, pre.entities@.len() as int) =~= pre.entities@
            &&& post.entities@.last().0 == id
            &&& post.services.handler.is_subscribed(id, crate::events::EventType::Update)
            &&& (req is Player ==> post.entities@.last().1 is Player
                && post.services.handler.is_subscribed(id, crate::events::EventType::KeyInput))
            &&& (req is PlayerBullet ==> post.entities@.last().1 is PlayerBullet
                && post.services.handler.is_subscribed(id, crate::events::EventType::Proximity))
            &&& (req is Enemy ==> post.entities@.last().1 is Enemy
                && post.services.handler.is_subscribed(id, crate::events::EventType::Collision))
            &&& (req is Bullet ==> post.entities@.last().1 is Bullet)
            &&& (req is ScreenArea ==> post.entities@.last().1 is ScreenArea)
            &&& (req is Level ==> post.entities@.last().1 is Level)
            &&& (req matches CreateRequest::Bullet(info, bpos, vel)
                ==> (post.entities@.last().1 matches Object::Bullet(b) && b.damage == info.damage
                && b.behavior == info.behavior && b.pg.velocity == vel && b.pg.pos
                == crate::entities::world_clamped(bpos)))
            &&& (req matches CreateRequest::PlayerBullet(bpos)
                ==> (post.entities@.last().1 matches Object::PlayerBullet(b) && b.pg.pos
                == crate::entities::world_clamped(bpos) && b.pg.velocity == (Vec2 {
                x: 0i64,
                y: 100_000i64,
            })))
            &&& (!(req is Level) ==> ({
                let staged = post.services.physics.staged@;
                &&& staged.len() == pre.services.physics.staged@.len() + 1
                &&& (staged.last() matches crate::physics::StagedOp::Add(o) && o.id == id)
            }))
            &&& (req is Level ==> post.services.physics == pre.services.physics)
            &&& post.services.handler.sysqueue@ == pre.services.handler.sysqueue@
            &&& post.services.scaler == pre.services.scaler
        }
}

/// One destruction applied: the carried id's entity is torn down in the
/// fixed order, or nothing changes when the id is unknown.
pub open spec fn destroyed(pre: Engine, id: u64, post: Engine) -> bool {
    &&& post.wf()
    &&& !post.has_entity(id)
    &&& (forall|x: u64| pre.has_entity(x) && x != id ==> post.has_entity(x))
    &&& (!pre.has_entity(id) ==> post == pre)
    &&& post.services.scaler == pre.services.scaler
    &&& (pre.has_entity(id) ==> ({
        &&& (exists|i: int|
            0 <= i < pre.entities@.len() && (#[trigger] pre.entities@[i]).0 == id
                && post.entities@ =~= pre.entities@.remove(i))
        &&& (forall|k: crate::events::EventType| !post.services.handler.is_subscribed(id, k))
        &&& (forall|x: u64, k: crate::events::EventType|
            post.services.handler.is_subscribed(x, k) ==> pre.services.handler.is_subscribed(
                x,
                k,
            ))
        &&& (forall|x: u64, k: crate::events::EventType|
            pre.services.handler.is_subscribed(x, k) && x != id
                ==> post.services.handler.is_subscribed(x, k))
        &&& post.services.physics.staged@ =~= pre.services.physics.staged@.push(
            crate::physics::StagedOp::Remove(id),
        )
        &&& post.services.physics.objects@ == pre.services.physics.objects@
        &&& post.services.registry.reclaimed@ =~= pre.services.registry.reclaimed@.push(id)
        &&& post.services.registry.free@ =~= pre.services.registry.free@
        &&& post.services.registry.counter == pre.services.registry.counter
        &&& post.services.registry.names@ == pre.services.registry.names@
        &&& post.services.handler.queue@ == pre.services.handler.queue@
        &&& post.services.handler.sysqueue@ == pre.services.handler.sysqueue@
    }))
}

/// One structural request applied: an admissible creation spawns an
/// entity of the request's kind and an inadmissible one is dropped; a
/// destruction destroys the carried id; a time skip re-runs the whole
/// pipeline in sub-steps, after each of which the system queue is empty
/// again.
pub open spec fn sys_entry_applied(pre: Engine, ev: SysEvent<CreateRequest>, post: Engine) -> bool {
    &&& post.wf()
    &&& post.services.scaler == pre.services.scaler
    &&& (ev matches SysEvent::Create(req) ==> ({
        &&& (pre.services.registry.counter < u64::MAX && request_wf(req) ==> spawned(
            pre,
            req,
            post,
        ))
        &&& (!(pre.services.registry.counter < u64::MAX && request_wf(req)) ==> post == pre)
    }))
    &&& (ev matches SysEvent::Destroy(id) ==> destroyed(pre, id, post))
    &&& (ev is FastForward ==> post.services.handler.sysqueue@ =~= Seq::<
        SysEvent<CreateRequest>,
    >::empty())
}

/// The system-queue drain: each pending structural request applied in
/// order, each step witnessed by an intermediate engine state, and the
/// step's released ids reclaimed into the free pool at the end.
pub open spec fn sys_drained(pre: Engine, post: Engine) -> bool {
    exists|tr: Seq<Engine>|
        {
            &&& tr.len() == pre.services.handler.sysqueue@.len() + 1
            &&& (#[trigger] tr.first()).entities@ == pre.entities@
            &&& tr.first().services.handler.sysqueue@ =~= Seq::<SysEvent<CreateRequest>>::empty()
            &&& tr.first().services.handler.queue@ == pre.services.handler.queue@
            &&& tr.first().services.handler.subscriptions@ == pre.services.handler.subscriptions@
            &&& tr.first().services.physics == pre.services.physics
            &&& tr.first().services.registry == pre.services.registry
            &&& tr.first().services.player_pos == pre.services.player_pos
            &&& tr.first().services.scaler == pre.services.scaler
            &&& (forall|k: int|
                0 <= k < pre.services.handler.sysqueue@.len() ==> #[trigger] sys_entry_applied(
                    tr[k],
                    pre.services.handler.sysqueue@[k],
                    tr[k + 1],
                ))
            &&& tr.last().entities@ == post.entities@
            &&& tr.last().services.handler == post.services.handler
            &&& tr.last().services.physics == post.services.physics
            &&& tr.last().services.player_pos == post.services.player_pos
            &&& tr.last().services.scaler == post.services.scaler
            &&& post.services.registry.free@ =~= tr.last().services.registry.free@
                + tr.last().services.registry.reclaimed@
            &&& post.services.registry.reclaimed@ =~= Seq::<u64>::empty()
            &&& post.services.registry.counter == tr.last().services.registry.counter
            &&& post.services.registry.names@ == tr.last().services.registry.names@
            &&& post.services.registry.rev_names@ == tr.last().services.registry.rev_names@
            &&& post.services.registry.tags@ == tr.last().services.registry.tags@
        }
}

impl Engine {
    /// The engine invariant. In particular: no two live entities hold
    /// the same id, and every live entity's id is live in the registry,
    /// so an id can be reissued only after its owner was destroyed and
    /// the step's reclaim has run.
    pub open spec fn wf(self) -> bool {
        &&& self.services.wf()
        &&& self.services.registry.reclaimable
        &&& (forall|i: int, j: int|
            0 <= i < j < self.entities@.len() ==> (#[trigger] self.entities@[i]).0 != (
            #[trigger] self.entities@[j]).0)
        &&& (forall|i: int|
            0 <= i < self.entities@.len() ==> (#[trigger] self.entities@[i]).1.wf())
        &&& (forall|i: int|
            0 <= i < self.entities@.len() ==> (#[trigger] self.entities@[i]).0
                == self.entities@[i].1.id_spec())
        &&& (forall|i: int|
            0 <= i < self.entities@.len() ==> self.services.registry.is_live(
                (#[trigger] self.entities@[i]).0,
            ))
    }

    /// Some live entity holds this id.
    pub open spec fn has_entity(self, id: u64) -> bool {
        exists|i: int| 0 <= i < self.entities@.len() && (#[trigger] self.entities@[i]).0 == id
    }

    /// A fresh engine: empty world, empty bus, fresh registry.
    pub fn new(scaler: Milli) -> (r: Engine)
        requires
            0 <= scaler <= MAG_LIMIT,
        ensures
            r.wf(),
            r.entities@ =~= Seq::<(u64, Object)>::empty(),
            r.services.registry.counter == 1,
    {
        Engine {
            services: Services {
                handler: crate::events::Handler::new(),
                physics: crate::physics::SpatialWorld::new(),
                registry: crate::registry::Registry::new(),
                player_pos: Vec2 { x: 0, y: 0 },
                scaler,
            },
            entities: Vec::new(),
        }
    }

    /// Insert a pre-built entity: it is subscribed to update and render
    /// ticks, told it spawned, and added to the table. Its id must be a
    /// live identity not yet in the table.
    pub fn spawn_entity(&mut self, e: Object)
        requires
            old(self).wf(),
            e.wf(),
            old(self).services.registry.is_live(e.id_spec()),
            !old(self).has_entity(e.id_spec()),
        ensures
            final(self).wf(),
            final(self).has_entity(e.id_spec()),
            forall|x: u64| old(self).has_entity(x) ==> final(self).has_entity(x),
            final(self).entities@.len() == old(self).entities@.len() + 1,
            final(self).entities@.subrange(0, old(self).entities@.len() as int) =~= old(
                self,
            ).entities@,
            final(self).entities@.last().0 == e.id_spec(),
            e is Player <==> final(self).entities@.last().1 is Player,
            e is PlayerBullet <==> final(self).entities@.last().1 is PlayerBullet,
            e is Enemy <==> final(self).entities@.last().1 is Enemy,
            e is Bullet <==> final(self).entities@.last().1 is Bullet,
            e is ScreenArea <==> final(self).entities@.last().1 is ScreenArea,
            e is Level <==> final(self).entities@.last().1 is Level,
            e matches Object::Bullet(b)
                ==> (final(self).entities@.last().1 matches Object::Bullet(b2) && b2.pg == b.pg
                && b2.damage == b.damage && b2.behavior == b.behavior),
            e matches Object::PlayerBullet(b)
                ==> (final(self).entities@.last().1 matches Object::PlayerBullet(b2) && b2.pg
                == b.pg),
            final(self).services.handler.is_subscribed(e.id_spec(), crate::events::EventType::Update),
            final(self).services.handler.is_subscribed(e.id_spec(), crate::events::EventType::Render),
            forall|x: u64, k: crate::events::EventType|
                old(self).services.handler.is_subscribed(x, k)
                    ==> final(self).services.handler.is_subscribed(x, k),
            forall|x: u64, k: crate::events::EventType|
                final(self).services.handler.is_subscribed(x, k)
                    ==> old(self).services.handler.is_subscribed(x, k) || (x == e.id_spec() && (k
                    == crate::events::EventType::Update || k == crate::events::EventType::Render)),
            final(self).services.handler.queue@ == old(self).services.handler.queue@,
            final(self).services.handler.sysqueue@ == old(self).services.handler.sysqueue@,
            final(self).services.physics == old(self).services.physics,
            final(self).services.registry == old(self).services.registry,
            final(self).services.player_pos == old(self).services.player_pos,
            final(self).services.scaler == old(self).services.scaler,
    {
        let mut e = e;
        let id = e.id();
        self.services.handler.subscribe(id, Event::Update(0));
        self.services.handler.subscribe(id, Event::Render);
        let ghost pre_reg = self.services.registry;
        e.handle_event(&Event::Spawn, &mut self.services);
        self.entities.push((id, e));
        proof {
            let post = self.entities@;
            assert forall|i: int, j: int| 0 <= i < j < post.len() implies (#[trigger] post[i]).0
                != (#[trigger] post[j]).0 by {
                if j == post.len() - 1 {
                    assert(old(self).has_entity(post[i].0)) by {
                        assert(old(self).entities@[i].0 == post[i].0);
                    }
                }
            }
            assert(post[post.len() - 1].0 == id);
            assert forall|x: u64| old(self).has_entity(x) implies final(self).has_entity(x) by {
                let w = choose|w: int|
                    0 <= w < old(self).entities@.len() && old(self).entities@[w].0 == x;
                assert(post[w].0 == x);
            }
        }
    }

    /// Create an entity from a request: a fresh identity is allocated
    /// (never one still live, nor one released and not yet reclaimed),
    /// the kind's constructor registers its facets, and the entity is
    /// inserted and told it spawned. The new id is returned.
    pub fn spawn(&mut self, request: CreateRequest) -> (id: u64)
        requires
            old(self).wf(),
            old(self).services.registry.counter < u64::MAX,
            request_wf(request),
        ensures
            final(self).wf(),
            !old(self).has_entity(id),
            !old(self).services.registry.is_live(id),
            !old(self).services.registry.reclaimed@.contains(id),
            final(self).has_entity(id),
            forall|x: u64| old(self).has_entity(x) ==> final(self).has_entity(x),
            final(self).entities@.len() == old(self).entities@.len() + 1,
            final(self).entities@.subrange(0, old(self).entities@.len() as int) =~= old(
                self,
            ).entities@,
            final(self).entities@.last().0 == id,
            final(self).services.handler.is_subscribed(id, crate::events::EventType::Update),
            final(self).services.handler.is_subscribed(id, crate::events::EventType::Render),
            request is Player ==> final(self).entities@.last().1 is Player
                && final(self).services.handler.is_subscribed(
                id,
                crate::events::EventType::KeyInput,
            ),
            request is PlayerBullet ==> final(self).entities@.last().1 is PlayerBullet
                && final(self).services.handler.is_subscribed(
                id,
                crate::events::EventType::Proximity,
            ),
            request is Enemy ==> final(self).entities@.last().1 is Enemy
                && final(self).services.handler.is_subscribed(
                id,
                crate::events::EventType::Collision,
            ),
            request is Bullet ==> final(self).entities@.last().1 is Bullet
                && final(self).services.handler.is_subscribed(
                id,
                crate::events::EventType::Collision,
            ),
            request is ScreenArea ==> final(self).entities@.last().1 is ScreenArea,
            request is Level ==> final(self).entities@.last().1 is Level,
            request matches CreateRequest::Bullet(info, bpos, vel)
                ==> (final(self).entities@.last().1 matches Object::Bullet(b) && b.damage
                == info.damage && b.behavior == info.behavior && b.pg.velocity == vel && b.pg.pos
                == crate::entities::world_clamped(bpos)),
            request matches CreateRequest::PlayerBullet(bpos)
                ==> (final(self).entities@.last().1 matches Object::PlayerBullet(b) && b.pg.pos
                == crate::entities::world_clamped(bpos) && b.pg.velocity == (Vec2 {
                x: 0i64,
                y: 100_000i64,
            })),
            !(request is Level) ==> ({
                let staged = final(self).services.physics.staged@;
                &&& staged.len() == old(self).services.physics.staged@.len() + 1
                &&& (staged.last() matches crate::physics::StagedOp::Add(o) && o.id == id)
            }),
            request is Level ==> final(self).services.physics == old(self).services.physics,
            final(self).services.handler.sysqueue@ == old(self).services.handler.sysqueue@,
            final(self).services.scaler == old(self).services.scaler,
    {
        let id = self.services.registry.get_id();
        proof {
            assert forall|i: int|
                0 <= i < self.entities@.len() implies self.services.registry.is_live(
                (#[trigger] self.entities@[i]).0,
            ) by {
                assert(old(self).services.registry.is_live(self.entities@[i].0));
            }
            assert(!old(self).has_entity(id)) by {
                if old(self).has_entity(id) {
                    let w = choose|w: int|
                        0 <= w < old(self).entities@.len() && old(self).entities@[w].0 == id;
                    assert(old(self).services.registry.is_live(id));
                }
            }
        }
        let sub_key = match &request {
            CreateRequest::Player => 1u8,
            CreateRequest::PlayerBullet(_) => 2u8,
            CreateRequest::Enemy(_, _, _) => 3u8,
            CreateRequest::Bullet(_, _, _) => 3u8,
            CreateRequest::ScreenArea => 0u8,
            CreateRequest::Level(_) => 0u8,
        };
        let obj: Object = match request {
            CreateRequest::Player => Object::Player(Player::create(id, &mut self.services)),
            CreateRequest::PlayerBullet(pos) => Object::PlayerBullet(
                PlayerBullet::create(id, pos, &mut self.services),
            ),
            CreateRequest::Enemy(info, pos, paths) => Object::Enemy(
                Enemy::create(id, info, pos, paths, &mut self.services),
            ),
            CreateRequest::Bullet(info, pos, vel) => Object::Bullet(
                Bullet::create(id, info, pos, vel, &mut self.services),
            ),
            CreateRequest::ScreenArea => {
                let half = if self.services.scaler > 100_000_000 {
                    100_000_000
                } else {
                    self.services.scaler
                };
                self.services.physics.add(
                    id,
                    Vec2 { x: 0, y: 0 },
                    crate::physics::Shape::Box(half, half),
                    crate::physics::PhysicsInteraction::Interactive,
                    PhysicsData::new(id, 0, 0),
                );
                // A second boundary would find the name taken; the alias
                // stays with its first holder, a non-fatal content error.
                let named = self.services.registry.create_alias("screen_area".to_owned(), id);
                if named.is_err() {
                }
                Object::ScreenArea(ScreenArea { id })
            },
            CreateRequest::Level(script) => Object::Level(Level::new(id, script)),
        };
        if sub_key == 1 {
            self.services.handler.subscribe(id, Event::KeyInput(
                crate::events::InputState::Pressed,
                0,
            ));
        } else if sub_key == 2 {
            self.services.handler.subscribe(id, Event::Proximity(
                0,
                crate::events::ProximityData {
                    proximity: crate::events::ProximityState::Disjoint,
                    this_object: PhysicsData::new(0, 0, 0),
                    other_object: PhysicsData::new(0, 0, 0),
                },
            ));
        } else if sub_key == 3 {
            self.services.handler.subscribe(id, Event::Collision(
                0,
                CollisionData {
                    this_object: PhysicsData::new(0, 0, 0),
                    other_object: PhysicsData::new(0, 0, 0),
                },
            ));
        }
        let e = obj;
        proof {
            assert(self.services.registry.is_live(id));
            assert forall|i: int|
                0 <= i < self.entities@.len() implies self.services.registry.is_live(
                (#[trigger] self.entities@[i]).0,
            ) by {
                assert(old(self).services.registry.is_live(self.entities@[i].0));
            }
        }
        self.spawn_entity(e);
        id
    }

    /// Tear one entity down, in a fixed order: its subscriptions go,
    /// its spatial object is staged for removal, its table entry is
    /// dropped, and its identity is released — pending until the step's
    /// reclaim, so the id cannot be reissued this step.
    #[verifier::loop_isolation(false)]
    pub fn destroy(&mut self, id: u64)
        requires
            old(self).wf(),
        ensures
            final(self).wf(),
            !final(self).has_entity(id),
            forall|x: u64| old(self).has_entity(x) && x != id ==> final(self).has_entity(x),
            !old(self).has_entity(id) ==> *final(self) == *old(self),
            final(self).services.scaler == old(self).services.scaler,
            old(self).has_entity(id) ==> ({
                &&& (exists|i: int|
                    0 <= i < old(self).entities@.len() && (#[trigger] old(self).entities@[i]).0
                        == id && final(self).entities@ =~= old(self).entities@.remove(i))
                &&& (forall|k: crate::events::EventType|
                    !final(self).services.handler.is_subscribed(id, k))
                &&& (forall|x: u64, k: crate::events::EventType|
                    final(self).services.handler.is_subscribed(x, k)
                        ==> old(self).services.handler.is_subscribed(x, k))
                &&& (forall|x: u64, k: crate::events::EventType|
                    old(self).services.handler.is_subscribed(x, k) && x != id
                        ==> final(self).services.handler.is_subscribed(x, k))
                &&& final(self).services.physics.staged@
                    =~= old(self).services.physics.staged@.push(
                    crate::physics::StagedOp::Remove(id),
                )
                &&& final(self).services.physics.objects@ == old(self).services.physics.objects@
                &&& final(self).services.registry.reclaimed@
                    =~= old(self).services.registry.reclaimed@.push(id)
                &&& final(self).services.registry.free@ =~= old(self).services.registry.free@
                &&& final(self).services.registry.counter == old(self).services.registry.counter
                &&& final(self).services.registry.names@ == old(self).services.registry.names@
                &&& final(self).services.handler.queue@ == old(self).services.handler.queue@
                &&& final(self).services.handler.sysqueue@ == old(self).services.handler.sysqueue@
            }),
    {
        let n = self.entities.len();
        let mut i: usize = 0;
        let mut found = false;
        while i < n
            invariant
                i <= n == self.entities@.len(),
                !found,
                *self == *old(self),
                forall|j: int| 0 <= j < i ==> (#[trigger] self.entities@[j]).0 != id,
            decreases n - i,
        {
            if self.entities[i].0 == id {
                found = true;
                break ;
            }
            i = i + 1;
        }
        if !found {
            proof {
                assert(!self.has_entity(id));
            }
            return ;
        }
        let _removed = self.entities.remove(i);
        proof {
            let pre = old(self).entities@;
            let post = self.entities@;
            assert forall|a: int, b: int| 0 <= a < b < post.len() implies (#[trigger] post[a]).0
                != (#[trigger] post[b]).0 by {
                let oa: int = if a < i { a } else { a + 1 };
                let ob: int = if b < i { b } else { b + 1 };
                assert(pre[oa] == post[a]);
                assert(pre[ob] == post[b]);
            }
            assert forall|k: int| 0 <= k < post.len() implies #[trigger] post[k].0 != id by {
                if k >= i {
                    assert(post[k] == pre[k + 1]);
                    assert(pre[i as int].0 == id);
                }
            }
            assert forall|k: int| 0 <= k < post.len() implies old(self).services.registry.is_live(
                (#[trigger] post[k]).0,
            ) && post[k].1.wf() && post[k].0 == post[k].1.id_spec() by {
                if k < i {
                    assert(post[k] == pre[k]);
                } else {
                    assert(post[k] == pre[k + 1]);
                }
            }
        }
        self.services.handler.unsubscribe_all(id);
        self.services.physics.remove(id);
        proof {
            assert(old(self).services.registry.is_live(id)) by {
                assert(old(self).entities@[i as int].0 == id);
            }
        }
        self.services.registry.return_id(id);
        proof {
            assert forall|k: int|
                0 <= k < self.entities@.len() implies self.services.registry.is_live(
                (#[trigger] self.entities@[k]).0,
            ) by {
                assert(self.entities@[k].0 != id);
            }
            assert forall|x: u64|
                old(self).has_entity(x) && x != id implies final(self).has_entity(x) by {
                let w = choose|w: int|
                    0 <= w < old(self).entities@.len() && old(self).entities@[w].0 == x;
                if w < i {
                    assert(self.entities@[w].0 == x);
                } else if w > i {
                    assert(self.entities@[w - 1].0 == x);
                } else {
                    assert(old(self).entities@[i as int].0 == id);
                }
            }
        }
    }

    /// Deliver a batch of collisions to both participants each, as
    /// mirrored events.
    #[verifier::loop_isolation(false)]
    pub fn dispatch_collisions(&mut self, collisions: &Vec<Collision<PhysicsData>>)
        requires
            old(self).wf(),
        ensures
            final(self).wf(),
            final(self).services.handler.queue@ =~= old(self).services.handler.queue@
                + collision_deliveries(collisions@),
            final(self).services.handler.subscriptions@ == old(
                self,
            ).services.handler.subscriptions@,
            final(self).services.handler.sysqueue@ == old(self).services.handler.sysqueue@,
            final(self).entities@ == old(self).entities@,
            final(self).services.registry == old(self).services.registry,
            final(self).services.physics == old(self).services.physics,
            final(self).services.scaler == old(self).services.scaler,
            final(self).services.player_pos == old(self).services.player_pos,
    {
        let n = collisions.len();
        let mut k: usize = 0;
        while k < n
            invariant
                k <= n == collisions@.len(),
                self.wf(),
                self.entities@ == old(self).entities@,
                self.services.registry == old(self).services.registry,
                self.services.physics == old(self).services.physics,
                self.services.player_pos == old(self).services.player_pos,
                self.services.scaler == old(self).services.scaler,
                self.services.handler.subscriptions@ == old(self).services.handler.subscriptions@,
                self.services.handler.sysqueue@ == old(self).services.handler.sysqueue@,
                self.services.handler.queue@ =~= old(self).services.handler.queue@
                    + collision_deliveries(collisions@.take(k as int)),
            decreases n - k,
        {
            proof {
                assert(collisions@.take(k + 1).drop_last() =~= collisions@.take(k as int));
                assert(collisions@.take(k + 1).last() == collisions@[k as int]);
            }
            let c = &collisions[k];
            self.services.handler.enqueue_specific(
                c.id2,
                Event::Collision(
                    c.id1,
                    CollisionData { this_object: c.data2, other_object: c.data1 },
                ),
            );
            self.services.handler.enqueue_specific(
                c.id1,
                Event::Collision(
                    c.id2,
                    CollisionData { this_object: c.data1, other_object: c.data2 },
                ),
            );
            k = k + 1;
        }
        proof {
            assert(collisions@.take(n as int) =~= collisions@);
        }
    }

    /// Deliver a batch of proximity transitions to both participants
    /// each, as mirrored events.
    #[verifier::loop_isolation(false)]
    pub fn dispatch_proximities(&mut self, reports: &Vec<crate::physics::ProximityReport>)
        requires
            old(self).wf(),
        ensures
            final(self).wf(),
            final(self).services.handler.queue@ =~= old(self).services.handler.queue@
                + proximity_deliveries(reports@),
            final(self).services.handler.subscriptions@ == old(
                self,
            ).services.handler.subscriptions@,
            final(self).services.handler.sysqueue@ == old(self).services.handler.sysqueue@,
            final(self).entities@ == old(self).entities@,
            final(self).services.registry == old(self).services.registry,
            final(self).services.physics == old(self).services.physics,
            final(self).services.scaler == old(self).services.scaler,
            final(self).services.player_pos == old(self).services.player_pos,
    {
        let n = reports.len();
        let mut k: usize = 0;
        while k < n
            invariant
                k <= n == reports@.len(),
                self.wf(),
                self.entities@ == old(self).entities@,
                self.services.registry == old(self).services.registry,
                self.services.physics == old(self).services.physics,
                self.services.player_pos == old(self).services.player_pos,
                self.services.scaler == old(self).services.scaler,
                self.services.handler.subscriptions@ == old(self).services.handler.subscriptions@,
                self.services.handler.sysqueue@ == old(self).services.handler.sysqueue@,
                self.services.handler.queue@ =~= old(self).services.handler.queue@
                    + proximity_deliveries(reports@.take(k as int)),
            decreases n - k,
        {
            proof {
                assert(reports@.take(k + 1).drop_last() =~= reports@.take(k as int));
                assert(reports@.take(k + 1).last() == reports@[k as int]);
            }
            let p = &reports[k];
            let state = if p.entered {
                crate::events::ProximityState::Intersecting
            } else {
                crate::events::ProximityState::Disjoint
            };
            self.services.handler.enqueue_specific(
                p.id2,
                Event::Proximity(
                    p.id1,
                    crate::events::ProximityData {
                        proximity: state,
                        this_object: p.data2,
                        other_object: p.data1,
                    },
                ),
            );
            self.services.handler.enqueue_specific(
                p.id1,
                Event::Proximity(
                    p.id2,
                    crate::events::ProximityData {
                        proximity: state,
                        this_object: p.data1,
                        other_object: p.data2,
                    },
                ),
            );
            k = k + 1;
        }
        proof {
            assert(reports@.take(n as int) =~= reports@);
        }
    }

    /// Drain the delivery queue once and dispatch each entry to its
    /// entity; entries for unknown ids, and ticks outside the admitted
    /// range, are skipped as expected stale references.
    #[verifier::loop_isolation(false)]
    pub fn handle_events(&mut self)
        requires
            old(self).wf(),
        ensures
            final(self).wf(),
            forall|x: u64| old(self).has_entity(x) <==> final(self).has_entity(x),
            final(self).services.registry == old(self).services.registry,
            final(self).services.handler.subscriptions@ == old(self).services.handler.subscriptions@,
            final(self).services.scaler == old(self).services.scaler,
            old(self).services.handler.queue@.len() == 0 ==> final(self).services.handler.queue@
                =~= Seq::<(u64, Event)>::empty(),
            events_passed(*old(self), *final(self)),
    {
        let queue = self.services.handler.flush();
        proof {
            assert forall|x: u64| old(self).has_entity(x) <==> self.has_entity(x) by {
                assert(self.entities@ == old(self).entities@);
            }
        }
        let ghost e0 = *self;
        let ghost mut tr: Seq<Engine> = seq![*self];
        let n = queue.len();
        let mut k: usize = 0;
        while k < n
            invariant
                k <= n == queue@.len(),
                queue@ == old(self).services.handler.queue@,
                self.wf(),
                forall|x: u64| old(self).has_entity(x) <==> self.has_entity(x),
                self.services.registry == old(self).services.registry,
                self.services.handler.subscriptions@ == old(self).services.handler.subscriptions@,
                self.services.scaler == old(self).services.scaler,
                n == 0 ==> self.services.handler.queue@ =~= Seq::<(u64, Event)>::empty(),
                tr.len() == k + 1,
                tr.first() == e0,
                tr.last() == *self,
                forall|j: int|
                    0 <= j < k ==> #[trigger] queue_entry_applied(tr[j], queue@[j], tr[j + 1]),
            decreases n - k,
        {
            let ghost pre_step = *self;
            let (id, event) = queue[k];
            let skip = match event {
                Event::Update(t) => !(0 <= t && t <= TICK_LIMIT),
                _ => false,
            };
            if id != 0 && !skip {
                self.dispatch(id, &event);
            } else {
                self.handle_internal_event(&event);
            }
            proof {
                let tr0 = tr;
                tr = tr.push(*self);
                assert(tr.last() == *self);
                assert(tr.first() == e0);
                assert(queue_entry_applied(pre_step, queue@[k as int], *self));
                assert forall|j: int|
                    0 <= j < k + 1 implies #[trigger] queue_entry_applied(
                    tr[j],
                    queue@[j],
                    tr[j + 1],
                ) by {
                    if j < k {
                        assert(tr[j] == tr0[j]);
                        assert(tr[j + 1] == tr0[j + 1]);
                    } else {
                        assert(tr[j] == tr0.last());
                        assert(tr0.last() == pre_step);
                        assert(tr[j + 1] == *self);
                    }
                }
            }
            k = k + 1;
        }
        proof {
            assert(events_passed(*old(self), *self)) by {
                assert(tr.len() == old(self).services.handler.queue@.len() + 1);
                assert(tr.first() == e0);
                assert(e0.entities@ == old(self).entities@);
                assert(e0.services.handler.queue@ =~= Seq::<(u64, Event)>::empty());
                assert(tr.last() == *self);
            }
        }
    }

    /// Deliver one event to one entity, if it is live. The entity is
    /// taken off the table while its handler runs, so delivery never
    /// mutates the table it is reading.
    #[verifier::loop_isolation(false)]
    pub fn dispatch(&mut self, id: u64, event: &Event)
        requires
            old(self).wf(),
            *event matches Event::Update(t) ==> 0 <= t <= TICK_LIMIT,
        ensures
            final(self).wf(),
            !old(self).has_entity(id) ==> *final(self) == *old(self),
            old(self).has_entity(id) ==> exists|i: int|
                {
                    &&& 0 <= i < old(self).entities@.len()
                    &&& (#[trigger] old(self).entities@[i]).0 == id
                    &&& final(self).entities@.len() == old(self).entities@.len()
                    &&& final(self).entities@ =~= old(self).entities@.remove(i).push(
                        (id, final(self).entities@.last().1),
                    )
                    &&& final(self).entities@.last().0 == id
                    &&& (old(self).entities@[i].1 is Player <==> final(self).entities@.last().1
                        is Player)
                    &&& (old(self).entities@[i].1 is Enemy <==> final(self).entities@.last().1
                        is Enemy)
                    &&& (old(self).entities@[i].1 is Level <==> final(self).entities@.last().1
                        is Level)
                },
            forall|x: u64| old(self).has_entity(x) <==> final(self).has_entity(x),
            final(self).services.registry == old(self).services.registry,
            final(self).services.handler.subscriptions@ == old(self).services.handler.subscriptions@,
            final(self).services.scaler == old(self).services.scaler,
            dispatched(*old(self), id, *event, *final(self)),
    {
        let n = self.entities.len();
        let mut i: usize = 0;
        let mut found = false;
        while i < n
            invariant
                i <= n == self.entities@.len(),
                !found,
                *self == *old(self),
                forall|j: int| 0 <= j < i ==> (#[trigger] self.entities@[j]).0 != id,
            decreases n - i,
        {
            if self.entities[i].0 == id {
                found = true;
                break ;
            }
            i = i + 1;
        }
        if !found {
            proof {
                assert(!self.has_entity(id));
            }
            return ;
        }
        let (eid, mut e) = self.entities.remove(i);
        proof {
            let pre = old(self).entities@;
            let post = self.entities@;
            assert forall|a: int, b: int| 0 <= a < b < post.len() implies (#[trigger] post[a]).0
                != (#[trigger] post[b]).0 by {
                let oa: int = if a < i { a } else { a + 1 };
                let ob: int = if b < i { b } else { b + 1 };
                assert(pre[oa] == post[a]);
                assert(pre[ob] == post[b]);
            }
            assert forall|k: int|
                0 <= k < post.len() implies old(self).services.registry.is_live(
                (#[trigger] post[k]).0,
            ) && post[k].1.wf() && post[k].0 == post[k].1.id_spec() && post[k].0 != eid by {
                if k < i {
                    assert(post[k] == pre[k]);
                } else {
                    assert(post[k] == pre[k + 1]);
                }
                assert(pre[i as int].0 == eid);
            }
            assert(e.wf() && e.id_spec() == eid) by {
                assert(old(self).entities@[i as int] == (eid, e));
            }
        }
        let ghost pre_reg = self.services.registry;
        e.handle_event(event, &mut self.services);
        self.entities.push((eid, e));
        proof {
            let post = self.entities@;
            assert forall|a: int, b: int| 0 <= a < b < post.len() implies (#[trigger] post[a]).0
                != (#[trigger] post[b]).0 by {}
            assert(old(self).entities@[i as int].0 == id);
            assert(final(self).entities@ =~= old(self).entities@.remove(i as int).push(
                (id, final(self).entities@.last().1),
            ));
            assert(final(self).entities@.last().0 == id);
            assert(old(self).entities@[i as int].1 is Player
                <==> final(self).entities@.last().1 is Player);
            assert(old(self).entities@[i as int].1 is Enemy
                <==> final(self).entities@.last().1 is Enemy);
            assert(old(self).entities@[i as int].1 is Level
                <==> final(self).entities@.last().1 is Level);
            assert forall|x: u64| old(self).has_entity(x) implies final(self).has_entity(x) by {
                let w = choose|w: int|
                    0 <= w < old(self).entities@.len() && old(self).entities@[w].0 == x;
                if w == i {
                    assert(post[post.len() - 1].0 == x);
                } else if w < i {
                    assert(post[w].0 == x);
                } else {
                    assert(post[w - 1].0 == x);
                }
            }
            assert forall|x: u64| final(self).has_entity(x) implies old(self).has_entity(x) by {
                let w = choose|w: int| 0 <= w < post.len() && post[w].0 == x;
                if w == post.len() - 1 {
                    assert(old(self).entities@[i as int].0 == x);
                } else if w < i {
                    assert(old(self).entities@[w].0 == x);
                } else {
                    assert(old(self).entities@[w + 1].0 == x);
                }
            }
            assert(crate::entities::object_stepped(
                old(self).entities@[i as int].1,
                *event,
                old(self).services,
                final(self).entities@.last().1,
                final(self).services,
            ));
        }
    }

    /// Handle an event addressed to the engine itself (id zero): there
    /// is nothing to do for any current kind.
    pub fn handle_internal_event(&mut self, event: &Event)
        requires
            old(self).wf(),
        ensures
            final(self).wf(),
            *final(self) == *old(self),
    {
        let _ = event;
    }

    /// One simulation step: the update tick is published and delivered;
    /// the spatial world commits its staged mutations and reports the
    /// watched object's contacts and the boundary volume's proximity
    /// transitions, each delivered to both sides; then the system queue
    /// is drained, applying creations, destructions and time skips;
    /// finally the registry reclaims the step's released ids. A time
    /// skip re-runs this pipeline in fixed sub-steps, never jumping the
    /// clock, to bounded depth.
    #[verifier::loop_isolation(false)]
    pub fn advance_simulation(&mut self, step: Milli, fuel: u64)
        requires
            old(self).wf(),
            0 <= step <= TICK_LIMIT,
        ensures
            final(self).wf(),
            final(self).services.registry.reclaimed@ =~= Seq::<u64>::empty(),
            final(self).services.handler.sysqueue@ =~= Seq::<SysEvent<CreateRequest>>::empty(),
            final(self).services.scaler == old(self).services.scaler,
            exists|e1: Engine|
                {
                    &&& #[trigger] update_published(*old(self), step, e1)
                    &&& exists|e2: Engine|
                        {
                            &&& #[trigger] events_passed(e1, e2)
                            &&& exists|e3: Engine|
                                {
                                    &&& #[trigger] contacts_delivered(e2, e3)
                                    &&& exists|e4: Engine|
                                        #[trigger] events_passed(e3, e4) && sys_drained(
                                            e4,
                                            *final(self),
                                        )
                                }
                        }
                },
        decreases fuel, 0nat,
    {
        self.services.handler.enqueue_all(Event::Update(step));
        let ghost s1 = *self;
        proof {
            assert(update_published(*old(self), step, s1));
        }
        self.handle_events();
        let ghost s2 = *self;
        let (collisions, proximities) = self.services.physics.update();
        self.dispatch_collisions(&collisions);
        self.dispatch_proximities(&proximities);
        let ghost s3 = *self;
        proof {
            assert(contacts_delivered(s2, s3)) by {
                assert(s3.services.handler.queue@ =~= s2.services.handler.queue@
                    + collision_deliveries(collisions@) + proximity_deliveries(proximities@));
            }
        }
        self.handle_events();
        let ghost s4 = *self;
        let sys = self.services.handler.flush_sys();
        let ghost d0 = *self;
        let ghost mut tr: Seq<Engine> = seq![*self];
        let n = sys.len();
        let mut k: usize = 0;
        while k < n
            invariant
                k <= n == sys@.len(),
                sys@ == s4.services.handler.sysqueue@,
                self.wf(),
                self.services.handler.sysqueue@ =~= Seq::<SysEvent<CreateRequest>>::empty(),
                self.services.scaler == old(self).services.scaler,
                tr.len() == k + 1,
                tr.first() == d0,
                tr.last() == *self,
                forall|j: int|
                    0 <= j < k ==> #[trigger] sys_entry_applied(tr[j], sys@[j], tr[j + 1]),
            decreases n - k,
        {
            let ghost pre_step = *self;
            match &sys[k] {
                SysEvent::Create(req) => {
                    if self.services.registry.counter < u64::MAX && request_check(req) {
                        let req2 = duplicate_request(req);
                        let spawned_id = self.spawn(req2);
                        proof {
                            assert(spawned(pre_step, *req, *self)) by {
                                assert(!pre_step.services.registry.is_live(spawned_id));
                            }
                        }
                    }
                },
                SysEvent::Destroy(id) => {
                    self.destroy(*id);
                    proof {
                        assert(destroyed(pre_step, *id, *self));
                    }
                },
                SysEvent::FastForward(amount) => {
                    if fuel > 0 {
                        let left: Milli = if *amount > MAG_LIMIT {
                            MAG_LIMIT
                        } else if *amount < 0 {
                            0
                        } else {
                            *amount
                        };
                        let mut iters: Milli = (left + 15) / 16;
                        while iters > 0
                            invariant
                                self.wf(),
                                fuel > 0,
                                iters >= 0,
                                self.services.handler.sysqueue@ =~= Seq::<
                                    SysEvent<CreateRequest>,
                                >::empty(),
                                self.services.scaler == old(self).services.scaler,
                            decreases iters,
                        {
                            self.advance_simulation(16, fuel - 1);
                            iters = iters - 1;
                        }
                    }
                },
            }
            proof {
                let tr0 = tr;
                tr = tr.push(*self);
                assert(sys_entry_applied(pre_step, sys@[k as int], *self));
                assert forall|j: int|
                    0 <= j < k + 1 implies #[trigger] sys_entry_applied(
                    tr[j],
                    sys@[j],
                    tr[j + 1],
                ) by {
                    if j < k {
                        assert(tr[j] == tr0[j]);
                        assert(tr[j + 1] == tr0[j + 1]);
                    } else {
                        assert(tr[j] == tr0.last());
                        assert(tr0.last() == pre_step);
                        assert(tr[j + 1] == *self);
                    }
                }
            }
            k = k + 1;
        }
        let ghost d_end = *self;
        self.services.registry.reclaim();
        proof {
            assert forall|i: int|
                0 <= i < self.entities@.len() implies self.services.registry.is_live(
                (#[trigger] self.entities@[i]).0,
            ) by {}
            assert(sys_drained(s4, *self)) by {
                assert(tr.len() == s4.services.handler.sysqueue@.len() + 1);
                assert(tr.first() == d0);
                assert(tr.last() == d_end);
            }
            assert(events_passed(s3, s4));
            assert(events_passed(s1, s2));
            assert(update_published(*old(self), step, s1));
        }
    }
}

/// A creation request carries only well-formed data.
pub open spec fn request_wf(r: CreateRequest) -> bool {
    match r {
        CreateRequest::Player => true,
        CreateRequest::PlayerBullet(_) => true,
        CreateRequest::Enemy(_, _, paths) => crate::spawn::paths_wf(paths@),
        CreateRequest::Bullet(info, _, vel) => info.wf() && vel.wf(),
        CreateRequest::ScreenArea => true,
        CreateRequest::Level(script) => crate::level::script_wf(script@)
            && crate::level::script_keys_unique(script@),
    }
}

/// Check at run time that a creation request is well formed, skipping
/// malformed ones as content errors.
#[verifier::loop_isolation(false)]
fn request_check(r: &CreateRequest) -> (ok: bool)
    ensures
        ok == request_wf(*r),
{
    match r {
        CreateRequest::Player => true,
        CreateRequest::PlayerBullet(_) => true,
        CreateRequest::Enemy(_, _, paths) => {
            let n = paths.len();
            let mut i: usize = 0;
            while i < n
                invariant
                    i <= n == paths@.len(),
                    forall|j: int|
                        0 <= j < i ==> {
                            &&& (#[trigger] paths@[j]).wf()
                            &&& (paths@[j].path_type is Arc ==> paths@[j].center is Some
                                && paths@[j].direction is Some)
                            &&& (paths@[j].path_type is Curve ==> paths@[j].points is Some)
                        },
                decreases n - i,
            {
                if !path_builder_check(&paths[i]) {
                    return false;
                }
                i = i + 1;
            }
            true
        },
        CreateRequest::Bullet(info, _, vel) => {
            let b_ok = match info.behavior {
                crate::action::Behavior::Straight => true,
                crate::action::Behavior::Deaccelerate(t, a) => -MAG_LIMIT <= t && t <= MAG_LIMIT
                    && 0 <= a && a <= MAG_LIMIT,
            };
            b_ok && -MAG_LIMIT <= vel.x && vel.x <= MAG_LIMIT && -MAG_LIMIT <= vel.y && vel.y
                <= MAG_LIMIT
        },
        CreateRequest::ScreenArea => true,
        CreateRequest::Level(script) => script_check(script),
    }
}

/// Check one path builder's bounds and mandatory fields.
#[verifier::loop_isolation(false)]
fn path_builder_check(pb: &crate::path::PathBuilder) -> (ok: bool)
    ensures
        ok == (pb.wf() && (pb.path_type is Arc ==> pb.center is Some && pb.direction is Some) && (
        pb.path_type is Curve ==> pb.points is Some)),
{
    let speed_ok = match pb.speed {
        Some(s) => 0 <= s && s <= MAG_LIMIT,
        None => true,
    };
    let center_ok = match &pb.center {
        Some(c) => {
            let v = match c {
                crate::point::Point::Fixed(v) => *v,
                crate::point::Point::Player(v) => *v,
                crate::point::Point::Current(v) => *v,
            };
            -MAG_LIMIT <= v.x && v.x <= MAG_LIMIT && -MAG_LIMIT <= v.y && v.y <= MAG_LIMIT
        },
        None => true,
    };
    let radius_ok = match pb.radius {
        Some(v) => 1 <= v && v <= MAG_LIMIT,
        None => true,
    };
    let degrees_ok = match pb.degrees {
        Some(v) => -MAG_LIMIT <= v && v <= MAG_LIMIT,
        None => true,
    };
    let time_ok = match pb.time {
        Some(v) => 0 <= v && v <= MAG_LIMIT,
        None => true,
    };
    let points_ok = match &pb.points {
        Some(pts) => {
            let n = pts.len();
            let mut i: usize = 0;
            let mut all = true;
            while i < n
                invariant
                    i <= n == pts@.len(),
                    all == (forall|j: int| 0 <= j < i ==> (#[trigger] pts@[j]).wf()),
                decreases n - i,
            {
                let v = match pts[i] {
                    crate::point::Point::Fixed(v) => v,
                    crate::point::Point::Player(v) => v,
                    crate::point::Point::Current(v) => v,
                };
                if !(-MAG_LIMIT <= v.x && v.x <= MAG_LIMIT && -MAG_LIMIT <= v.y && v.y
                    <= MAG_LIMIT) {
                    all = false;
                }
                i = i + 1;
            }
            all
        },
        None => true,
    };
    let actions_ok = {
        let n = pb.actions.len();
        let mut i: usize = 0;
        let mut all = true;
        while i < n
            invariant
                i <= n == pb.actions@.len(),
                all == (forall|j: int| 0 <= j < i ==> (#[trigger] pb.actions@[j]).wf()),
            decreases n - i,
        {
            if !action_check(&pb.actions[i]) {
                all = false;
            }
            i = i + 1;
        }
        all
    };
    let kind_ok = match pb.path_type {
        crate::path::PathType::Arc => pb.center.is_some() && pb.direction.is_some(),
        crate::path::PathType::Curve => pb.points.is_some(),
        crate::path::PathType::Fixed => true,
    };
    speed_ok && center_ok && radius_ok && degrees_ok && time_ok && points_ok && actions_ok
        && kind_ok
}

/// Check one delayed action's bounds.
fn action_check(a: &crate::action::Action) -> (ok: bool)
    ensures
        ok == a.wf(),
{
    let delay_ok = 0 <= a.delay && a.delay <= MAG_LIMIT;
    let ty_ok = match &a.action_type {
        crate::action::ActionType::Idle => true,
        crate::action::ActionType::Bullets(b, pb) => {
            let b_ok = match b.behavior {
                crate::action::Behavior::Straight => true,
                crate::action::Behavior::Deaccelerate(t, acc) => -MAG_LIMIT <= t && t <= MAG_LIMIT
                    && 0 <= acc && acc <= MAG_LIMIT,
            };
            b_ok && pattern_builder_check(pb)
        },
    };
    delay_ok && ty_ok
}

/// Check one pattern builder's bounds and mandatory angles.
fn pattern_builder_check(pb: &crate::pattern::PatternBuilder) -> (ok: bool)
    ensures
        ok == (pb.wf() && pb.start_angle is Some && pb.stop_angle is Some),
{
    let angle_ok = |a: &crate::pattern::Angle| -> (r: bool)
        ensures
            r == a.wf(),
        {
            let v = match a {
                crate::pattern::Angle::Fixed(v) => *v,
                crate::pattern::Angle::Player(v) => *v,
            };
            -MAG_LIMIT <= v && v <= MAG_LIMIT
        };
    let sa_ok = match &pb.start_angle {
        Some(a) => angle_ok(a),
        None => false,
    };
    let so_ok = match &pb.stop_angle {
        Some(a) => angle_ok(a),
        None => false,
    };
    sa_ok && so_ok && 0 <= pb.time_int && pb.time_int <= MAG_LIMIT && 1 <= pb.amount && pb.amount
        <= 1_000_000 && pb.repeat <= 1_000_000 && 0 <= pb.repeat_delay && pb.repeat_delay
        <= MAG_LIMIT && 0 <= pb.speed && pb.speed <= MAG_LIMIT && 0 <= pb.radius && pb.radius
        <= MAG_LIMIT && -MAG_LIMIT <= pb.wobble_angle && pb.wobble_angle <= MAG_LIMIT && 1
        <= pb.wobble_time && pb.wobble_time <= MAG_LIMIT
}

/// Check a level script's bounds.
#[verifier::loop_isolation(false)]
fn script_check(script: &crate::level::LevelScript) -> (ok: bool)
    ensures
        ok == (crate::level::script_wf(script@) && crate::level::script_keys_unique(script@)),
{
    let n = script.len();
    let mut i: usize = 0;
    while i < n
        invariant
            i <= n == script@.len(),
            forall|a: int, b: int|
                0 <= a < i && 0 <= b < (#[trigger] script@[a]).1@.len() ==> (
                #[trigger] script@[a].1@[b]).wf(),
            forall|a: int, b: int|
                0 <= a < b < i ==> (#[trigger] script@[a]).0@ != (#[trigger] script@[b]).0@,
        decreases n - i,
    {
        let mut p: usize = 0;
        while p < i
            invariant
                p <= i < n == script@.len(),
                forall|a: int| 0 <= a < p ==> (#[trigger] script@[a]).0@ != script@[i as int].0@,
            decreases i - p,
        {
            if script[p].0 == script[i].0 {
                return false;
            }
            p = p + 1;
        }
        let evs = &script[i].1;
        let m = evs.len();
        let mut j: usize = 0;
        while j < m
            invariant
                j <= m == evs@.len(),
                evs@ == script@[i as int].1@,
                i < n == script@.len(),
                forall|b: int| 0 <= b < j ==> (#[trigger] evs@[b]).wf(),
            decreases m - j,
        {
            if !level_event_check(&evs[j]) {
                return false;
            }
            j = j + 1;
        }
        i = i + 1;
    }
    true
}

/// Check one level event's bounds.
#[verifier::loop_isolation(false)]
fn level_event_check(e: &crate::level::LevelEvent) -> (ok: bool)
    ensures
        ok == e.wf(),
{
    if !(0 <= e.delay && e.delay <= MAG_LIMIT) {
        return false;
    }
    let n = e.spawns.len();
    let mut i: usize = 0;
    while i < n
        invariant
            i <= n == e.spawns@.len(),
            forall|j: int| 0 <= j < i ==> (#[trigger] e.spawns@[j]).wf(),
        decreases n - i,
    {
        if !spawn_check(&e.spawns[i]) {
            return false;
        }
        i = i + 1;
    }
    true
}

/// Check one spawn descriptor's bounds.
#[verifier::loop_isolation(false)]
fn spawn_check(s: &crate::spawn::Spawn) -> (ok: bool)
    ensures
        ok == s.wf(),
{
    let loc_ok = -MAG_LIMIT <= s.location.x && s.location.x <= MAG_LIMIT && -MAG_LIMIT
        <= s.location.y && s.location.y <= MAG_LIMIT;
    if !loc_ok || !(0 <= s.repeat_delay && s.repeat_delay <= MAG_LIMIT) {
        return false;
    }
    if !pattern_check(&s.pattern) {
        return false;
    }
    let n = s.paths.len();
    let mut i: usize = 0;
    while i < n
        invariant
            i <= n == s.paths@.len(),
            forall|j: int|
                0 <= j < i ==> {
                    &&& (#[trigger] s.paths@[j]).wf()
                    &&& (s.paths@[j].path_type is Arc ==> s.paths@[j].center is Some
                        && s.paths@[j].direction is Some)
                    &&& (s.paths@[j].path_type is Curve ==> s.paths@[j].points is Some)
                },
        decreases n - i,
    {
        if !path_builder_check(&s.paths[i]) {
            return false;
        }
        i = i + 1;
    }
    true
}

/// Check one built pattern's bounds.
#[verifier::loop_isolation(false)]
fn pattern_check(p: &crate::pattern::Pattern) -> (ok: bool)
    ensures
        ok == p.wf(),
{
    let scalars = 0 <= p.time_int && p.time_int <= MAG_LIMIT && 1 <= p.amount && p.amount
        <= 1_000_000 && p.repeat <= 1_000_000 && 0 <= p.repeat_delay && p.repeat_delay <= MAG_LIMIT
        && -crate::pattern::ANGLE_LIMIT <= p.start_angle && p.start_angle
        <= crate::pattern::ANGLE_LIMIT && -crate::pattern::ANGLE_LIMIT <= p.stop_angle
        && p.stop_angle <= crate::pattern::ANGLE_LIMIT && 0 <= p.speed && p.speed <= MAG_LIMIT && 0
        <= p.radius && p.radius <= MAG_LIMIT && 0 <= p.rep_time && p.rep_time <= MAG_LIMIT
        && -MAG_LIMIT <= p.wobble_angle && p.wobble_angle <= MAG_LIMIT && 1 <= p.wobble_time
        && p.wobble_time <= MAG_LIMIT && 0 <= p.cur_wobble_time && p.cur_wobble_time
        < p.wobble_time;
    let sa = match p.actual_start {
        crate::pattern::Angle::Fixed(v) => v,
        crate::pattern::Angle::Player(v) => v,
    };
    let so = match p.actual_stop {
        crate::pattern::Angle::Fixed(v) => v,
        crate::pattern::Angle::Player(v) => v,
    };
    let angles = -MAG_LIMIT <= sa && sa <= MAG_LIMIT && -MAG_LIMIT <= so && so <= MAG_LIMIT;
    let tracks = -MAG_LIMIT <= p.track_cur.x && p.track_cur.x <= MAG_LIMIT && -MAG_LIMIT
        <= p.track_cur.y && p.track_cur.y <= MAG_LIMIT && -MAG_LIMIT <= p.track_player.x
        && p.track_player.x <= MAG_LIMIT && -MAG_LIMIT <= p.track_player.y && p.track_player.y
        <= MAG_LIMIT;
    if !(scalars && angles && tracks) {
        return false;
    }
    let n = p.active_patterns.len();
    let mut i: usize = 0;
    while i < n
        invariant
            i <= n == p.active_patterns@.len(),
            forall|j: int|
                0 <= j < i ==> (#[trigger] p.active_patterns@[j]).wf()
                    && p.active_patterns@[j].int_time <= MAG_LIMIT
                    && p.active_patterns@[j].amount_left <= p.amount,
        decreases n - i,
    {
        let st = &p.active_patterns[i];
        let ok = -crate::pattern::SWEEP_LIMIT <= st.cur_angle && st.cur_angle
            <= crate::pattern::SWEEP_LIMIT && 0 <= st.int_time && st.int_time <= MAG_LIMIT
            && -MAG_LIMIT <= st.wobble_angle && st.wobble_angle <= MAG_LIMIT && st.amount_left
            <= p.amount;
        if !ok {
            return false;
        }
        i = i + 1;
    }
    true
}

/// A field-for-field copy of a creation request.
fn duplicate_request(r: &CreateRequest) -> (c: CreateRequest)
    requires
        request_wf(*r),
    ensures
        request_wf(c),
        crate::level::sig_of(SysEvent::Create(c)) == crate::level::sig_of(
            SysEvent::Create(*r),
        ),
        c is Player <==> r is Player,
        c is PlayerBullet <==> r is PlayerBullet,
        c is Enemy <==> r is Enemy,
        c is Bullet <==> r is Bullet,
        c is ScreenArea <==> r is ScreenArea,
        c is Level <==> r is Level,
{
    match r {
        CreateRequest::Player => CreateRequest::Player,
        CreateRequest::PlayerBullet(p) => CreateRequest::PlayerBullet(*p),
        CreateRequest::Enemy(info, pos, paths) => CreateRequest::Enemy(
            *info,
            *pos,
            crate::spawn::duplicate_paths(paths),
        ),
        CreateRequest::Bullet(info, pos, vel) => CreateRequest::Bullet(*info, *pos, *vel),
        CreateRequest::ScreenArea => CreateRequest::ScreenArea,
        CreateRequest::Level(script) => CreateRequest::Level(duplicate_script(script)),
    }
}

/// A field-for-field copy of a level script.
#[verifier::loop_isolation(false)]
fn duplicate_script(script: &crate::level::LevelScript) -> (c: crate::level::LevelScript)
    requires
        crate::level::script_wf(script@),
        crate::level::script_keys_unique(script@),
    ensures
        crate::level::script_wf(c@),
        crate::level::script_keys_unique(c@),
{
    let n = script.len();
    let mut out: crate::level::LevelScript = Vec::new();
    let mut i: usize = 0;
    while i < n
        invariant
            i <= n == script@.len(),
            crate::level::script_wf(script@),
            crate::level::script_keys_unique(script@),
            crate::level::script_wf(out@),
            out@.len() == i,
            forall|a: int| 0 <= a < i ==> (#[trigger] out@[a]).0@ == script@[a].0@,
        decreases n - i,
    {
        let key = script[i].0.clone();
        let evs = &script[i].1;
        let m = evs.len();
        let mut copies: Vec<crate::level::LevelEvent> = Vec::new();
        let mut j: usize = 0;
        while j < m
            invariant
                j <= m == evs@.len(),
                evs@ == script@[i as int].1@,
                i < n == script@.len(),
                crate::level::script_wf(script@),
                forall|b: int| 0 <= b < copies@.len() ==> (#[trigger] copies@[b]).wf(),
            decreases m - j,
        {
            let e = &evs[j];
            proof {
                assert(script@[i as int].1@[j as int].wf());
            }
            let mut spawns: Vec<crate::spawn::Spawn> = Vec::new();
            let sm = e.spawns.len();
            let mut sk: usize = 0;
            while sk < sm
                invariant
                    sk <= sm == e.spawns@.len(),
                    forall|b: int| 0 <= b < e.spawns@.len() ==> (#[trigger] e.spawns@[b]).wf(),
                    forall|b: int| 0 <= b < spawns@.len() ==> (#[trigger] spawns@[b]).wf(),
                decreases sm - sk,
            {
                let sp = e.spawns[sk].duplicate();
                spawns.push(sp);
                sk = sk + 1;
            }
            let copy = crate::level::LevelEvent {
                name: e.name.clone(),
                id: e.id,
                delay: e.delay,
                spawns,
            };
            copies.push(copy);
            j = j + 1;
        }
        out.push((key, copies));
        proof {
            assert forall|a: int, b: int|
                0 <= a < out@.len() && 0 <= b < (#[trigger] out@[a]).1@.len() implies (
            #[trigger] out@[a].1@[b]).wf() by {}
        }
        i = i + 1;
    }
    proof {
        assert forall|a: int, b: int|
            0 <= a < b < out@.len() implies (#[trigger] out@[a]).0@ != (
        #[trigger] out@[b]).0@ by {
            assert(out@[a].0@ == script@[a].0@);
            assert(out@[b].0@ == script@[b].0@);
        }
    }
    out
}


/// Law: no two simultaneously live entities hold the same identity.
/// This is part of the engine invariant, which every public operation
/// preserves; stated here on its own for any two table places.
pub proof fn lemma_identity_uniqueness(e: Engine, i: int, j: int)
    requires
        e.wf(),
        0 <= i < e.entities@.len(),
        0 <= j < e.entities@.len(),
        i != j,
    ensures
        e.entities@[i].0 != e.entities@[j].0,
        e.entities@[i].1.id_spec() != e.entities@[j].1.id_spec(),
{
    if i < j {
        assert(e.entities@[i].0 != e.entities@[j].0);
    } else {
        assert(e.entities@[j].0 != e.entities@[i].0);
    }
}

} // verus!
