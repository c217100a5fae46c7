//! Event bus: the engine's event union, the per-identity subscription
//! table, the deferred delivery queue and the separate system queue.
//!
//! Subscription matching deliberately compares events by *kind* only: a
//! subscriber registers for an event kind, not for particular payload
//! values. Structural requests (create, destroy, time skip) travel on a
//! separate system queue so they are applied only after a full delivery
//! pass, never while the entity table is being iterated.

use vstd::prelude::*;

use crate::num::Milli;

verus! {

broadcast use vstd::seq_lib::group_seq_properties;

/// Whether a key or button changed to pressed or to released.
#[derive(Clone, Copy, Debug, PartialEq, Eq, Structural)]
pub enum InputState {
    Pressed,
    Released,
}

/// Mouse button identity, reduced to what the simulation reads.
#[derive(Clone, Copy, Debug, PartialEq, Eq, Structural)]
pub enum MouseButton {
    Left,
    Right,
    Middle,
    Other,
}

/// Keyboard key, as a platform scan-code style number.
pub type KeyCode = u32;

/// Immutable payload attached to every spatial object: the owning
/// entity's id, a semantic tag, and the interaction-group byte.
#[derive(Clone, Copy, Debug, PartialEq, Eq, Structural)]
pub struct PhysicsData {
    /// Identity of the entity that owns the spatial object.
    pub entity_id: u64,
    /// Application-defined semantic tag.
    pub tag: u64,
    /// Interaction-group byte the spatial object was registered with.
    pub group: u8,
}

impl PhysicsData {
    /// Bundle an entity id, a tag and an interaction-group byte.
    pub fn new(entity_id: u64, tag: u64, group: u8) -> (r: PhysicsData)
        ensures
            r.entity_id == entity_id,
            r.tag == tag,
            r.group == group,
    {
        PhysicsData { entity_id, tag, group }
    }
}

/// Payloads of a collision event, one for each participant.
#[derive(Clone, Copy, Debug, PartialEq, Eq, Structural)]
pub struct CollisionData {
    /// Payload of the entity receiving the event.
    pub this_object: PhysicsData,
    /// Payload of the other participant.
    pub other_object: PhysicsData,
}

/// Degree of closeness a proximity event reports.
#[derive(Clone, Copy, Debug, PartialEq, Eq, Structural)]
pub enum ProximityState {
    Intersecting,
    WithinMargin,
    Disjoint,
}

/// Payloads of a proximity event, one for each participant.
#[derive(Clone, Copy, Debug, PartialEq, Eq, Structural)]
pub struct ProximityData {
    /// How close the two objects are.
    pub proximity: ProximityState,
    /// Payload of the entity receiving the event.
    pub this_object: PhysicsData,
    /// Payload of the other participant.
    pub other_object: PhysicsData,
}

/// Application-defined events, a closed enum dispatched like any other
/// event kind.
#[derive(Clone, Copy, Debug, PartialEq, Eq, Structural)]
pub enum AppEvent {
    /// The mouse was pressed over the receiver's bounds.
    MouseClickedOver,
    /// The mouse was released over the receiver's bounds.
    MouseUnclickedOver,
    /// The mouse entered the receiver's bounds.
    MouseOver,
    /// The mouse left the receiver's bounds.
    MouseLeft,
    /// A scripted level with this number was selected.
    Level(u64),
    /// The entity with this id should despawn itself.
    Despawn(u64),
    /// A delayed action with this number fired.
    Action(u64),
    /// A pattern with this number fired.
    Pattern(u64),
    /// A level starts, skipped forward by this many milliseconds.
    LevelStart(Milli),
}

/// The engine's event union. Time is in milliseconds, positions in
/// thousandths of a world unit.
#[derive(Clone, Copy, Debug, PartialEq, Eq, Structural)]
pub enum Event {
    /// One simulation tick of this many milliseconds.
    Update(Milli),
    /// Contact with the object owned by the carried id.
    Collision(u64, CollisionData),
    /// Closeness change against the object owned by the carried id.
    Proximity(u64, ProximityData),
    /// A key changed state.
    KeyInput(InputState, KeyCode),
    /// The mouse moved to this position.
    MouseMove(Milli, Milli),
    /// A mouse button changed state.
    MouseInput(InputState, MouseButton),
    /// The mouse wheel moved by this delta.
    MouseScroll(Milli, Milli),
    /// The receiving entity was just created.
    Spawn,
    /// A plain timer with this user id fired.
    Timer(u64),
    /// A classed timer fired: class byte, then user id.
    CTimer(u8, u64),
    /// Ordinary render phase.
    Render,
    /// Custom-geometry render phase.
    RenderCustom,
    /// Overlay render phase.
    RenderMenu,
    /// Application-defined payload.
    Custom(AppEvent),
}

/// The kind of an event, ignoring its payload. Subscriptions are keyed
/// by kind.
#[derive(Clone, Copy, Debug, PartialEq, Eq, Structural)]
pub enum EventType {
    Update,
    Collision,
    Proximity,
    KeyInput,
    MouseMove,
    MouseInput,
    MouseScroll,
    Spawn,
    Timer,
    CTimer,
    Render,
    RenderCustom,
    RenderMenu,
    Custom,
}

impl Event {
    /// The kind of this event, with the payload forgotten.
    pub open spec fn kind(self) -> EventType {
        match self {
            Event::Update(..) => EventType::Update,
            Event::Collision(..) => EventType::Collision,
            Event::Proximity(..) => EventType::Proximity,
            Event::KeyInput(..) => EventType::KeyInput,
            Event::MouseMove(..) => EventType::MouseMove,
            Event::MouseInput(..) => EventType::MouseInput,
            Event::MouseScroll(..) => EventType::MouseScroll,
            Event::Spawn => EventType::Spawn,
            Event::Timer(..) => EventType::Timer,
            Event::CTimer(..) => EventType::CTimer,
            Event::Render => EventType::Render,
            Event::RenderCustom => EventType::RenderCustom,
            Event::RenderMenu => EventType::RenderMenu,
            Event::Custom(..) => EventType::Custom,
        }
    }

    /// Compute the kind of this event.
    pub fn event_type(&self) -> (t: EventType)
        ensures
            t == self.kind(),
    {
        match self {
            Event::Update(..) => EventType::Update,
            Event::Collision(..) => EventType::Collision,
            Event::Proximity(..) => EventType::Proximity,
            Event::KeyInput(..) => EventType::KeyInput,
            Event::MouseMove(..) => EventType::MouseMove,
            Event::MouseInput(..) => EventType::MouseInput,
            Event::MouseScroll(..) => EventType::MouseScroll,
            Event::Spawn => EventType::Spawn,
            Event::Timer(..) => EventType::Timer,
            Event::CTimer(..) => EventType::CTimer,
            Event::Render => EventType::Render,
            Event::RenderCustom => EventType::RenderCustom,
            Event::RenderMenu => EventType::RenderMenu,
            Event::Custom(..) => EventType::Custom,
        }
    }
}

/// Structural request applied after a delivery pass. `C` is the payload
/// a creation request carries (the engine instantiates it with its spawn
/// descriptor).
pub enum SysEvent<C> {
    /// Tear the entity with this id down at the end of the step.
    Destroy(u64),
    /// Create an entity from this descriptor at the end of the step.
    Create(C),
    /// Re-run the step pipeline for this many milliseconds of sub-steps.
    FastForward(Milli),
}

/// The deliveries `enqueue_all` makes for one event: one queue entry per
/// subscription whose kind matches, in subscription order.
pub open spec fn deliveries(subs: Seq<(u64, EventType)>, e: Event) -> Seq<(u64, Event)>
    decreases subs.len(),
{
    if subs.len() == 0 {
        Seq::empty()
    } else {
        let rest = deliveries(subs.drop_last(), e);
        if subs.last().1 == e.kind() {
            rest.push((subs.last().0, e))
        } else {
            rest
        }
    }
}

/// Subscription table and the two queues of the event bus.
pub struct Handler<C> {
    /// Which identity is subscribed to which event kind.
    pub subscriptions: Vec<(u64, EventType)>,
    /// Deferred ordinary deliveries: receiver id and the event.
    pub queue: Vec<(u64, Event)>,
    /// Deferred structural requests.
    pub sysqueue: Vec<SysEvent<C>>,
}

impl<C> Handler<C> {
    /// The identity is subscribed to the event kind.
    pub open spec fn is_subscribed(self, id: u64, kind: EventType) -> bool {
        self.subscriptions@.contains((id, kind))
    }

    /// No pair of identity and kind appears twice in the table.
    pub open spec fn wf(self) -> bool {
        forall|i: int, j: int|
            0 <= i < j < self.subscriptions@.len() ==> #[trigger] self.subscriptions@[i]
                != #[trigger] self.subscriptions@[j]
    }

    /// Fresh bus: no subscriptions, both queues empty.
    pub fn new() -> (r: Handler<C>)
        ensures
            r.wf(),
            r.subscriptions@ =~= Seq::<(u64, EventType)>::empty(),
            r.queue@ =~= Seq::<(u64, Event)>::empty(),
            r.sysqueue@ =~= Seq::<SysEvent<C>>::empty(),
    {
        Handler { subscriptions: Vec::new(), queue: Vec::new(), sysqueue: Vec::new() }
    }

    /// Subscribe an identity to the kind of the given event. The payload
    /// of `event` is ignored; only its kind matters. Subscribing twice
    /// leaves the table unchanged.
    #[verifier::loop_isolation(false)]
    pub fn subscribe(&mut self, id: u64, event: Event)
        requires
            old(self).wf(),
        ensures
            final(self).wf(),
            final(self).is_subscribed(id, event.kind()),
            forall|x: u64, k: EventType|
                old(self).is_subscribed(x, k) ==> final(self).is_subscribed(x, k),
            forall|x: u64, k: EventType|
                final(self).is_subscribed(x, k) ==> old(self).is_subscribed(x, k) || (x == id && k
                    == event.kind()),
            final(self).queue@ == old(self).queue@,
            final(self).sysqueue@ == old(self).sysqueue@,
            old(self).is_subscribed(id, event.kind())
                ==> final(self).subscriptions@ == old(self).subscriptions@,
            !old(self).is_subscribed(id, event.kind())
                ==> final(self).subscriptions@ =~= old(self).subscriptions@.push((id, event.kind())),
    {
        let kind = event.event_type();
        let mut i: usize = 0;
        while i < self.subscriptions.len()
            invariant
                i <= self.subscriptions.len(),
                forall|j: int| 0 <= j < i ==> #[trigger] self.subscriptions@[j] != (id, kind),
            decreases self.subscriptions.len() - i,
        {
            if self.subscriptions[i].0 == id {
                let entry_kind = self.subscriptions[i].1;
                if entry_kind == kind {
                    proof {
                        assert(self.subscriptions@[i as int] == (id, kind));
                    }
                    return ;
                }
            }
            i = i + 1;
        }
        self.subscriptions.push((id, kind));
        proof {
            let post = self.subscriptions@;
            let pre = old(self).subscriptions@;
            assert(post.last() == (id, kind));
            assert forall|a: int, b: int| 0 <= a < b < post.len() implies #[trigger] post[a]
                != #[trigger] post[b] by {
                if b == post.len() - 1 {
                    assert(pre[a] != (id, kind));
                }
            }
        }
    }

    /// Remove one subscription: the identity no longer receives events of
    /// the given event's kind.
    #[verifier::loop_isolation(false)]
    pub fn unsubscribe(&mut self, id: u64, event: Event)
        requires
            old(self).wf(),
        ensures
            final(self).wf(),
            !final(self).is_subscribed(id, event.kind()),
            forall|x: u64, k: EventType|
                final(self).is_subscribed(x, k) ==> old(self).is_subscribed(x, k),
            forall|x: u64, k: EventType|
                old(self).is_subscribed(x, k) && !(x == id && k == event.kind())
                    ==> final(self).is_subscribed(x, k),
            final(self).queue@ == old(self).queue@,
            final(self).sysqueue@ == old(self).sysqueue@,
    {
        let kind = event.event_type();
        let mut i: usize = 0;
        while i < self.subscriptions.len()
            invariant
                i <= self.subscriptions.len(),
                forall|j: int| 0 <= j < i ==> #[trigger] self.subscriptions@[j] != (id, kind),
                *self == *old(self),
            decreases self.subscriptions.len() - i,
        {
            let hit = self.subscriptions[i].0 == id && self.subscriptions[i].1 == kind;
            if hit {
                self.subscriptions.remove(i);
                proof {
                    let pre = old(self).subscriptions@;
                    let post = self.subscriptions@;
                    assert forall|a: int, b: int| 0 <= a < b < post.len() implies #[trigger] post[a]
                        != #[trigger] post[b] by {
                        let oa: int = if a < i { a } else { a + 1 };
                        let ob: int = if b < i { b } else { b + 1 };
                        assert(pre[oa] == post[a]);
                        assert(pre[ob] == post[b]);
                    }
                    assert forall|k: int| 0 <= k < post.len() implies #[trigger] post[k] != (
                    id,
                    kind,
                    ) by {
                        if k >= i {
                            assert(post[k] == pre[k + 1]);
                            assert(pre[k + 1] != (id, kind)) by {
                                assert(pre[i as int] == (id, kind));
                            }
                        }
                    }
                    assert forall|x: u64, k: EventType| #[trigger] post.contains(
                        (x, k),
                    ) implies pre.contains((x, k)) by {
                        let w = choose|w: int| 0 <= w < post.len() && post[w] == (x, k);
                        if w < i {
                            assert(pre[w] == (x, k));
                        } else {
                            assert(pre[w + 1] == (x, k));
                        }
                    }
                    assert forall|x: u64, k: EventType|
                        pre.contains((x, k)) && !(x == id && k
                            == event.kind()) implies #[trigger] post.contains((x, k)) by {
                        let w = choose|w: int| 0 <= w < pre.len() && pre[w] == (x, k);
                        if w < i {
                            assert(post[w] == (x, k));
                        } else if w > i {
                            assert(post[w - 1] == (x, k));
                        } else {
                            assert(pre[i as int] == (id, kind));
                        }
                    }
                }
                return ;
            }
            i = i + 1;
        }
    }

    /// Remove every subscription of one identity, as when its event facet
    /// is torn down.
    #[verifier::loop_isolation(false)]
    pub fn unsubscribe_all(&mut self, id: u64)
        requires
            old(self).wf(),
        ensures
            final(self).wf(),
            forall|k: EventType| !final(self).is_subscribed(id, k),
            forall|x: u64, k: EventType|
                final(self).is_subscribed(x, k) ==> old(self).is_subscribed(x, k),
            forall|x: u64, k: EventType|
                old(self).is_subscribed(x, k) && x != id ==> final(self).is_subscribed(x, k),
            final(self).queue@ == old(self).queue@,
            final(self).sysqueue@ == old(self).sysqueue@,
    {
        let n = self.subscriptions.len();
        let mut out: Vec<(u64, EventType)> = Vec::new();
        let mut i: usize = 0;
        while i < n
            invariant
                i <= n == self.subscriptions@.len(),
                *self == *old(self),
                forall|a: int| 0 <= a < out@.len() ==> (#[trigger] out@[a]).0 != id,
                forall|a: int|
                    0 <= a < out@.len() ==> #[trigger] self.subscriptions@.contains(out@[a]),
                forall|a: int, b: int|
                    0 <= a < b < out@.len() ==> #[trigger] out@[a] != #[trigger] out@[b],
                forall|j: int|
                    0 <= j < i && (#[trigger] self.subscriptions@[j]).0 != id ==> out@.contains(
                        self.subscriptions@[j],
                    ),
                forall|a: int|
                    0 <= a < out@.len() ==> exists|b: int|
                        0 <= b < i && self.subscriptions@[b] == #[trigger] out@[a],
            decreases n - i,
        {
            let entry = self.subscriptions[i];
            if entry.0 != id {
                proof {
                    if out@.contains(entry) {
                        let a = choose|a: int| 0 <= a < out@.len() && out@[a] == entry;
                        let b = choose|b: int|
                            0 <= b < i && self.subscriptions@[b] == out@[a];
                        assert(self.subscriptions@[b] == self.subscriptions@[i as int]);
                    }
                }
                out.push(entry);
                proof {
                    let m = out@.len() - 1;
                    assert(out@[m] == entry);
                    assert forall|a: int|
                        0 <= a < out@.len() implies #[trigger] self.subscriptions@.contains(
                        out@[a],
                    ) by {
                        if a == m {
                            assert(self.subscriptions@[i as int] == out@[a]);
                        }
                    }
                    assert forall|a: int| 0 <= a < out@.len() implies exists|b: int|
                        0 <= b < i + 1 && self.subscriptions@[b] == #[trigger] out@[a] by {
                        if a == m {
                            assert(self.subscriptions@[i as int] == out@[a]);
                        }
                    }
                }
            }
            i = i + 1;
        }
        self.subscriptions = out;
        proof {
            let pre = old(self).subscriptions@;
            let post = self.subscriptions@;
            assert forall|k: EventType| !#[trigger] post.contains((id, k)) by {
                if post.contains((id, k)) {
                    let a = choose|a: int| 0 <= a < post.len() && post[a] == (id, k);
                }
            }
        }
    }

    /// Deliver an event to every subscriber of its kind: one queue entry
    /// per matching subscription, in table order, all carrying the same
    /// event value.
    #[verifier::loop_isolation(false)]
    pub fn enqueue_all(&mut self, event: Event)
        requires
            old(self).wf(),
        ensures
            final(self).wf(),
            final(self).queue@ =~= old(self).queue@ + deliveries(
                old(self).subscriptions@,
                event,
            ),
            final(self).subscriptions@ == old(self).subscriptions@,
            final(self).sysqueue@ == old(self).sysqueue@,
    {
        let kind = event.event_type();
        let n = self.subscriptions.len();
        let mut i: usize = 0;
        while i < n
            invariant
                i <= n == self.subscriptions@.len(),
                self.subscriptions@ == old(self).subscriptions@,
                self.sysqueue@ == old(self).sysqueue@,
                self.queue@ =~= old(self).queue@ + deliveries(
                    self.subscriptions@.take(i as int),
                    event,
                ),
            decreases n - i,
        {
            let ghost pre_queue = self.queue@;
            if self.subscriptions[i].1 == kind {
                let receiver = self.subscriptions[i].0;
                self.queue.push((receiver, event));
            }
            proof {
                let taken = self.subscriptions@.take(i + 1);
                assert(taken.drop_last() =~= self.subscriptions@.take(i as int));
                assert(taken.last() == self.subscriptions@[i as int]);
            }
            i = i + 1;
        }
        proof {
            assert(self.subscriptions@.take(n as int) =~= self.subscriptions@);
        }
    }

    /// Deliver an event to one identity unconditionally, bypassing the
    /// subscription table.
    pub fn enqueue_specific(&mut self, id: u64, event: Event)
        requires
            old(self).wf(),
        ensures
            final(self).wf(),
            final(self).queue@ =~= old(self).queue@.push((id, event)),
            final(self).subscriptions@ == old(self).subscriptions@,
            final(self).sysqueue@ == old(self).sysqueue@,
    {
        self.queue.push((id, event));
    }

    /// Park a structural request on the system queue.
    pub fn enqueue_sys(&mut self, event: SysEvent<C>)
        requires
            old(self).wf(),
        ensures
            final(self).wf(),
            final(self).sysqueue@ =~= old(self).sysqueue@.push(event),
            final(self).subscriptions@ == old(self).subscriptions@,
            final(self).queue@ == old(self).queue@,
    {
        self.sysqueue.push(event);
    }

    /// Take every queued ordinary delivery, leaving the queue empty.
    pub fn flush(&mut self) -> (r: Vec<(u64, Event)>)
        requires
            old(self).wf(),
        ensures
            final(self).wf(),
            r@ == old(self).queue@,
            final(self).queue@ =~= Seq::<(u64, Event)>::empty(),
            final(self).subscriptions@ == old(self).subscriptions@,
            final(self).sysqueue@ == old(self).sysqueue@,
    {
        let mut taken: Vec<(u64, Event)> = Vec::new();
        core::mem::swap(&mut taken, &mut self.queue);
        taken
    }

    /// Take every queued structural request, leaving the system queue
    /// empty.
    pub fn flush_sys(&mut self) -> (r: Vec<SysEvent<C>>)
        requires
            old(self).wf(),
        ensures
            final(self).wf(),
            r@ == old(self).sysqueue@,
            final(self).sysqueue@ =~= Seq::<SysEvent<C>>::empty(),
            final(self).subscriptions@ == old(self).subscriptions@,
            final(self).queue@ == old(self).queue@,
    {
        let mut taken: Vec<SysEvent<C>> = Vec::new();
        core::mem::swap(&mut taken, &mut self.sysqueue);
        taken
    }
}

} // verus!
