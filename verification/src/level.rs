//! Level sequencer: a named-event graph where each node waits on a
//! predecessor, optionally delays, and then issues its spawns.
//!
//! Firing a name releases every level event registered against it;
//! zero-delay events fire inline and recursively release their own
//! successors. An event's registrations are removed before anything it
//! triggers runs, so each event fires at most once and the recursion
//! provably terminates even on a cyclic authoring mistake.

use vstd::prelude::*;

use crate::action::Bullet;
use crate::events::{Event, Handler, SysEvent};
use crate::geom::Vec2;
use crate::num::{Milli, MAG_LIMIT};
use crate::path::PathBuilder;
use crate::motion::sat_at;
use crate::pattern::{advanced_model, model_finished, PatternModel, Shot, TICK_LIMIT};
use crate::registry::Registry;
use crate::spawn::{Enemy as EnemyInfo, Spawn, SpawnType};
use crate::timers::{timer_deliveries, timers_after, EventComp};

verus! {

broadcast use vstd::seq_lib::group_seq_properties;

/// One node of the level graph: its own name (fired when it resolves),
/// a timer id, a delay after its predecessor, and the spawns it issues.
pub struct LevelEvent {
    /// Name fired when this event resolves, releasing its successors.
    pub name: String,
    /// Timer id used while the event waits out its delay.
    pub id: u64,
    /// Delay after the predecessor fires, in milliseconds.
    pub delay: Milli,
    /// Spawns issued when the event fires.
    pub spawns: Vec<Spawn>,
}

impl LevelEvent {
    /// Structural bounds of a level event.
    pub open spec fn wf(self) -> bool {
        &&& 0 <= self.delay <= MAG_LIMIT
        &&& (forall|i: int| 0 <= i < self.spawns@.len() ==> (#[trigger] self.spawns@[i]).wf())
    }
}

/// The level script: for each predecessor name, the events registered
/// against it.
pub type LevelScript = Vec<(String, Vec<LevelEvent>)>;

/// A request to create an entity, applied after a delivery pass.
pub enum CreateRequest {
    /// Create the player.
    Player,
    /// Create a player bullet at this position.
    PlayerBullet(Vec2),
    /// Create an enemy of this kind at this position, walking these
    /// paths.
    Enemy(EnemyInfo, Vec2, Vec<PathBuilder>),
    /// Create an enemy bullet of this kind at this position with this
    /// velocity.
    Bullet(Bullet, Vec2, Vec2),
    /// Create the screen-boundary volume.
    ScreenArea,
    /// Create the level sequencer from this script.
    Level(LevelScript),
}


/// The behavior-determining model of one active spawn list: each
/// spawn's kind, anchor and pattern model. The path builders a spawn
/// hands to each created enemy ride along unchanged and are left aside.
pub open spec fn active_models(ss: Seq<Spawn>) -> Seq<(SpawnType, Vec2, PatternModel)> {
    ss.map_values(|s: Spawn| (s.spawn_type, s.location, s.pattern.model()))
}

/// The shape of one creation request, with any carried path builders
/// left aside.
#[verifier::ext_equal]
pub ghost enum CreationSig {
    Player,
    PlayerBullet(Vec2),
    Enemy(EnemyInfo, Vec2),
    Bullet(crate::action::Bullet, Vec2, Vec2),
    Screen,
    Level,
}

/// The shape of one structural request.
#[verifier::ext_equal]
pub ghost enum SysSig {
    Created(CreationSig),
    Destroyed(u64),
    Skipped(int),
}

/// Project a structural request to its shape.
pub open spec fn sig_of(ev: SysEvent<CreateRequest>) -> SysSig {
    match ev {
        SysEvent::Destroy(id) => SysSig::Destroyed(id),
        SysEvent::FastForward(a) => SysSig::Skipped(a as int),
        SysEvent::Create(r) => SysSig::Created(
            match r {
                CreateRequest::Player => CreationSig::Player,
                CreateRequest::PlayerBullet(p) => CreationSig::PlayerBullet(p),
                CreateRequest::Enemy(info, p, _) => CreationSig::Enemy(info, p),
                CreateRequest::Bullet(b, p, v) => CreationSig::Bullet(b, p, v),
                CreateRequest::ScreenArea => CreationSig::Screen,
                CreateRequest::Level(_) => CreationSig::Level,
            },
        ),
    }
}

/// Project a whole system queue to its shapes.
pub open spec fn sys_sigs(q: Seq<SysEvent<CreateRequest>>) -> Seq<SysSig> {
    q.map_values(|ev: SysEvent<CreateRequest>| sig_of(ev))
}

/// The request one emitted shot of an active spawn becomes: an enemy of
/// the spawn's kind at the anchor plus the clamped offset, or the
/// player.
pub open spec fn spawn_shot_sig(st: SpawnType, loc: Vec2, s: Shot) -> SysSig {
    match st {
        SpawnType::Enemy(info) => SysSig::Created(
            CreationSig::Enemy(
                info,
                Vec2 {
                    x: (sat_at(s.offset.x as int, MAG_LIMIT as int) + loc.x) as i64,
                    y: (sat_at(s.offset.y as int, MAG_LIMIT as int) + loc.y) as i64,
                },
            ),
        ),
        SpawnType::Player => SysSig::Created(CreationSig::Player),
    }
}

/// The requests one burst of emitted shots becomes, in shot order.
pub open spec fn spawn_shots_sigs(st: SpawnType, loc: Vec2, shots: Seq<Shot>) -> Seq<SysSig> {
    Seq::new(shots.len(), |k: int| spawn_shot_sig(st, loc, shots[k]))
}

/// The requests one tick of the whole active list makes, spawn by spawn
/// in order.
pub open spec fn spawns_step_sigs(ms: Seq<(SpawnType, Vec2, PatternModel)>, dt: int) -> Seq<SysSig>
    decreases ms.len(),
{
    if ms.len() == 0 {
        Seq::empty()
    } else {
        spawn_shots_sigs(ms.first().0, ms.first().1, advanced_model(ms.first().2, dt).1)
            + spawns_step_sigs(ms.drop_first(), dt)
    }
}

/// The active list after one tick: every pattern advanced, spawns whose
/// patterns emitted nothing and are finished dropped, order kept.
pub open spec fn spawns_kept(ms: Seq<(SpawnType, Vec2, PatternModel)>, dt: int) -> Seq<
    (SpawnType, Vec2, PatternModel),
>
    decreases ms.len(),
{
    if ms.len() == 0 {
        Seq::empty()
    } else {
        let adv = advanced_model(ms.first().2, dt);
        let rest = spawns_kept(ms.drop_first(), dt);
        if adv.1.len() == 0 && model_finished(adv.0) {
            rest
        } else {
            seq![(ms.first().0, ms.first().1, adv.0)] + rest
        }
    }
}

/// The whole contract of `Level::handle_event`, as a relation between
/// the states before and after one delivery.
pub open spec fn level_stepped(
    pre: Level,
    e: Event,
    h0: Handler<CreateRequest>,
    post: Level,
    h1: Handler<CreateRequest>,
) -> bool {
    &&& post.wf()
    &&& h1.wf()
    &&& post.id == pre.id
    &&& h1.subscriptions@ == h0.subscriptions@
    &&& (e is Spawn ==> h1.queue@ == h0.queue@ && h1.sysqueue@ == h0.sysqueue@ && !post.has_event(
        "start"@,
    ) && (forall|n: Seq<char>| post.has_event(n) ==> pre.has_event(n))
        && pre.active_spawns@.is_prefix_of(post.active_spawns@)
        && pre.waiting_events@.is_prefix_of(post.waiting_events@))
    &&& (e matches Event::Update(t) ==> post.events@ == pre.events@ && post.waiting_events@
        == pre.waiting_events@ && post.waiting_spawns@ == pre.waiting_spawns@ && post.ev.timers@
        =~= timers_after(pre.ev.timers@, t as int) && h1.queue@ =~= h0.queue@ + timer_deliveries(
        pre.id,
        pre.ev.timers@,
        t as int,
    ) && active_models(post.active_spawns@) =~= spawns_kept(
        active_models(pre.active_spawns@),
        t as int,
    ) && sys_sigs(h1.sysqueue@) =~= sys_sigs(h0.sysqueue@) + spawns_step_sigs(
        active_models(pre.active_spawns@),
        t as int,
    ))
    &&& (e matches Event::CTimer(c, tid) ==> ({
        &&& (c == 1 ==> ({
            let ws = pre.waiting_events@;
            &&& h1.queue@ == h0.queue@
            &&& h1.sysqueue@ == h0.sysqueue@
            &&& pre.active_spawns@.is_prefix_of(post.active_spawns@)
            &&& (forall|n: Seq<char>| post.has_event(n) ==> pre.has_event(n))
            &&& ((forall|x: int| 0 <= x < ws.len() ==> (#[trigger] ws[x]).0 != tid) ==> post
                == pre && h1 == h0)
            &&& ((exists|x: int| 0 <= x < ws.len() && (#[trigger] ws[x]).0 == tid) ==> ({
                let j = choose|j: int|
                    0 <= j < ws.len() && (#[trigger] ws[j]).0 == tid && (forall|y: int|
                        0 <= y < j ==> ws[y].0 != tid);
                &&& ws.remove(j).is_prefix_of(post.waiting_events@)
                &&& (forall|sx: int|
                    0 <= sx < ws[j].1.spawns@.len() ==> post.active_spawns@.map_values(
                        |sp: Spawn| crate::spawn::spawn_core(sp),
                    ).contains(crate::spawn::spawn_core(#[trigger] ws[j].1.spawns@[sx])))
            }))
        }))
        &&& (c == 2 ==> ({
            let ws = pre.waiting_spawns@;
            &&& h1 == h0
            &&& post.events@ == pre.events@
            &&& post.waiting_events@ == pre.waiting_events@
            &&& post.ev_reg == pre.ev_reg
            &&& pre.active_spawns@.is_prefix_of(post.active_spawns@)
            &&& ((forall|x: int| 0 <= x < ws.len() ==> (#[trigger] ws[x]).0 != tid) ==> post
                == pre)
            &&& ((exists|x: int| 0 <= x < ws.len() && (#[trigger] ws[x]).0 == tid) ==> ({
                let j = choose|j: int|
                    0 <= j < ws.len() && (#[trigger] ws[j]).0 == tid && (forall|y: int|
                        0 <= y < j ==> ws[y].0 != tid);
                let sp = ws[j].1;
                &&& post.active_spawns@.map_values(|s2: Spawn| crate::spawn::spawn_core(s2))
                    =~= pre.active_spawns@.map_values(
                    |s2: Spawn| crate::spawn::spawn_core(s2),
                ).push(crate::spawn::spawn_core(sp))
                &&& (sp.repeat > 0 ==> ({
                    &&& post.waiting_spawns@.len() == ws.len()
                    &&& (forall|x: int|
                        0 <= x < ws.len() && x != j ==> post.waiting_spawns@[x] == ws[x])
                    &&& post.waiting_spawns@[j].0 == tid
                    &&& crate::spawn::spawn_core(post.waiting_spawns@[j].1)
                        == crate::spawn::spawn_core(
                        (Spawn { repeat: (sp.repeat - 1) as u64, ..sp }),
                    )
                }))
                &&& (sp.repeat == 0 ==> post.waiting_spawns@ == ws)
                &&& (sp.repeat <= 1 ==> post.ev.timers@
                    =~= crate::timers::remove_first_timer_classed(pre.ev.timers@, tid, 2))
                &&& (sp.repeat > 1 ==> post.ev.timers@ == pre.ev.timers@)
            }))
        }))
        &&& (c != 1 && c != 2 ==> post == pre && h1 == h0)
    }))
    &&& (!(e is Spawn) && !(e is Update) && !(e is CTimer) ==> post == pre && h1 == h0)
}

/// Every registered level event is well formed.
pub open spec fn script_wf(events: Seq<(String, Vec<LevelEvent>)>) -> bool {
    forall|i: int, j: int|
        0 <= i < events.len() && 0 <= j < (#[trigger] events[i]).1@.len() ==> (
        #[trigger] events[i].1@[j]).wf()
}

/// No predecessor name is registered twice.
pub open spec fn script_keys_unique(events: Seq<(String, Vec<LevelEvent>)>) -> bool {
    forall|i: int, j: int|
        0 <= i < j < events.len() ==> (#[trigger] events[i]).0@ != (#[trigger] events[j]).0@
}

/// The level sequencer: the pending script, events waiting out their
/// delays, spawns re-activated by repeat timers, and the spawns whose
/// patterns currently drive creations.
pub struct Level {
    /// Identity of the sequencer entity.
    pub id: u64,
    /// Event facet holding the delay and repeat timers.
    pub ev: EventComp,
    /// Pending registrations: predecessor name to its events.
    pub events: LevelScript,
    /// Events whose delay timer is running, by timer id.
    pub waiting_events: Vec<(u64, LevelEvent)>,
    /// Spawns re-activated by a repeat timer, by timer id.
    pub waiting_spawns: Vec<(u64, Spawn)>,
    /// Spawns whose patterns are advanced every tick.
    pub active_spawns: Vec<Spawn>,
    /// Private registry handing out repeat-timer ids.
    pub ev_reg: Registry,
}

impl Level {
    /// Structural bounds of the sequencer.
    pub open spec fn wf(self) -> bool {
        &&& script_wf(self.events@)
        &&& script_keys_unique(self.events@)
        &&& (forall|i: int|
            0 <= i < self.waiting_events@.len() ==> (#[trigger] self.waiting_events@[i]).1.wf())
        &&& (forall|i: int|
            0 <= i < self.waiting_spawns@.len() ==> (#[trigger] self.waiting_spawns@[i]).1.wf())
        &&& (forall|i: int|
            0 <= i < self.active_spawns@.len() ==> (#[trigger] self.active_spawns@[i]).wf())
        &&& self.ev.wf()
        &&& self.ev.id == self.id
        &&& self.ev_reg.wf()
    }

    /// Some registration is keyed by this name.
    pub open spec fn has_event(self, name: Seq<char>) -> bool {
        exists|i: int| 0 <= i < self.events@.len() && (#[trigger] self.events@[i]).0@ == name
    }

    /// A fresh sequencer over a script.
    pub fn new(id: u64, level: LevelScript) -> (r: Level)
        requires
            script_wf(level@),
            script_keys_unique(level@),
        ensures
            r.wf(),
            r.id == id,
            r.events@ == level@,
            r.waiting_events@ =~= Seq::<(u64, LevelEvent)>::empty(),
            r.waiting_spawns@ =~= Seq::<(u64, Spawn)>::empty(),
            r.active_spawns@ =~= Seq::<Spawn>::empty(),
    {
        Level {
            id,
            ev: EventComp::new(id),
            events: level,
            waiting_events: Vec::new(),
            waiting_spawns: Vec::new(),
            active_spawns: Vec::new(),
            ev_reg: Registry::new(),
        }
    }

    /// Fire a name: every event registered against it is released.
    /// Delayed events start a delay timer (class 1) and wait; immediate
    /// ones fire inline, recursively releasing their own successors.
    /// The registration is removed before anything runs, so every event
    /// fires at most once.
    #[verifier::loop_isolation(false)]
    pub fn event_finished(&mut self, name: &String, handler: &mut Handler<CreateRequest>)
        requires
            old(self).wf(),
            old(handler).wf(),
        ensures
            final(self).wf(),
            final(handler).wf(),
            final(self).id == old(self).id,
            final(self).events@.len() <= old(self).events@.len(),
            !final(self).has_event(name@),
            old(self).has_event(name@) ==> final(self).events@.len() < old(self).events@.len(),
            !old(self).has_event(name@) ==> *final(self) == *old(self) && *final(handler) == *old(
                handler,
            ),
            forall|n: Seq<char>| final(self).has_event(n) ==> old(self).has_event(n),
            final(handler).subscriptions@ == old(handler).subscriptions@,
            final(handler).queue@ == old(handler).queue@,
            final(handler).sysqueue@ == old(handler).sysqueue@,
            old(self).waiting_events@.is_prefix_of(final(self).waiting_events@),
            old(self).waiting_spawns@.is_prefix_of(final(self).waiting_spawns@),
            old(self).active_spawns@.is_prefix_of(final(self).active_spawns@),
            old(self).ev.timers@.is_prefix_of(final(self).ev.timers@),
            forall|k: int|
                old(self).ev.timers@.len() <= k < final(self).ev.timers@.len() ==> (
                #[trigger] final(self).ev.timers@[k]).class == 1 || final(self).ev.timers@[k].class
                    == 2,
            forall|k: int|
                old(self).waiting_spawns@.len() <= k < final(self).waiting_spawns@.len() ==> (
                #[trigger] final(self).waiting_spawns@[k]).1.repeat > 0,
            forall|i: int, j: int|
                0 <= i < old(self).events@.len() && (#[trigger] old(self).events@[i]).0@ == name@
                    && 0 <= j < old(self).events@[i].1@.len() && (
                #[trigger] old(self).events@[i].1@[j]).delay > 1
                    ==> final(self).waiting_events@.contains(
                    (old(self).events@[i].1@[j].id, old(self).events@[i].1@[j]),
                ),
            forall|i: int, j: int|
                0 <= i < old(self).events@.len() && (#[trigger] old(self).events@[i]).0@ == name@
                    && 0 <= j < old(self).events@[i].1@.len() && (
                #[trigger] old(self).events@[i].1@[j]).delay > 1
                    ==> final(self).ev.timers@.contains(
                    crate::timers::Timer {
                        id: old(self).events@[i].1@[j].id,
                        class: 1u8,
                        repeat: false,
                        amount: old(self).events@[i].1@[j].delay,
                        left: old(self).events@[i].1@[j].delay,
                        event: Event::CTimer(1, old(self).events@[i].1@[j].id),
                    },
                ),
            forall|i: int, j: int, sx: int|
                0 <= i < old(self).events@.len() && (#[trigger] old(self).events@[i]).0@ == name@
                    && 0 <= j < old(self).events@[i].1@.len() && (
                #[trigger] old(self).events@[i].1@[j]).delay <= 1 && 0 <= sx < old(
                    self,
                ).events@[i].1@[j].spawns@.len() ==> final(self).active_spawns@.map_values(
                    |sp: Spawn| crate::spawn::spawn_core(sp),
                ).contains(crate::spawn::spawn_core(#[trigger] old(self).events@[i].1@[j].spawns@[sx])),
        decreases old(self).events@.len(), 0nat,
    {
        let mut idx: usize = 0;
        let mut found = false;
        let n = self.events.len();
        while idx < n
            invariant
                idx <= n == self.events@.len(),
                !found,
                *self == *old(self),
                forall|j: int| 0 <= j < idx ==> (#[trigger] self.events@[j]).0@ != name@,
            decreases n - idx,
        {
            if self.events[idx].0 == *name {
                found = true;
                break ;
            }
            idx = idx + 1;
        }
        if !found {
            proof {
                assert(!self.has_event(name@));
            }
            return ;
        }
        let (_, mut evs) = self.events.remove(idx);
        proof {
            assert forall|i: int, j: int|
                0 <= i < self.events@.len() && 0 <= j < (
                #[trigger] self.events@[i]).1@.len() implies (
            #[trigger] self.events@[i].1@[j]).wf() by {
                if i < idx {
                    assert(old(self).events@[i] == self.events@[i]);
                } else {
                    assert(old(self).events@[i + 1] == self.events@[i]);
                }
            }
            assert(forall|j: int|
                0 <= j < evs@.len() ==> (#[trigger] evs@[j]).wf()) by {
                assert(old(self).events@[idx as int].1 == evs);
            }
            assert forall|a: int, b: int|
                0 <= a < b < self.events@.len() implies (#[trigger] self.events@[a]).0@ != (
            #[trigger] self.events@[b]).0@ by {
                let oa: int = if a < idx { a } else { a + 1 };
                let ob: int = if b < idx { b } else { b + 1 };
                assert(old(self).events@[oa] == self.events@[a]);
                assert(old(self).events@[ob] == self.events@[b]);
            }
            assert forall|k: int| 0 <= k < self.events@.len() implies (
            #[trigger] self.events@[k]).0@ != name@ by {
                assert(old(self).events@[idx as int].0@ == name@);
                if k < idx {
                    assert(self.events@[k] == old(self).events@[k]);
                } else {
                    assert(self.events@[k] == old(self).events@[k + 1]);
                }
            }
            assert forall|n: Seq<char>| self.has_event(n) implies old(self).has_event(n) by {
                let w = choose|w: int|
                    0 <= w < self.events@.len() && #[trigger] self.events@[w].0@ == n;
                if w < idx {
                    assert(old(self).events@[w].0@ == n);
                } else {
                    assert(old(self).events@[w + 1].0@ == n);
                }
            }
        }
        let m = evs.len();
        let ghost evs0 = evs@;
        proof {
            assert(evs0 == old(self).events@[idx as int].1@);
        }
        let mut k: usize = 0;
        while k < m
            invariant
                k <= m == evs@.len() == evs0.len(),
                self.wf(),
                handler.wf(),
                self.id == old(self).id,
                self.events@.len() < old(self).events@.len(),
                !self.has_event(name@),
                forall|n: Seq<char>| self.has_event(n) ==> old(self).has_event(n),
                forall|j: int| 0 <= j < evs@.len() ==> (#[trigger] evs@[j]).wf(),
                forall|j: int| k <= j < evs@.len() ==> #[trigger] evs@[j] == evs0[j],
                handler.subscriptions@ == old(handler).subscriptions@,
                handler.queue@ == old(handler).queue@,
                handler.sysqueue@ == old(handler).sysqueue@,
                old(self).waiting_events@.is_prefix_of(self.waiting_events@),
                old(self).waiting_spawns@.is_prefix_of(self.waiting_spawns@),
                old(self).active_spawns@.is_prefix_of(self.active_spawns@),
                old(self).ev.timers@.is_prefix_of(self.ev.timers@),
                forall|x: int|
                    old(self).ev.timers@.len() <= x < self.ev.timers@.len() ==> (
                    #[trigger] self.ev.timers@[x]).class == 1 || self.ev.timers@[x].class == 2,
                forall|x: int|
                    old(self).waiting_spawns@.len() <= x < self.waiting_spawns@.len() ==> (
                    #[trigger] self.waiting_spawns@[x]).1.repeat > 0,
                forall|j: int|
                    0 <= j < k && (#[trigger] evs0[j]).delay > 1 ==> self.waiting_events@.contains(
                        (evs0[j].id, evs0[j]),
                    ),
                forall|j: int|
                    0 <= j < k && (#[trigger] evs0[j]).delay > 1 ==> self.ev.timers@.contains(
                        crate::timers::Timer {
                            id: evs0[j].id,
                            class: 1u8,
                            repeat: false,
                            amount: evs0[j].delay,
                            left: evs0[j].delay,
                            event: Event::CTimer(1, evs0[j].id),
                        },
                    ),
                forall|j: int, sx: int|
                    0 <= j < k && (#[trigger] evs0[j]).delay <= 1 && 0 <= sx
                        < evs0[j].spawns@.len() ==> self.active_spawns@.map_values(
                        |sp: Spawn| crate::spawn::spawn_core(sp),
                    ).contains(crate::spawn::spawn_core(#[trigger] evs0[j].spawns@[sx])),
            decreases m - k,
        {
            let ghost mid = *self;
            let empty_name = "".to_owned();
            let mut taken = LevelEvent { name: empty_name, id: 0, delay: 0, spawns: Vec::new() };
            core::mem::swap(&mut taken, &mut evs[k]);
            proof {
                assert(taken == evs0[k as int]);
            }
            if taken.delay > 1 {
                self.ev.set_timer_with_class(taken.id, taken.delay, 1);
                self.waiting_events.push((taken.id, taken));
                proof {
                    assert forall|i: int|
                        0 <= i < self.waiting_events@.len() implies (
                    #[trigger] self.waiting_events@[i]).1.wf() by {
                        if i == self.waiting_events@.len() - 1 {
                            assert(evs0[k as int].wf());
                        }
                    }
                    assert(self.waiting_events@.last() == (evs0[k as int].id, evs0[k as int]));
                }
            } else {
                self.handle_level_event(taken, handler);
            }
            proof {
                lemma_step_keeps_claims(mid, *self, *old(self), evs0, k as int);
                assert forall|x: int|
                    old(self).ev.timers@.len() <= x < self.ev.timers@.len() implies (
                #[trigger] self.ev.timers@[x]).class == 1 || self.ev.timers@[x].class == 2 by {
                    if x < mid.ev.timers@.len() {
                        assert(self.ev.timers@[x] == mid.ev.timers@[x]) by {
                            assert(mid.ev.timers@ =~= self.ev.timers@.subrange(
                                0,
                                mid.ev.timers@.len() as int,
                            ));
                        }
                    }
                }
                assert forall|x: int|
                    old(self).waiting_spawns@.len() <= x < self.waiting_spawns@.len() implies (
                #[trigger] self.waiting_spawns@[x]).1.repeat > 0 by {
                    if x < mid.waiting_spawns@.len() {
                        assert(self.waiting_spawns@[x] == mid.waiting_spawns@[x]) by {
                            assert(mid.waiting_spawns@ =~= self.waiting_spawns@.subrange(
                                0,
                                mid.waiting_spawns@.len() as int,
                            ));
                        }
                    }
                }
                assert forall|j: int| 0 <= j < evs@.len() implies (#[trigger] evs@[j]).wf() by {
                    if j == k {
                        assert(evs@[j].delay == 0 && evs@[j].spawns@.len() == 0 || evs@[j].wf());
                    }
                }
                assert forall|j: int|
                    0 <= j < k + 1 && (#[trigger] evs0[j]).delay > 1 implies self.ev.timers@.contains(
                    crate::timers::Timer {
                        id: evs0[j].id,
                        class: 1u8,
                        repeat: false,
                        amount: evs0[j].delay,
                        left: evs0[j].delay,
                        event: Event::CTimer(1, evs0[j].id),
                    },
                ) by {
                    let tm = crate::timers::Timer {
                        id: evs0[j].id,
                        class: 1u8,
                        repeat: false,
                        amount: evs0[j].delay,
                        left: evs0[j].delay,
                        event: Event::CTimer(1, evs0[j].id),
                    };
                    if j < k {
                        assert(mid.ev.timers@.contains(tm));
                        let w = choose|w: int|
                            0 <= w < mid.ev.timers@.len() && mid.ev.timers@[w] == tm;
                        assert(mid.ev.timers@ =~= self.ev.timers@.subrange(
                            0,
                            mid.ev.timers@.len() as int,
                        ));
                        assert(self.ev.timers@[w] == tm);
                    } else {
                        assert(self.ev.timers@.last() == tm);
                    }
                }
            }
            k = k + 1;
        }
        proof {
            assert forall|i: int, j: int|
                0 <= i < old(self).events@.len() && (#[trigger] old(self).events@[i]).0@ == name@
                    && 0 <= j < old(self).events@[i].1@.len() && (
                #[trigger] old(self).events@[i].1@[j]).delay > 1 implies self.waiting_events@.contains(
                (old(self).events@[i].1@[j].id, old(self).events@[i].1@[j]),
            ) by {
                assert(i == idx) by {
                    if i != idx {
                        assert(old(self).events@[idx as int].0@ == name@);
                    }
                }
            }
            assert forall|i: int, j: int|
                0 <= i < old(self).events@.len() && (#[trigger] old(self).events@[i]).0@ == name@
                    && 0 <= j < old(self).events@[i].1@.len() && (
                #[trigger] old(self).events@[i].1@[j]).delay > 1 implies self.ev.timers@.contains(
                crate::timers::Timer {
                    id: old(self).events@[i].1@[j].id,
                    class: 1u8,
                    repeat: false,
                    amount: old(self).events@[i].1@[j].delay,
                    left: old(self).events@[i].1@[j].delay,
                    event: Event::CTimer(1, old(self).events@[i].1@[j].id),
                },
            ) by {
                assert(i == idx) by {
                    if i != idx {
                        assert(old(self).events@[idx as int].0@ == name@);
                    }
                }
            }
            assert forall|i: int, j: int, sx: int|
                0 <= i < old(self).events@.len() && (#[trigger] old(self).events@[i]).0@ == name@
                    && 0 <= j < old(self).events@[i].1@.len() && (
                #[trigger] old(self).events@[i].1@[j]).delay <= 1 && 0 <= sx < old(
                self,
            ).events@[i].1@[j].spawns@.len() implies self.active_spawns@.map_values(
                |sp: Spawn| crate::spawn::spawn_core(sp),
            ).contains(
                crate::spawn::spawn_core(#[trigger] old(self).events@[i].1@[j].spawns@[sx]),
            ) by {
                assert(i == idx) by {
                    if i != idx {
                        assert(old(self).events@[idx as int].0@ == name@);
                    }
                }
            }
        }
    }

    /// Fire one released event: spawns with repeats register a repeat
    /// timer (class 2), every spawn becomes active, and the event's own
    /// name is fired in turn.
    #[verifier::loop_isolation(false)]
    pub fn handle_level_event(&mut self, evt: LevelEvent, handler: &mut Handler<CreateRequest>)
        requires
            old(self).wf(),
            old(handler).wf(),
            evt.wf(),
        ensures
            final(self).wf(),
            final(handler).wf(),
            final(self).id == old(self).id,
            final(self).events@.len() <= old(self).events@.len(),
            forall|n: Seq<char>| final(self).has_event(n) ==> old(self).has_event(n),
            final(handler).subscriptions@ == old(handler).subscriptions@,
            final(handler).queue@ == old(handler).queue@,
            final(handler).sysqueue@ == old(handler).sysqueue@,
            old(self).waiting_events@.is_prefix_of(final(self).waiting_events@),
            old(self).waiting_spawns@.is_prefix_of(final(self).waiting_spawns@),
            old(self).active_spawns@.is_prefix_of(final(self).active_spawns@),
            old(self).ev.timers@.is_prefix_of(final(self).ev.timers@),
            forall|k: int|
                old(self).ev.timers@.len() <= k < final(self).ev.timers@.len() ==> (
                #[trigger] final(self).ev.timers@[k]).class == 1 || final(self).ev.timers@[k].class
                    == 2,
            forall|k: int|
                old(self).waiting_spawns@.len() <= k < final(self).waiting_spawns@.len() ==> (
                #[trigger] final(self).waiting_spawns@[k]).1.repeat > 0,
            forall|sx: int|
                0 <= sx < evt.spawns@.len() ==> final(self).active_spawns@.map_values(
                    |sp: Spawn| crate::spawn::spawn_core(sp),
                ).contains(crate::spawn::spawn_core(#[trigger] evt.spawns@[sx])),
        decreases old(self).events@.len(), 1nat,
    {
        let n = evt.spawns.len();
        let spawns = evt.spawns;
        let mut i: usize = 0;
        while i < n
            invariant
                i <= n == spawns@.len(),
                self.wf(),
                self.id == old(self).id,
                self.ev.id == old(self).ev.id,
                self.events@ == old(self).events@,
                self.waiting_events@ == old(self).waiting_events@,
                old(self).waiting_spawns@.is_prefix_of(self.waiting_spawns@),
                old(self).active_spawns@.is_prefix_of(self.active_spawns@),
                old(self).ev.timers@.is_prefix_of(self.ev.timers@),
                forall|k: int|
                    old(self).ev.timers@.len() <= k < self.ev.timers@.len() ==> (
                    #[trigger] self.ev.timers@[k]).class == 2,
                forall|k: int|
                    old(self).waiting_spawns@.len() <= k < self.waiting_spawns@.len() ==> (
                    #[trigger] self.waiting_spawns@[k]).1.repeat > 0,
                forall|sx: int|
                    0 <= sx < i ==> self.active_spawns@.map_values(
                        |sp: Spawn| crate::spawn::spawn_core(sp),
                    ).contains(crate::spawn::spawn_core(#[trigger] spawns@[sx])),
                forall|j: int| 0 <= j < spawns@.len() ==> (#[trigger] spawns@[j]).wf(),
            decreases n - i,
        {
            let s = &spawns[i];
            if s.repeat > 0 && self.ev_reg.counter < u64::MAX {
                let wid = self.ev_reg.get_id();
                self.ev.set_repeating_timer_with_class(wid, s.repeat_delay, 2);
                let copy = s.duplicate();
                self.waiting_spawns.push((wid, copy));
                proof {
                    assert forall|j: int|
                        0 <= j < self.waiting_spawns@.len() implies (
                    #[trigger] self.waiting_spawns@[j]).1.wf() by {}
                }
            }
            let ghost pre_active = self.active_spawns@;
            let copy = s.duplicate();
            self.active_spawns.push(copy);
            proof {
                assert forall|j: int|
                    0 <= j < self.active_spawns@.len() implies (
                #[trigger] self.active_spawns@[j]).wf() by {}
                let f = |sp: Spawn| crate::spawn::spawn_core(sp);
                assert forall|sx: int|
                    0 <= sx < i + 1 implies self.active_spawns@.map_values(f).contains(
                    crate::spawn::spawn_core(#[trigger] spawns@[sx]),
                ) by {
                    if sx < i {
                        let w = choose|w: int|
                            0 <= w < pre_active.len() && pre_active.map_values(f)[w]
                                == crate::spawn::spawn_core(spawns@[sx]);
                        assert(self.active_spawns@.map_values(f)[w] == crate::spawn::spawn_core(
                            spawns@[sx],
                        ));
                    } else {
                        let last = self.active_spawns@.len() - 1;
                        assert(self.active_spawns@.map_values(f)[last] == crate::spawn::spawn_core(
                            copy,
                        ));
                    }
                }
            }
            i = i + 1;
        }
        let ghost mid = *self;
        self.event_finished(&evt.name, handler);
        proof {
            assert(old(self).waiting_spawns@.is_prefix_of(final(self).waiting_spawns@)) by {
                assert(mid.waiting_spawns@.is_prefix_of(final(self).waiting_spawns@));
            }
            assert(old(self).active_spawns@.is_prefix_of(final(self).active_spawns@)) by {
                assert(mid.active_spawns@.is_prefix_of(final(self).active_spawns@));
            }
            assert(old(self).ev.timers@.is_prefix_of(final(self).ev.timers@)) by {
                assert(mid.ev.timers@.is_prefix_of(final(self).ev.timers@));
            }
            assert(old(self).waiting_events@.is_prefix_of(final(self).waiting_events@)) by {
                assert(mid.waiting_events@.is_prefix_of(final(self).waiting_events@));
            }
            assert forall|k: int|
                old(self).ev.timers@.len() <= k < final(self).ev.timers@.len() implies (
            #[trigger] final(self).ev.timers@[k]).class == 1 || final(self).ev.timers@[k].class
                == 2 by {
                if k < mid.ev.timers@.len() {
                    assert(final(self).ev.timers@[k] == mid.ev.timers@[k]) by {
                        assert(mid.ev.timers@ =~= final(self).ev.timers@.subrange(
                            0,
                            mid.ev.timers@.len() as int,
                        ));
                    }
                }
            }
            assert forall|k: int|
                old(self).waiting_spawns@.len() <= k < final(self).waiting_spawns@.len() implies (
            #[trigger] final(self).waiting_spawns@[k]).1.repeat > 0 by {
                if k < mid.waiting_spawns@.len() {
                    assert(final(self).waiting_spawns@[k] == mid.waiting_spawns@[k]) by {
                        assert(mid.waiting_spawns@ =~= final(self).waiting_spawns@.subrange(
                            0,
                            mid.waiting_spawns@.len() as int,
                        ));
                    }
                }
            }
            let f = |sp: Spawn| crate::spawn::spawn_core(sp);
            assert forall|sx: int|
                0 <= sx < evt.spawns@.len() implies final(self).active_spawns@.map_values(
                f,
            ).contains(crate::spawn::spawn_core(#[trigger] evt.spawns@[sx])) by {
                let w = choose|w: int|
                    0 <= w < mid.active_spawns@.len() && mid.active_spawns@.map_values(f)[w]
                        == crate::spawn::spawn_core(evt.spawns@[sx]);
                assert(final(self).active_spawns@[w] == mid.active_spawns@[w]) by {
                    assert(mid.active_spawns@ =~= final(self).active_spawns@.subrange(
                        0,
                        mid.active_spawns@.len() as int,
                    ));
                }
                assert(final(self).active_spawns@.map_values(f)[w] == crate::spawn::spawn_core(
                    evt.spawns@[sx],
                ));
            }
        }
    }
}



/// One firing-loop step of `event_finished` keeps the earlier parked
/// and activated claims: the waiting and active lists only grow, so an
/// entry found at an index stays at that index.
proof fn lemma_step_keeps_claims(
    mid: Level,
    now: Level,
    base: Level,
    evs0: Seq<LevelEvent>,
    k: int,
)
    requires
        mid.waiting_events@.is_prefix_of(now.waiting_events@),
        mid.active_spawns@.is_prefix_of(now.active_spawns@),
        forall|j: int|
            0 <= j < k && (#[trigger] evs0[j]).delay > 1 ==> mid.waiting_events@.contains(
                (evs0[j].id, evs0[j]),
            ),
        forall|j: int, sx: int|
            0 <= j < k && (#[trigger] evs0[j]).delay <= 1 && 0 <= sx < evs0[j].spawns@.len()
                ==> mid.active_spawns@.map_values(
                |sp: Spawn| crate::spawn::spawn_core(sp),
            ).contains(crate::spawn::spawn_core(#[trigger] evs0[j].spawns@[sx])),
    ensures
        forall|j: int|
            0 <= j < k && (#[trigger] evs0[j]).delay > 1 ==> now.waiting_events@.contains(
                (evs0[j].id, evs0[j]),
            ),
        forall|j: int, sx: int|
            0 <= j < k && (#[trigger] evs0[j]).delay <= 1 && 0 <= sx < evs0[j].spawns@.len()
                ==> now.active_spawns@.map_values(
                |sp: Spawn| crate::spawn::spawn_core(sp),
            ).contains(crate::spawn::spawn_core(#[trigger] evs0[j].spawns@[sx])),
{
    let f = |sp: Spawn| crate::spawn::spawn_core(sp);
    assert forall|j: int|
        0 <= j < k && (#[trigger] evs0[j]).delay > 1 implies now.waiting_events@.contains(
        (evs0[j].id, evs0[j]),
    ) by {
        let w = choose|w: int|
            0 <= w < mid.waiting_events@.len() && mid.waiting_events@[w] == (
                evs0[j].id,
                evs0[j],
            );
        assert(now.waiting_events@[w] == mid.waiting_events@[w]) by {
            assert(mid.waiting_events@ =~= now.waiting_events@.subrange(
                0,
                mid.waiting_events@.len() as int,
            ));
        }
    }
    assert forall|j: int, sx: int|
        0 <= j < k && (#[trigger] evs0[j]).delay <= 1 && 0 <= sx
            < evs0[j].spawns@.len() implies now.active_spawns@.map_values(f).contains(
        crate::spawn::spawn_core(#[trigger] evs0[j].spawns@[sx]),
    ) by {
        let w = choose|w: int|
            0 <= w < mid.active_spawns@.len() && mid.active_spawns@.map_values(f)[w]
                == crate::spawn::spawn_core(evs0[j].spawns@[sx]);
        assert(now.active_spawns@[w] == mid.active_spawns@[w]) by {
            assert(mid.active_spawns@ =~= now.active_spawns@.subrange(
                0,
                mid.active_spawns@.len() as int,
            ));
        }
        assert(now.active_spawns@.map_values(f)[w] == crate::spawn::spawn_core(
            evs0[j].spawns@[sx],
        ));
    }
}

impl Level {
    /// One simulation tick: the delay and repeat timers count down, then
    /// every active spawn's pattern advances and each emitted shot
    /// becomes a creation request on the system queue; spawns whose
    /// patterns are spent are dropped.
    #[verifier::loop_isolation(false)]
    pub fn handle_update(&mut self, t: Milli, handler: &mut Handler<CreateRequest>)
        requires
            old(self).wf(),
            old(handler).wf(),
            0 <= t <= TICK_LIMIT,
        ensures
            final(self).wf(),
            final(handler).wf(),
            final(self).id == old(self).id,
            final(self).events@ == old(self).events@,
            final(self).waiting_events@ == old(self).waiting_events@,
            final(self).waiting_spawns@ == old(self).waiting_spawns@,
            final(self).ev_reg == old(self).ev_reg,
            final(self).ev.id == old(self).ev.id,
            final(self).ev.timers@ =~= timers_after(old(self).ev.timers@, t as int),
            final(handler).queue@ =~= old(handler).queue@ + timer_deliveries(
                old(self).id,
                old(self).ev.timers@,
                t as int,
            ),
            final(handler).subscriptions@ == old(handler).subscriptions@,
            active_models(final(self).active_spawns@) =~= spawns_kept(
                active_models(old(self).active_spawns@),
                t as int,
            ),
            sys_sigs(final(handler).sysqueue@) =~= sys_sigs(old(handler).sysqueue@)
                + spawns_step_sigs(active_models(old(self).active_spawns@), t as int),
    {
        self.ev.update(t, handler);
        let ghost q1 = handler.queue@;
        let ghost all = active_models(old(self).active_spawns@);
        let ghost sys0 = handler.sysqueue@;
        let mut olds: Vec<Spawn> = Vec::new();
        core::mem::swap(&mut olds, &mut self.active_spawns);
        let mut kept: Vec<Spawn> = Vec::new();
        let ghost pre_events = self.events@;
        proof {
            assert(active_models(olds@) =~= all);
            assert(active_models(kept@) =~= Seq::<(SpawnType, Vec2, PatternModel)>::empty());
            assert(sys_sigs(sys0) =~= sys_sigs(old(handler).sysqueue@));
        }
        while olds.len() > 0
            invariant
                self.wf(),
                handler.wf(),
                self.id == old(self).id,
                self.events@ == pre_events,
                self.active_spawns@.len() == 0,
                *self == (Level { active_spawns: self.active_spawns, ev: self.ev, ..*old(self) }),
                self.ev.id == old(self).ev.id,
                self.ev.timers@ =~= timers_after(old(self).ev.timers@, t as int),
                handler.subscriptions@ == old(handler).subscriptions@,
                handler.queue@ == q1,
                q1 =~= old(handler).queue@ + timer_deliveries(
                    old(self).id,
                    old(self).ev.timers@,
                    t as int,
                ),
                0 <= t <= TICK_LIMIT,
                forall|j: int| 0 <= j < olds@.len() ==> (#[trigger] olds@[j]).wf(),
                forall|j: int| 0 <= j < kept@.len() ==> (#[trigger] kept@[j]).wf(),
                active_models(kept@) + spawns_kept(active_models(olds@), t as int) =~= spawns_kept(
                    all,
                    t as int,
                ),
                sys_sigs(handler.sysqueue@) + spawns_step_sigs(active_models(olds@), t as int)
                    =~= sys_sigs(sys0) + spawns_step_sigs(all, t as int),
            decreases olds@.len(),
        {
            let ghost pre_olds = olds@;
            let ghost pre_kept = kept@;
            let ghost pre_sys = handler.sysqueue@;
            let mut sp = olds.remove(0);
            proof {
                assert(sp == pre_olds[0]);
                assert forall|j: int| 0 <= j < olds@.len() implies (#[trigger] olds@[j]).wf() by {
                    assert(olds@[j] == pre_olds[j + 1]);
                }
                assert(active_models(pre_olds).first() == (sp.spawn_type, sp.location, sp.pattern.model()));
                assert(active_models(pre_olds).drop_first() =~= active_models(olds@));
            }
            let ghost pre_model = sp.pattern.model();
            let shots = sp.pattern.next(t);
            let m = shots.len();
            let mut k: usize = 0;
            while k < m
                invariant
                    k <= m == shots@.len(),
                    self.wf(),
                    handler.wf(),
                    sp.wf(),
                    sp.spawn_type == pre_olds[0].spawn_type,
                    sp.location == pre_olds[0].location,
                    self.id == old(self).id,
                    self.events@ == pre_events,
                    handler.subscriptions@ == old(handler).subscriptions@,
                    handler.queue@ == q1,
                    sys_sigs(handler.sysqueue@) =~= sys_sigs(pre_sys) + spawn_shots_sigs(
                        sp.spawn_type,
                        sp.location,
                        shots@.take(k as int),
                    ),
                decreases m - k,
            {
                let shot = &shots[k];
                let ox = clamp_offset(shot.offset.x);
                let oy = clamp_offset(shot.offset.y);
                let pos = Vec2 { x: ox + sp.location.x, y: oy + sp.location.y };
                match &sp.spawn_type {
                    SpawnType::Enemy(info) => {
                        let paths = crate::spawn::duplicate_paths(&sp.paths);
                        handler.enqueue_sys(SysEvent::Create(CreateRequest::Enemy(*info, pos, paths)));
                        proof {
                            assert(sig_of(handler.sysqueue@.last()) == spawn_shot_sig(
                                sp.spawn_type,
                                sp.location,
                                shots@[k as int],
                            ));
                        }
                    },
                    SpawnType::Player => {
                        handler.enqueue_sys(SysEvent::Create(CreateRequest::Player));
                        proof {
                            assert(sig_of(handler.sysqueue@.last()) == spawn_shot_sig(
                                sp.spawn_type,
                                sp.location,
                                shots@[k as int],
                            ));
                        }
                    },
                }
                proof {
                    assert(spawn_shots_sigs(sp.spawn_type, sp.location, shots@.take(k as int + 1))
                        =~= spawn_shots_sigs(sp.spawn_type, sp.location, shots@.take(k as int)).push(
                        spawn_shot_sig(sp.spawn_type, sp.location, shots@[k as int]),
                    ));
                    assert(sys_sigs(handler.sysqueue@) =~= sys_sigs(
                        handler.sysqueue@.drop_last(),
                    ).push(sig_of(handler.sysqueue@.last())));
                    assert((sys_sigs(pre_sys) + spawn_shots_sigs(
                        sp.spawn_type,
                        sp.location,
                        shots@.take(k as int),
                    )).push(spawn_shot_sig(sp.spawn_type, sp.location, shots@[k as int]))
                        =~= sys_sigs(pre_sys) + spawn_shots_sigs(
                        sp.spawn_type,
                        sp.location,
                        shots@.take(k as int),
                    ).push(spawn_shot_sig(sp.spawn_type, sp.location, shots@[k as int])));
                    assert(sys_sigs(handler.sysqueue@) =~= sys_sigs(pre_sys) + spawn_shots_sigs(
                        sp.spawn_type,
                        sp.location,
                        shots@.take(k as int + 1),
                    ));
                }
                k = k + 1;
            }
            proof {
                assert(shots@.take(m as int) =~= shots@);
                assert(shots@ == advanced_model(pre_model, t as int).1);
            }
            let done = shots.len() == 0 && sp.pattern.finished();
            proof {
                assert(done == (advanced_model(pre_model, t as int).1.len() == 0
                    && model_finished(advanced_model(pre_model, t as int).0)));
            }
            if !done {
                kept.push(sp);
                proof {
                    assert forall|j: int| 0 <= j < kept@.len() implies (
                    #[trigger] kept@[j]).wf() by {}
                    assert(active_models(kept@) =~= active_models(pre_kept).push(
                        (sp.spawn_type, sp.location, sp.pattern.model()),
                    ));
                }
            }
            proof {
                assert(active_models(kept@) + spawns_kept(active_models(olds@), t as int)
                    =~= spawns_kept(all, t as int));
                assert(sys_sigs(handler.sysqueue@) + spawns_step_sigs(
                    active_models(olds@),
                    t as int,
                ) =~= sys_sigs(sys0) + spawns_step_sigs(all, t as int));
            }
        }
        self.active_spawns = kept;
        proof {
            assert(spawns_step_sigs(active_models(olds@), t as int) =~= Seq::<SysSig>::empty());
            assert(spawns_kept(active_models(olds@), t as int) =~= Seq::<
                (SpawnType, Vec2, PatternModel),
            >::empty());
        }
    }

    /// React to one delivered event: a spawn notice fires the implicit
    /// start name; an update tick runs the timers and patterns; a
    /// class-1 timer releases its waiting delayed event; a class-2 timer
    /// re-activates its repeating spawn, unregistering itself once the
    /// repeats run out. `level_stepped` states this contract as a
    /// relation for the dispatcher to forward.
    #[verifier::loop_isolation(false)]
    pub fn handle_event(&mut self, e: &Event, handler: &mut Handler<CreateRequest>)
        requires
            old(self).wf(),
            old(handler).wf(),
            *e matches Event::Update(t) ==> 0 <= t <= TICK_LIMIT,
        ensures
            final(self).wf(),
            final(handler).wf(),
            final(self).id == old(self).id,
            final(handler).subscriptions@ == old(handler).subscriptions@,
            *e is Spawn ==> final(handler).queue@ == old(handler).queue@
                && final(handler).sysqueue@ == old(handler).sysqueue@
                && !final(self).has_event("start"@)
                && (forall|n: Seq<char>| final(self).has_event(n) ==> old(self).has_event(n))
                && old(self).active_spawns@.is_prefix_of(final(self).active_spawns@)
                && old(self).waiting_events@.is_prefix_of(final(self).waiting_events@),
            *e matches Event::Update(t) ==> final(self).events@ == old(self).events@
                && final(self).waiting_events@ == old(self).waiting_events@
                && final(self).waiting_spawns@ == old(self).waiting_spawns@
                && final(self).ev.timers@ =~= timers_after(
                old(self).ev.timers@,
                t as int,
            ) && final(handler).queue@ =~= old(handler).queue@ + timer_deliveries(
                old(self).id,
                old(self).ev.timers@,
                t as int,
            ) && active_models(final(self).active_spawns@) =~= spawns_kept(
                active_models(old(self).active_spawns@),
                t as int,
            ) && sys_sigs(final(handler).sysqueue@) =~= sys_sigs(old(handler).sysqueue@)
                + spawns_step_sigs(active_models(old(self).active_spawns@), t as int),
            *e matches Event::CTimer(c, tid) ==> ({
                &&& (c == 1 ==> ({
                    let ws = old(self).waiting_events@;
                    &&& final(handler).queue@ == old(handler).queue@
                    &&& final(handler).sysqueue@ == old(handler).sysqueue@
                    &&& old(self).active_spawns@.is_prefix_of(final(self).active_spawns@)
                    &&& (forall|n: Seq<char>|
                        final(self).has_event(n) ==> old(self).has_event(n))
                    &&& ((forall|x: int| 0 <= x < ws.len() ==> (#[trigger] ws[x]).0 != tid)
                        ==> *final(self) == *old(self) && *final(handler) == *old(handler))
                    &&& ((exists|x: int| 0 <= x < ws.len() && (#[trigger] ws[x]).0 == tid) ==> ({
                        let j = choose|j: int|
                            0 <= j < ws.len() && (#[trigger] ws[j]).0 == tid && (forall|y: int|
                                0 <= y < j ==> ws[y].0 != tid);
                        &&& ws.remove(j).is_prefix_of(final(self).waiting_events@)
                        &&& (forall|sx: int|
                            0 <= sx < ws[j].1.spawns@.len()
                                ==> final(self).active_spawns@.map_values(
                                |sp: Spawn| crate::spawn::spawn_core(sp),
                            ).contains(
                                crate::spawn::spawn_core(#[trigger] ws[j].1.spawns@[sx]),
                            ))
                    }))
                }))
                &&& (c == 2 ==> ({
                    let ws = old(self).waiting_spawns@;
                    &&& *final(handler) == *old(handler)
                    &&& final(self).events@ == old(self).events@
                    &&& final(self).waiting_events@ == old(self).waiting_events@
                    &&& final(self).ev_reg == old(self).ev_reg
                    &&& old(self).active_spawns@.is_prefix_of(final(self).active_spawns@)
                    &&& ((forall|x: int| 0 <= x < ws.len() ==> (#[trigger] ws[x]).0 != tid)
                        ==> *final(self) == *old(self))
                    &&& ((exists|x: int| 0 <= x < ws.len() && (#[trigger] ws[x]).0 == tid) ==> ({
                        let j = choose|j: int|
                            0 <= j < ws.len() && (#[trigger] ws[j]).0 == tid && (forall|y: int|
                                0 <= y < j ==> ws[y].0 != tid);
                        let sp = ws[j].1;
                        &&& final(self).active_spawns@.map_values(
                            |s2: Spawn| crate::spawn::spawn_core(s2),
                        ) =~= old(self).active_spawns@.map_values(
                            |s2: Spawn| crate::spawn::spawn_core(s2),
                        ).push(crate::spawn::spawn_core(sp))
                        &&& (sp.repeat > 0 ==> ({
                            &&& final(self).waiting_spawns@.len() == ws.len()
                            &&& (forall|x: int|
                                0 <= x < ws.len() && x != j
                                    ==> final(self).waiting_spawns@[x] == ws[x])
                            &&& final(self).waiting_spawns@[j].0 == tid
                            &&& crate::spawn::spawn_core(final(self).waiting_spawns@[j].1)
                                == crate::spawn::spawn_core(
                                (Spawn { repeat: (sp.repeat - 1) as u64, ..sp }),
                            )
                        }))
                        &&& (sp.repeat == 0 ==> final(self).waiting_spawns@ == ws)
                        &&& (sp.repeat <= 1 ==> final(self).ev.timers@
                            =~= crate::timers::remove_first_timer_classed(
                            old(self).ev.timers@,
                            tid,
                            2,
                        ))
                        &&& (sp.repeat > 1 ==> final(self).ev.timers@ == old(self).ev.timers@)
                    }))
                }))
                &&& (c != 1 && c != 2 ==> *final(self) == *old(self)
                    && *final(handler) == *old(handler))
            }),
            !(*e is Spawn) && !(*e is Update) && !(*e is CTimer)
                ==> *final(self) == *old(self) && *final(handler) == *old(handler),
    {
        match *e {
            Event::Spawn => {
                let start = "start".to_owned();
                self.event_finished(&start, handler);
            },
            Event::Update(t) => {
                self.handle_update(t, handler);
            },
            Event::CTimer(1, id) => {
                let ghost ws = old(self).waiting_events@;
                let n = self.waiting_events.len();
                let mut i: usize = 0;
                let mut found = false;
                while i < n
                    invariant
                        i <= n == self.waiting_events@.len(),
                        !found,
                        *self == *old(self),
                        forall|x: int| 0 <= x < i ==> (#[trigger] ws[x]).0 != id,
                    decreases n - i,
                {
                    if self.waiting_events[i].0 == id {
                        found = true;
                        break ;
                    }
                    i = i + 1;
                }
                if found {
                    proof {
                        assert(ws[i as int].0 == id);
                        assert(exists|j: int|
                            0 <= j < ws.len() && (#[trigger] ws[j]).0 == id && (forall|y: int|
                                0 <= y < j ==> ws[y].0 != id)) by {
                            assert(0 <= (i as int) && (i as int) < ws.len() && ws[i as int].0 == id && (forall|y: int|
                                0 <= y < i as int ==> ws[y].0 != id));
                        }
                        assert forall|j: int|
                            0 <= j < ws.len() && (#[trigger] ws[j]).0 == id && (forall|y: int|
                                0 <= y < j ==> ws[y].0 != id) implies j == i as int by {
                            if j < i as int {
                                assert(ws[j].0 != id);
                            } else if j > i as int {
                                assert(ws[i as int].0 != id);
                            }
                        }
                    }
                    let (_, evt) = self.waiting_events.remove(i);
                    proof {
                        assert(evt == old(self).waiting_events@[i as int].1);
                        assert forall|j: int|
                            0 <= j < self.waiting_events@.len() implies (
                        #[trigger] self.waiting_events@[j]).1.wf() by {
                            if j < i {
                                assert(self.waiting_events@[j] == old(
                                    self,
                                ).waiting_events@[j]);
                            } else {
                                assert(self.waiting_events@[j] == old(self).waiting_events@[j
                                    + 1]);
                            }
                        }
                        assert(self.waiting_events@ =~= ws.remove(i as int));
                    }
                    self.handle_level_event(evt, handler);
                }
            },
            Event::CTimer(2, id) => {
                let ghost ws = old(self).waiting_spawns@;
                let n = self.waiting_spawns.len();
                let mut i: usize = 0;
                let mut found = false;
                while i < n
                    invariant
                        i <= n == self.waiting_spawns@.len(),
                        !found,
                        *self == *old(self),
                        forall|x: int| 0 <= x < i ==> (#[trigger] ws[x]).0 != id,
                    decreases n - i,
                {
                    if self.waiting_spawns[i].0 == id {
                        found = true;
                        break ;
                    }
                    i = i + 1;
                }
                if found {
                    proof {
                        assert(ws[i as int].0 == id);
                        assert(exists|j: int|
                            0 <= j < ws.len() && (#[trigger] ws[j]).0 == id && (forall|y: int|
                                0 <= y < j ==> ws[y].0 != id)) by {
                            assert(0 <= (i as int) && (i as int) < ws.len() && ws[i as int].0 == id && (forall|y: int|
                                0 <= y < i as int ==> ws[y].0 != id));
                        }
                        assert forall|j: int|
                            0 <= j < ws.len() && (#[trigger] ws[j]).0 == id && (forall|y: int|
                                0 <= y < j ==> ws[y].0 != id) implies j == i as int by {
                            if j < i as int {
                                assert(ws[j].0 != id);
                            } else if j > i as int {
                                assert(ws[i as int].0 != id);
                            }
                        }
                    }
                    let ghost sp = ws[i as int].1;
                    let left = self.waiting_spawns[i].1.repeat;
                    let copy = self.waiting_spawns[i].1.duplicate();
                    self.active_spawns.push(copy);
                    proof {
                        assert forall|j: int|
                            0 <= j < self.active_spawns@.len() implies (
                        #[trigger] self.active_spawns@[j]).wf() by {}
                        let f = |s2: Spawn| crate::spawn::spawn_core(s2);
                        assert(self.active_spawns@.map_values(f) =~= old(
                            self,
                        ).active_spawns@.map_values(f).push(crate::spawn::spawn_core(sp))) by {
                            assert(self.active_spawns@.drop_last() == old(self).active_spawns@);
                            assert(self.active_spawns@.map_values(f).last()
                                == crate::spawn::spawn_core(copy));
                        }
                    }
                    if left > 0 {
                        let updated = Spawn {
                            repeat: left - 1,
                            ..self.waiting_spawns[i].1.duplicate()
                        };
                        proof {
                            assert(crate::spawn::spawn_core(updated) == crate::spawn::spawn_core(
                                (Spawn { repeat: (sp.repeat - 1) as u64, ..sp }),
                            ));
                        }
                        self.waiting_spawns[i] = (id, updated);
                        proof {
                            assert forall|j: int|
                                0 <= j < self.waiting_spawns@.len() implies (
                            #[trigger] self.waiting_spawns@[j]).1.wf() by {
                                if j != i {
                                    assert(self.waiting_spawns@[j] == old(
                                        self,
                                    ).waiting_spawns@[j]);
                                }
                            }
                        }
                    }
                    if left <= 1 {
                        self.ev.remove_timer_with_class(id, 2);
                    }
                }
            },
            _ => {},
        }
    }
}

/// An emission offset held within the world's magnitude bound.
fn clamp_offset(x: Milli) -> (r: Milli)
    ensures
        r == sat_at(x as int, MAG_LIMIT as int),
        -MAG_LIMIT <= r <= MAG_LIMIT,
        -MAG_LIMIT <= x <= MAG_LIMIT ==> r == x,
{
    if x > MAG_LIMIT {
        MAG_LIMIT
    } else if x < -MAG_LIMIT {
        -MAG_LIMIT
    } else {
        x
    }
}

} // verus!
