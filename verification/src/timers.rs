//! Per-entity timers and the event facet that owns them.
//!
//! A timer counts a remaining time down once per update tick. When it
//! expires it enqueues its event through the bus; a one-shot timer is
//! then removed, a repeating one is reset by adding its interval back
//! (so any overshoot carries into the next period). The decrement
//! saturates at the bottom of the integer range, which is unreachable
//! for any input the contracts admit.

use vstd::prelude::*;
use vstd::arithmetic::div_mod::lemma_fundamental_div_mod_converse;

use crate::events::{Event, Handler, SysEvent};
use crate::num::{Milli, MAG_LIMIT};

verus! {

broadcast use vstd::seq_lib::group_seq_properties;

/// One scheduled timer.
#[derive(Clone, Copy, Debug, PartialEq, Eq, Structural)]
pub struct Timer {
    /// User id carried by the fired event.
    pub id: u64,
    /// Class byte distinguishing timer families.
    pub class: u8,
    /// Whether the timer resets after firing.
    pub repeat: bool,
    /// Full interval.
    pub amount: Milli,
    /// Time left until the next firing.
    pub left: Milli,
    /// Event enqueued on every firing.
    pub event: Event,
}

/// Difference `a - b`, held at the bottom of the `i64` range.
pub open spec fn sat_sub(a: int, b: int) -> int {
    if a - b < i64::MIN {
        i64::MIN as int
    } else {
        a - b
    }
}

impl Timer {
    /// Interval nonnegative and bounded, and the remaining time never
    /// above the interval.
    pub open spec fn wf(self) -> bool {
        &&& 0 <= self.amount <= MAG_LIMIT
        &&& self.left <= self.amount
    }

    /// Whether one update by `time` makes the timer fire.
    pub open spec fn fires(self, time: int) -> bool {
        sat_sub(self.left as int, time) <= 0
    }

    /// The timer state after one update by `time`.
    pub open spec fn stepped(self, time: int) -> Timer {
        let d = sat_sub(self.left as int, time);
        let l = if self.repeat && d <= 0 {
            d + self.amount
        } else {
            d
        };
        Timer {
            left: l as i64,
            ..self
        }
    }

    /// Build a timer with a class byte. The remaining time starts at the
    /// full interval.
    pub fn with_class(id: u64, amount: Milli, repeat: bool, event: Event, class: u8) -> (t: Timer)
        requires
            0 <= amount <= MAG_LIMIT,
        ensures
            t == (Timer { id, class, repeat, amount, left: amount, event }),
            t.wf(),
    {
        Timer { id, repeat, left: amount, amount, class, event }
    }

    /// Build an unclassed timer.
    pub fn new(id: u64, amount: Milli, repeat: bool, event: Event) -> (t: Timer)
        requires
            0 <= amount <= MAG_LIMIT,
        ensures
            t == (Timer { id, class: 0u8, repeat, amount, left: amount, event }),
            t.wf(),
    {
        Timer::with_class(id, amount, repeat, event, 0)
    }

    /// Count the timer down by `time`; the result says whether it fired.
    /// A repeating timer that fires gets its interval added back, so an
    /// overshoot shortens the next period.
    pub fn update(&mut self, time: Milli) -> (fired: bool)
        requires
            old(self).wf(),
            0 <= time <= MAG_LIMIT,
        ensures
            final(self).wf(),
            fired == old(self).fires(time as int),
            *final(self) == old(self).stepped(time as int),
    {
        let d = if self.left >= i64::MIN + time {
            self.left - time
        } else {
            i64::MIN
        };
        self.left = d;
        if self.repeat && d <= 0 {
            self.left = d + self.amount;
            true
        } else {
            d <= 0
        }
    }
}

/// Every timer of the sequence is well formed.
pub open spec fn timers_wf(ts: Seq<Timer>) -> bool {
    forall|i: int| 0 <= i < ts.len() ==> (#[trigger] ts[i]).wf()
}

/// The timers remaining after one update tick: fired one-shot timers are
/// dropped, everything else keeps its place with its counted-down state.
pub open spec fn timers_after(ts: Seq<Timer>, time: int) -> Seq<Timer>
    decreases ts.len(),
{
    if ts.len() == 0 {
        Seq::empty()
    } else {
        let rest = timers_after(ts.drop_last(), time);
        let t = ts.last();
        if t.fires(time) && !t.repeat {
            rest
        } else {
            rest.push(t.stepped(time))
        }
    }
}

/// The deliveries one update tick makes for an entity: one entry per
/// firing timer, in timer order, each carrying the timer's event.
pub open spec fn timer_deliveries(id: u64, ts: Seq<Timer>, time: int) -> Seq<(u64, Event)>
    decreases ts.len(),
{
    if ts.len() == 0 {
        Seq::empty()
    } else {
        let rest = timer_deliveries(id, ts.drop_last(), time);
        if ts.last().fires(time) {
            rest.push((id, ts.last().event))
        } else {
            rest
        }
    }
}

/// Sum of a sequence of durations.
pub open spec fn sum_of(ds: Seq<Milli>) -> int
    decreases ds.len(),
{
    if ds.len() == 0 {
        0int
    } else {
        sum_of(ds.drop_last()) + ds.last()
    }
}

/// The timer state after a whole run of update ticks.
pub open spec fn timer_after_run(t: Timer, ds: Seq<Milli>) -> Timer
    decreases ds.len(),
{
    if ds.len() == 0 {
        t
    } else {
        timer_after_run(t, ds.drop_last()).stepped(ds.last() as int)
    }
}

/// How many of the run's update ticks made the timer fire.
pub open spec fn fire_total(t: Timer, ds: Seq<Milli>) -> int
    decreases ds.len(),
{
    if ds.len() == 0 {
        0int
    } else {
        fire_total(t, ds.drop_last()) + if timer_after_run(t, ds.drop_last()).fires(
            ds.last() as int,
        ) {
            1int
        } else {
            0int
        }
    }
}

/// Law: a repeating timer with interval `T`, started full and observed
/// through update ticks that each last at most `T`, fires exactly
/// `floor(elapsed / T)` times, where `elapsed` is the total observed
/// time. In particular, observing for `k*T + e` with `0 <= e < T` gives
/// exactly `k` firings.
pub proof fn lemma_repeating_timer_fire_count(t: Timer, ds: Seq<Milli>)
    requires
        t.wf(),
        t.repeat,
        0 < t.amount,
        t.left == t.amount,
        forall|i: int| 0 <= i < ds.len() ==> 0 <= #[trigger] ds[i] <= t.amount,
    ensures
        fire_total(t, ds) == sum_of(ds) / (t.amount as int),
    decreases ds.len(),
{
    lemma_timer_run_invariant(t, ds);
    let u = timer_after_run(t, ds);
    let f = fire_total(t, ds);
    let s = sum_of(ds);
    let a = t.amount as int;
    assert(u.left == a * (1 + f) - s);
    assert(0 < u.left <= a);
    assert(s == a * f + (a - u.left)) by (nonlinear_arith)
        requires
            u.left == a * (1 + f) - s,
    ;
    lemma_fundamental_div_mod_converse(s, a, f, a - u.left);
}

/// Run invariant behind the firing-count law: the remaining time always
/// equals the interval times one more than the firings made, minus the
/// elapsed time, and stays in the half-open period `(0, T]`.
proof fn lemma_timer_run_invariant(t: Timer, ds: Seq<Milli>)
    requires
        t.wf(),
        t.repeat,
        0 < t.amount,
        t.left == t.amount,
        forall|i: int| 0 <= i < ds.len() ==> 0 <= #[trigger] ds[i] <= t.amount,
    ensures
        timer_after_run(t, ds).left == (t.amount as int) * (1 + fire_total(t, ds)) - sum_of(ds),
        0 < timer_after_run(t, ds).left <= t.amount,
        timer_after_run(t, ds).amount == t.amount,
        timer_after_run(t, ds).repeat,
        0 <= fire_total(t, ds) <= ds.len(),
    decreases ds.len(),
{
    if ds.len() == 0 {
        assert((t.amount as int) * 1 == t.amount as int) by (nonlinear_arith);
    } else {
        let prefix = ds.drop_last();
        assert(forall|i: int| 0 <= i < prefix.len() ==> 0 <= #[trigger] prefix[i] <= t.amount);
        lemma_timer_run_invariant(t, prefix);
        let u = timer_after_run(t, prefix);
        let d = ds.last() as int;
        let a = t.amount as int;
        let f = fire_total(t, prefix);
        assert(u.left - d >= i64::MIN) by {
            assert(u.left > 0);
            assert(d <= MAG_LIMIT);
        }
        if u.fires(d) {
            assert(timer_after_run(t, ds).left == u.left - d + a);
            assert(a * (1 + (f + 1)) == a * (1 + f) + a) by (nonlinear_arith);
        } else {
            assert(timer_after_run(t, ds).left == u.left - d);
        }
    }
}


/// The timer list with the first timer of one user id removed, if any.
pub open spec fn remove_first_timer(ts: Seq<Timer>, id: u64) -> Seq<Timer>
    decreases ts.len(),
{
    if ts.len() == 0 {
        Seq::empty()
    } else if ts.first().id == id {
        ts.drop_first()
    } else {
        seq![ts.first()] + remove_first_timer(ts.drop_first(), id)
    }
}

/// The timer list with the first timer of one user id and class
/// removed, if any.
pub open spec fn remove_first_timer_classed(ts: Seq<Timer>, id: u64, class: u8) -> Seq<Timer>
    decreases ts.len(),
{
    if ts.len() == 0 {
        Seq::empty()
    } else if ts.first().id == id && ts.first().class == class {
        ts.drop_first()
    } else {
        seq![ts.first()] + remove_first_timer_classed(ts.drop_first(), id, class)
    }
}


/// Removing the first match at a known first-match index is the plain
/// index removal.
proof fn lemma_remove_first_at(ts: Seq<Timer>, id: u64, i: int)
    requires
        0 <= i < ts.len(),
        ts[i].id == id,
        forall|j: int| 0 <= j < i ==> (#[trigger] ts[j]).id != id,
    ensures
        remove_first_timer(ts, id) =~= ts.remove(i),
    decreases i,
{
    if i == 0 {
        assert(ts.first().id == id);
        assert(ts.drop_first() =~= ts.remove(0));
    } else {
        assert(ts.first().id != id) by {
            assert(ts[0].id != id);
        }
        lemma_remove_first_at(ts.drop_first(), id, i - 1);
        assert(ts.drop_first().remove(i - 1) =~= ts.remove(i).drop_first());
        assert(remove_first_timer(ts, id) =~= seq![ts.first()] + ts.drop_first().remove(i - 1));
        assert(ts.remove(i).first() == ts.first());
        assert(seq![ts.remove(i).first()] + ts.remove(i).drop_first() =~= ts.remove(i));
    }
}

/// With no match, removing the first match changes nothing.
proof fn lemma_remove_first_absent(ts: Seq<Timer>, id: u64)
    requires
        forall|j: int| 0 <= j < ts.len() ==> (#[trigger] ts[j]).id != id,
    ensures
        remove_first_timer(ts, id) =~= ts,
    decreases ts.len(),
{
    if ts.len() > 0 {
        assert(ts[0].id != id);
        lemma_remove_first_absent(ts.drop_first(), id);
        assert(seq![ts.first()] + ts.drop_first() =~= ts);
    }
}

/// Counterpart of `lemma_remove_first_at` for classed removal.
proof fn lemma_remove_first_classed_at(ts: Seq<Timer>, id: u64, class: u8, i: int)
    requires
        0 <= i < ts.len(),
        ts[i].id == id,
        ts[i].class == class,
        forall|j: int| 0 <= j < i ==> !((#[trigger] ts[j]).id == id && ts[j].class == class),
    ensures
        remove_first_timer_classed(ts, id, class) =~= ts.remove(i),
    decreases i,
{
    if i == 0 {
        assert(ts.drop_first() =~= ts.remove(0));
    } else {
        assert(!(ts[0].id == id && ts[0].class == class));
        lemma_remove_first_classed_at(ts.drop_first(), id, class, i - 1);
        assert(ts.drop_first().remove(i - 1) =~= ts.remove(i).drop_first());
        assert(remove_first_timer_classed(ts, id, class) =~= seq![ts.first()]
            + ts.drop_first().remove(i - 1));
        assert(ts.remove(i).first() == ts.first());
        assert(seq![ts.remove(i).first()] + ts.remove(i).drop_first() =~= ts.remove(i));
    }
}

/// Counterpart of `lemma_remove_first_absent` for classed removal.
proof fn lemma_remove_first_classed_absent(ts: Seq<Timer>, id: u64, class: u8)
    requires
        forall|j: int| 0 <= j < ts.len() ==> !((#[trigger] ts[j]).id == id && ts[j].class == class),
    ensures
        remove_first_timer_classed(ts, id, class) =~= ts,
    decreases ts.len(),
{
    if ts.len() > 0 {
        assert(!(ts[0].id == id && ts[0].class == class));
        lemma_remove_first_classed_absent(ts.drop_first(), id, class);
        assert(seq![ts.first()] + ts.drop_first() =~= ts);
    }
}

/// Event facet of an entity: its identity and the timers it owns. The
/// event bus itself is handed in by the caller, so all mutation of the
/// shared queues flows through one explicit context.
pub struct EventComp {
    /// Identity of the owning entity.
    pub id: u64,
    /// Timers owned by the entity, in creation order.
    pub timers: Vec<Timer>,
}

impl EventComp {
    /// All owned timers are well formed.
    pub open spec fn wf(self) -> bool {
        timers_wf(self.timers@)
    }

    /// Fresh facet with no timers.
    pub fn new(id: u64) -> (r: EventComp)
        ensures
            r.wf(),
            r.id == id,
            r.timers@ =~= Seq::<Timer>::empty(),
    {
        EventComp { id, timers: Vec::new() }
    }

    /// One update tick: count every timer down, enqueue the event of
    /// each one that fires (addressed to the owning entity), drop fired
    /// one-shot timers and keep everything else in order.
    #[verifier::loop_isolation(false)]
    pub fn update<C>(&mut self, time: Milli, handler: &mut Handler<C>)
        requires
            old(self).wf(),
            old(handler).wf(),
            0 <= time <= MAG_LIMIT,
        ensures
            final(self).wf(),
            final(handler).wf(),
            final(self).id == old(self).id,
            final(self).timers@ =~= timers_after(old(self).timers@, time as int),
            final(handler).queue@ =~= old(handler).queue@ + timer_deliveries(
                old(self).id,
                old(self).timers@,
                time as int,
            ),
            final(handler).subscriptions@ == old(handler).subscriptions@,
            final(handler).sysqueue@ == old(handler).sysqueue@,
    {
        let n = self.timers.len();
        let mut kept: Vec<Timer> = Vec::new();
        let mut i: usize = 0;
        while i < n
            invariant
                i <= n == self.timers@.len(),
                self.timers@ == old(self).timers@,
                self.id == old(self).id,
                handler.wf(),
                timers_wf(kept@),
                kept@ =~= timers_after(self.timers@.take(i as int), time as int),
                handler.queue@ =~= old(handler).queue@ + timer_deliveries(
                    self.id,
                    self.timers@.take(i as int),
                    time as int,
                ),
                handler.subscriptions@ == old(handler).subscriptions@,
                handler.sysqueue@ == old(handler).sysqueue@,
            decreases n - i,
        {
            let mut t = self.timers[i];
            let fired = t.update(time);
            if fired {
                handler.enqueue_specific(self.id, t.event);
            }
            if !(fired && !t.repeat) {
                kept.push(t);
                proof {
                    assert forall|j: int| 0 <= j < kept@.len() implies (
                    #[trigger] kept@[j]).wf() by {
                        if j == kept@.len() - 1 {
                            assert(kept@[j] == t);
                        }
                    }
                }
            }
            proof {
                let taken = self.timers@.take(i + 1);
                assert(taken.drop_last() =~= self.timers@.take(i as int));
                assert(taken.last() == self.timers@[i as int]);
            }
            i = i + 1;
        }
        self.timers = kept;
        proof {
            assert(old(self).timers@.take(n as int) =~= old(self).timers@);
        }
    }

    /// Schedule a one-shot timer firing `Timer(id)` after `amount`.
    pub fn set_timer(&mut self, id: u64, amount: Milli)
        requires
            old(self).wf(),
            0 <= amount <= MAG_LIMIT,
        ensures
            final(self).wf(),
            final(self).id == old(self).id,
            final(self).timers@ =~= old(self).timers@.push(
                Timer { id, class: 0u8, repeat: false, amount, left: amount, event: Event::Timer(id) },
            ),
    {
        self.set_timer_manual(id, amount, false, Event::Timer(id), 0);
    }

    /// Schedule a one-shot classed timer firing `CTimer(class, id)`.
    pub fn set_timer_with_class(&mut self, id: u64, amount: Milli, class: u8)
        requires
            old(self).wf(),
            0 <= amount <= MAG_LIMIT,
        ensures
            final(self).wf(),
            final(self).id == old(self).id,
            final(self).timers@ =~= old(self).timers@.push(
                Timer { id, class, repeat: false, amount, left: amount, event: Event::CTimer(class, id) },
            ),
    {
        self.set_timer_manual(id, amount, false, Event::CTimer(class, id), class);
    }

    /// Schedule a repeating timer firing `Timer(id)` every `amount`.
    pub fn set_repeating_timer(&mut self, id: u64, amount: Milli)
        requires
            old(self).wf(),
            0 <= amount <= MAG_LIMIT,
        ensures
            final(self).wf(),
            final(self).id == old(self).id,
            final(self).timers@ =~= old(self).timers@.push(
                Timer { id, class: 0u8, repeat: true, amount, left: amount, event: Event::Timer(id) },
            ),
    {
        self.set_timer_manual(id, amount, true, Event::Timer(id), 0);
    }

    /// Schedule a repeating classed timer firing `CTimer(class, id)`.
    pub fn set_repeating_timer_with_class(&mut self, id: u64, amount: Milli, class: u8)
        requires
            old(self).wf(),
            0 <= amount <= MAG_LIMIT,
        ensures
            final(self).wf(),
            final(self).id == old(self).id,
            final(self).timers@ =~= old(self).timers@.push(
                Timer { id, class, repeat: true, amount, left: amount, event: Event::CTimer(class, id) },
            ),
    {
        self.set_timer_manual(id, amount, true, Event::CTimer(class, id), class);
    }

    /// Schedule a timer with every field spelled out.
    pub fn set_timer_manual(
        &mut self,
        id: u64,
        amount: Milli,
        repeat: bool,
        event: Event,
        class: u8,
    )
        requires
            old(self).wf(),
            0 <= amount <= MAG_LIMIT,
        ensures
            final(self).wf(),
            final(self).id == old(self).id,
            final(self).timers@ =~= old(self).timers@.push(
                Timer { id, class, repeat, amount, left: amount, event },
            ),
    {
        let t = Timer::with_class(id, amount, repeat, event, class);
        self.timers.push(t);
    }

    /// Remove the first timer carrying this user id, if any.
    #[verifier::loop_isolation(false)]
    pub fn remove_timer(&mut self, id: u64)
        requires
            old(self).wf(),
        ensures
            final(self).wf(),
            final(self).id == old(self).id,
            final(self).timers@ =~= remove_first_timer(old(self).timers@, id),
    {
        let mut i: usize = 0;
        while i < self.timers.len()
            invariant
                i <= self.timers.len(),
                *self == *old(self),
                forall|j: int| 0 <= j < i ==> (#[trigger] self.timers@[j]).id != id,
            decreases self.timers.len() - i,
        {
            if self.timers[i].id == id {
                self.timers.remove(i);
                proof {
                    assert(old(self).timers@[i as int].id == id);
                    lemma_remove_first_at(old(self).timers@, id, i as int);
                    assert(final(self).timers@ =~= old(self).timers@.remove(i as int));
                }
                return ;
            }
            i = i + 1;
        }
        proof {
            lemma_remove_first_absent(old(self).timers@, id);
        }
    }

    /// Remove the first timer carrying this user id and class, if any.
    #[verifier::loop_isolation(false)]
    pub fn remove_timer_with_class(&mut self, id: u64, class: u8)
        requires
            old(self).wf(),
        ensures
            final(self).wf(),
            final(self).id == old(self).id,
            final(self).timers@ =~= remove_first_timer_classed(old(self).timers@, id, class),
    {
        let mut i: usize = 0;
        while i < self.timers.len()
            invariant
                i <= self.timers.len(),
                *self == *old(self),
                forall|j: int|
                    0 <= j < i ==> !((#[trigger] self.timers@[j]).id == id && self.timers@[j].class
                        == class),
            decreases self.timers.len() - i,
        {
            if self.timers[i].id == id && self.timers[i].class == class {
                self.timers.remove(i);
                proof {
                    assert(old(self).timers@[i as int].id == id);
                    lemma_remove_first_classed_at(old(self).timers@, id, class, i as int);
                    assert(final(self).timers@ =~= old(self).timers@.remove(i as int));
                }
                return ;
            }
            i = i + 1;
        }
        proof {
            lemma_remove_first_classed_absent(old(self).timers@, id, class);
        }
    }

    /// Subscribe the owning entity to the kind of this event.
    pub fn subscribe<C>(&self, event: Event, handler: &mut Handler<C>)
        requires
            old(handler).wf(),
        ensures
            final(handler).wf(),
            final(handler).is_subscribed(self.id, event.kind()),
            forall|x: u64, k: crate::events::EventType|
                old(handler).is_subscribed(x, k) ==> final(handler).is_subscribed(x, k),
            final(handler).queue@ == old(handler).queue@,
            final(handler).sysqueue@ == old(handler).sysqueue@,
    {
        handler.subscribe(self.id, event);
    }

    /// Unsubscribe the owning entity from the kind of this event.
    pub fn unsubscribe<C>(&self, event: Event, handler: &mut Handler<C>)
        requires
            old(handler).wf(),
        ensures
            final(handler).wf(),
            !final(handler).is_subscribed(self.id, event.kind()),
            final(handler).queue@ == old(handler).queue@,
            final(handler).sysqueue@ == old(handler).sysqueue@,
    {
        handler.unsubscribe(self.id, event);
    }

    /// Ask the engine to destroy the owning entity after this delivery
    /// pass.
    pub fn destroy_self<C>(&self, handler: &mut Handler<C>)
        requires
            old(handler).wf(),
        ensures
            final(handler).wf(),
            final(handler).sysqueue@ =~= old(handler).sysqueue@.push(
                SysEvent::Destroy(self.id),
            ),
            final(handler).queue@ == old(handler).queue@,
            final(handler).subscriptions@ == old(handler).subscriptions@,
    {
        handler.enqueue_sys(SysEvent::Destroy(self.id));
    }

    /// Ask the engine to destroy another entity after this delivery pass.
    pub fn destroy_other<C>(&self, id: u64, handler: &mut Handler<C>)
        requires
            old(handler).wf(),
        ensures
            final(handler).wf(),
            final(handler).sysqueue@ =~= old(handler).sysqueue@.push(SysEvent::Destroy(id)),
            final(handler).queue@ == old(handler).queue@,
            final(handler).subscriptions@ == old(handler).subscriptions@,
    {
        handler.enqueue_sys(SysEvent::Destroy(id));
    }

    /// Ask the engine to re-run the step pipeline for `t` milliseconds of
    /// sub-steps after this delivery pass.
    pub fn fast_forward<C>(&self, t: Milli, handler: &mut Handler<C>)
        requires
            old(handler).wf(),
        ensures
            final(handler).wf(),
            final(handler).sysqueue@ =~= old(handler).sysqueue@.push(SysEvent::FastForward(t)),
            final(handler).queue@ == old(handler).queue@,
            final(handler).subscriptions@ == old(handler).subscriptions@,
    {
        handler.enqueue_sys(SysEvent::FastForward(t));
    }

    /// Publish an event to every subscriber of its kind.
    pub fn dispatch<C>(&self, event: Event, handler: &mut Handler<C>)
        requires
            old(handler).wf(),
        ensures
            final(handler).wf(),
            final(handler).queue@ =~= old(handler).queue@ + crate::events::deliveries(
                old(handler).subscriptions@,
                event,
            ),
            final(handler).subscriptions@ == old(handler).subscriptions@,
            final(handler).sysqueue@ == old(handler).sysqueue@,
    {
        handler.enqueue_all(event);
    }

    /// Send an event to one identity, bypassing subscriptions.
    pub fn dispatch_to<C>(&self, id: u64, event: Event, handler: &mut Handler<C>)
        requires
            old(handler).wf(),
        ensures
            final(handler).wf(),
            final(handler).queue@ =~= old(handler).queue@.push((id, event)),
            final(handler).subscriptions@ == old(handler).subscriptions@,
            final(handler).sysqueue@ == old(handler).sysqueue@,
    {
        handler.enqueue_specific(id, event);
    }

    /// Ask the engine to create an entity from this descriptor after the
    /// delivery pass.
    pub fn create_entity<C>(&self, request: C, handler: &mut Handler<C>)
        requires
            old(handler).wf(),
        ensures
            final(handler).wf(),
            final(handler).sysqueue@ =~= old(handler).sysqueue@.push(SysEvent::Create(request)),
            final(handler).queue@ == old(handler).queue@,
            final(handler).subscriptions@ == old(handler).subscriptions@,
    {
        handler.enqueue_sys(SysEvent::Create(request));
    }
}

} // verus!
