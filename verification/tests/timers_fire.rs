//! Timer counting, repetition and removal.

use danmaku_core::events::{Event, Handler};
use danmaku_core::level::CreateRequest;
use danmaku_core::timers::EventComp;

fn bus() -> Handler<CreateRequest> {
    Handler::new()
}

/// A repeating timer with interval T observed for k*T + e (0 < e < T)
/// fires exactly k times.
#[test]
fn repeating_timer_fires_k_times() {
    let mut h = bus();
    let mut ev = EventComp::new(9);
    ev.set_repeating_timer(1, 100);
    // Observe for 3*100 + 40 milliseconds in 10 ms ticks.
    let ticks = 34;
    for _ in 0..ticks {
        ev.update(10, &mut h);
    }
    let fired = h.flush();
    assert_eq!(fired.len(), 3);
    for (id, e) in fired {
        assert_eq!(id, 9);
        assert!(matches!(e, Event::Timer(1)));
    }
}

#[test]
fn one_shot_timer_fires_once_and_goes_away() {
    let mut h = bus();
    let mut ev = EventComp::new(4);
    ev.set_timer(2, 50);
    ev.update(30, &mut h);
    assert_eq!(h.flush().len(), 0);
    ev.update(30, &mut h);
    let fired = h.flush();
    assert_eq!(fired.len(), 1);
    assert!(matches!(fired[0].1, Event::Timer(2)));
    // Long after, nothing more comes.
    for _ in 0..10 {
        ev.update(1000, &mut h);
    }
    assert_eq!(h.flush().len(), 0);
}

#[test]
fn classed_timer_carries_its_class() {
    let mut h = bus();
    let mut ev = EventComp::new(5);
    ev.set_timer_with_class(7, 10, 3);
    ev.update(10, &mut h);
    let fired = h.flush();
    assert_eq!(fired.len(), 1);
    assert!(matches!(fired[0].1, Event::CTimer(3, 7)));
}

#[test]
fn removal_by_id_and_class() {
    let mut h = bus();
    let mut ev = EventComp::new(6);
    ev.set_timer_with_class(1, 10, 1);
    ev.set_timer_with_class(1, 10, 2);
    ev.remove_timer_with_class(1, 1);
    ev.update(10, &mut h);
    let fired = h.flush();
    assert_eq!(fired.len(), 1);
    assert!(matches!(fired[0].1, Event::CTimer(2, 1)));

    let mut ev2 = EventComp::new(6);
    ev2.set_timer(3, 10);
    ev2.remove_timer(3);
    ev2.update(10, &mut h);
    assert_eq!(h.flush().len(), 0);
}

#[test]
fn repeating_overshoot_shortens_next_period() {
    let mut h = bus();
    let mut ev = EventComp::new(2);
    ev.set_repeating_timer(1, 100);
    ev.update(130, &mut h);
    assert_eq!(h.flush().len(), 1);
    // 30 ms of the next period were already consumed.
    ev.update(70, &mut h);
    assert_eq!(h.flush().len(), 1);
}
