//! Subscription-table behavior: matching is by event kind, payloads are
//! ignored, and deliveries land in subscription order.

use danmaku_core::events::{CollisionData, Event, EventType, Handler, PhysicsData, SysEvent};
use danmaku_core::level::CreateRequest;

fn bus() -> Handler<CreateRequest> {
    Handler::new()
}

#[test]
fn test_eventmap() {
    let mut h = bus();
    h.subscribe(7, Event::Update(0));
    // A different payload of the same kind still reaches the subscriber.
    h.enqueue_all(Event::Update(1));
    let q = h.flush();
    assert_eq!(q.len(), 1);
    assert_eq!(q[0].0, 7);
    assert!(matches!(q[0].1, Event::Update(1)));
}

#[test]
fn mod_test_eventmap() {
    let mut h = bus();
    let data = CollisionData {
        this_object: PhysicsData::new(1, 0, 0),
        other_object: PhysicsData::new(2, 0, 0),
    };
    h.subscribe(10, Event::Update(0));
    h.subscribe(11, Event::Collision(0, data));
    h.enqueue_all(Event::Update(1));
    h.enqueue_all(Event::Collision(1, data));
    let q = h.flush();
    assert_eq!(q.len(), 2);
    assert_eq!(q[0].0, 10);
    assert_eq!(q[1].0, 11);
    assert!(matches!(q[1].1, Event::Collision(1, _)));
}

#[test]
fn subscribe_is_idempotent_and_kind_based() {
    let mut h = bus();
    h.subscribe(3, Event::Update(5));
    h.subscribe(3, Event::Update(9));
    h.enqueue_all(Event::Update(100));
    let q = h.flush();
    assert_eq!(q.len(), 1, "one subscription per kind, whatever the payload");
}

#[test]
fn unsubscribe_removes_one_kind_only() {
    let mut h = bus();
    h.subscribe(4, Event::Update(0));
    h.subscribe(4, Event::Render);
    h.unsubscribe(4, Event::Update(0));
    h.enqueue_all(Event::Update(7));
    h.enqueue_all(Event::Render);
    let q = h.flush();
    assert_eq!(q.len(), 1);
    assert!(matches!(q[0].1, Event::Render));
}

#[test]
fn unsubscribe_all_silences_an_identity() {
    let mut h = bus();
    h.subscribe(5, Event::Update(0));
    h.subscribe(5, Event::Render);
    h.subscribe(6, Event::Render);
    h.unsubscribe_all(5);
    h.enqueue_all(Event::Render);
    h.enqueue_all(Event::Update(1));
    let q = h.flush();
    assert_eq!(q.len(), 1);
    assert_eq!(q[0].0, 6);
}

#[test]
fn deliveries_keep_subscription_order() {
    let mut h = bus();
    h.subscribe(1, Event::Spawn);
    h.subscribe(2, Event::Spawn);
    h.subscribe(3, Event::Spawn);
    h.enqueue_all(Event::Spawn);
    let q = h.flush();
    let ids: Vec<u64> = q.iter().map(|(i, _)| *i).collect();
    assert_eq!(ids, vec![1, 2, 3]);
}

#[test]
fn specific_delivery_bypasses_subscriptions() {
    let mut h = bus();
    h.enqueue_specific(42, Event::Timer(9));
    let q = h.flush();
    assert_eq!(q.len(), 1);
    assert_eq!(q[0].0, 42);
    assert!(matches!(q[0].1, Event::Timer(9)));
    // The queue is empty after a flush.
    assert_eq!(h.flush().len(), 0);
}

#[test]
fn system_queue_is_separate() {
    let mut h = bus();
    h.enqueue_sys(SysEvent::Destroy(12));
    h.enqueue_specific(1, Event::Spawn);
    let sys = h.flush_sys();
    assert_eq!(sys.len(), 1);
    assert!(matches!(sys[0], SysEvent::Destroy(12)));
    assert_eq!(h.flush().len(), 1);
    assert_eq!(h.flush_sys().len(), 0);
}

#[test]
fn event_kind_forgets_payload() {
    assert_eq!(Event::Update(55).event_type(), EventType::Update);
    assert_eq!(Event::Timer(1).event_type(), EventType::Timer);
    assert_eq!(Event::CTimer(2, 3).event_type(), EventType::CTimer);
    assert_eq!(Event::RenderMenu.event_type(), EventType::RenderMenu);
}
