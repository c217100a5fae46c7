//! The spatial world, the engine pipeline and the level sequencer.

use danmaku_core::action::{Behavior, Bullet as BulletInfo};
use danmaku_core::engine::Engine;
use danmaku_core::events::{Event, PhysicsData};
use danmaku_core::geom::Vec2;
use danmaku_core::level::{CreateRequest, Level, LevelEvent};
use danmaku_core::pattern::{Angle, PatternBuilder};
use danmaku_core::physics::{PhysicsInteraction, Shape, SpatialWorld};
use danmaku_core::entities::{KEY_RIGHT, KEY_SHOOT};
use danmaku_core::events::InputState;
use danmaku_core::spawn::{SpawnBuilder, SpawnType};
use danmaku_core::action::{Action, ActionType};
use danmaku_core::entities::{Enemy, Services};
use danmaku_core::events::{Handler, SysEvent};
use danmaku_core::motion::PGComp;
use danmaku_core::path::{Fixed, Path};
use danmaku_core::registry::Registry;
use danmaku_core::timers::EventComp;

#[test]
fn staged_mutations_apply_at_commit() {
    let mut w = SpatialWorld::new();
    w.add(
        1,
        Vec2::new(0, 0),
        Shape::Ball(1_000),
        PhysicsInteraction::SemiInteractive,
        PhysicsData::new(1, 0, 2),
    );
    // Staged writes are visible through the position query at once.
    assert_eq!(w.get_pos(1), Some(Vec2::new(0, 0)));
    w.set_pos(1, Vec2::new(5_000, 0));
    w.set_pos(1, Vec2::new(9_000, 0));
    assert_eq!(w.get_pos(1), Some(Vec2::new(9_000, 0)), "the last write wins");
    let (collisions, _) = w.update();
    assert_eq!(collisions.len(), 0);
    assert_eq!(w.get_pos(1), Some(Vec2::new(9_000, 0)));
    w.remove(1);
    assert_eq!(w.get_pos(1), Some(Vec2::new(9_000, 0)), "queryable until the pass");
    w.update();
    assert_eq!(w.get_pos(1), None);
}

#[test]
fn collision_pass_reports_watched_overlaps() {
    let mut w = SpatialWorld::new();
    // The player payload byte marks the watched object.
    w.add(
        1,
        Vec2::new(0, 0),
        Shape::Ball(2_500),
        PhysicsInteraction::Interactive,
        PhysicsData::new(101, 0, 1),
    );
    w.add(
        2,
        Vec2::new(3_000, 0),
        Shape::Ball(2_000),
        PhysicsInteraction::SemiInteractive,
        PhysicsData::new(102, 0, 2),
    );
    w.add(
        3,
        Vec2::new(50_000, 0),
        Shape::Ball(2_000),
        PhysicsInteraction::SemiInteractive,
        PhysicsData::new(103, 0, 2),
    );
    // A cosmetic volume does not interact with the interactive player.
    w.add(
        4,
        Vec2::new(0, 0),
        Shape::Ball(2_000),
        PhysicsInteraction::NonInteractive,
        PhysicsData::new(104, 0, 0),
    );
    let (collisions, _) = w.update();
    assert_eq!(collisions.len(), 1, "only the close bullet overlaps");
    assert_eq!(collisions[0].id1, 101);
    assert_eq!(collisions[0].id2, 102);
}

/// Every reported collision is delivered to both participants, each
/// naming the other, with the payload pair swapped.
#[test]
fn collision_delivery_is_symmetric() {
    let mut w = SpatialWorld::new();
    w.add(
        1,
        Vec2::new(0, 0),
        Shape::Ball(2_500),
        PhysicsInteraction::Interactive,
        PhysicsData::new(101, 7, 1),
    );
    w.add(
        2,
        Vec2::new(1_000, 0),
        Shape::Ball(2_000),
        PhysicsInteraction::SemiInteractive,
        PhysicsData::new(102, 8, 2),
    );
    let mut eng = Engine::new(200_000);
    let (collisions, _) = w.update();
    assert_eq!(collisions.len(), 1);
    eng.dispatch_collisions(&collisions);
    let q = eng.services.handler.flush();
    assert_eq!(q.len(), 2);
    match q[0].1 {
        Event::Collision(other, data) => {
            assert_eq!(q[0].0, 102);
            assert_eq!(other, 101);
            assert_eq!(data.this_object.entity_id, 102);
            assert_eq!(data.other_object.entity_id, 101);
            assert_eq!(data.this_object.tag, 8);
        },
        _ => panic!("expected a collision delivery"),
    }
    match q[1].1 {
        Event::Collision(other, data) => {
            assert_eq!(q[1].0, 101);
            assert_eq!(other, 102);
            assert_eq!(data.this_object.entity_id, 101);
            assert_eq!(data.other_object.entity_id, 102);
        },
        _ => panic!("expected the mirrored delivery"),
    }
}

#[test]
fn engine_ids_are_unique_and_reused_only_after_reclaim() {
    let mut eng = Engine::new(200_000);
    let a = eng.spawn(CreateRequest::Player);
    let b = eng.spawn(CreateRequest::ScreenArea);
    let c = eng.spawn(CreateRequest::PlayerBullet(Vec2::new(0, 0)));
    assert_eq!((a, b, c), (1, 2, 3));
    eng.destroy(b);
    // The released id is pending: a spawn before the step's reclaim must
    // not reuse it.
    let d = eng.spawn(CreateRequest::PlayerBullet(Vec2::new(0, 0)));
    assert_eq!(d, 4);
    // One full step runs the reclaim; the id comes back afterwards.
    eng.advance_simulation(16, 1);
    let e = eng.spawn(CreateRequest::PlayerBullet(Vec2::new(0, 0)));
    assert_eq!(e, b);
}

#[test]
fn bullets_move_each_step() {
    let mut eng = Engine::new(200_000);
    let info = BulletInfo::new(1, Behavior::Straight, 3);
    let id = eng.spawn(CreateRequest::Bullet(info, Vec2::new(0, 0), Vec2::new(0, -50_000)));
    eng.advance_simulation(1000, 1);
    let pos = eng.services.physics.get_pos(id).expect("the bullet is live");
    assert_eq!(pos, Vec2::new(0, -50_000), "50 units per second for one second");
}

#[test]
fn decelerating_bullets_slow_down() {
    let mut eng = Engine::new(200_000);
    let info = BulletInfo::new(1, Behavior::Deaccelerate(2_000, 25_000), 3);
    let id = eng.spawn(CreateRequest::Bullet(info, Vec2::new(0, 0), Vec2::new(0, -50_000)));
    eng.advance_simulation(1000, 1);
    let after_one = eng.services.physics.get_pos(id).unwrap();
    eng.advance_simulation(1000, 1);
    let after_two = eng.services.physics.get_pos(id).unwrap();
    let first_leg = -after_one.y;
    let second_leg = after_one.y - after_two.y;
    assert!(second_leg < first_leg, "deceleration shortens later legs");
}

fn one_enemy_spawn() -> danmaku_core::spawn::Spawn {
    let pattern = PatternBuilder::new()
        .fixed_angle(Angle::Fixed(0))
        .amount(1)
        .time_int(0)
        .speed(1_000);
    SpawnBuilder::new()
        .spawn_type(SpawnType::Enemy(danmaku_core::spawn::Enemy {
            sprite: 1,
            health: 10,
            damage: 1,
            event_id: 0,
        }))
        .pattern(pattern)
        .location(Vec2::new(10_000, 20_000))
        .build(Vec2::new(0, 0), Vec2::new(0, 0))
}

#[test]
fn zero_delay_level_chain_fires_inline() {
    let script = vec![
        (
            String::from("start"),
            vec![LevelEvent {
                name: String::from("wave1"),
                id: 1,
                delay: 0,
                spawns: vec![one_enemy_spawn()],
            }],
        ),
        (
            String::from("wave1"),
            vec![LevelEvent {
                name: String::from("wave2"),
                id: 2,
                delay: 0,
                spawns: vec![one_enemy_spawn()],
            }],
        ),
    ];
    let mut handler = danmaku_core::events::Handler::new();
    let mut level = Level::new(50, script);
    level.handle_event(&Event::Spawn, &mut handler);
    // Both waves fired within the one call: the whole chain resolved.
    assert_eq!(level.events.len(), 0);
    assert_eq!(level.active_spawns.len(), 2);
    // The next tick turns the spawns' shots into creation requests.
    level.handle_event(&Event::Update(16), &mut handler);
    let sys = handler.flush_sys();
    assert_eq!(sys.len(), 2);
    for s in &sys {
        assert!(matches!(
            s,
            danmaku_core::events::SysEvent::Create(CreateRequest::Enemy(_, _, _))
        ));
    }
}

#[test]
fn delayed_level_event_waits_for_its_timer() {
    let script = vec![(
        String::from("start"),
        vec![LevelEvent {
            name: String::from("late"),
            id: 9,
            delay: 500,
            spawns: vec![one_enemy_spawn()],
        }],
    )];
    let mut handler = danmaku_core::events::Handler::new();
    let mut level = Level::new(50, script);
    level.handle_event(&Event::Spawn, &mut handler);
    assert_eq!(level.active_spawns.len(), 0, "the delayed wave is not live yet");
    assert_eq!(level.waiting_events.len(), 1);
    // The delay passes; the timer fires a class-1 event at the level.
    level.handle_event(&Event::Update(500), &mut handler);
    let fired = handler.flush();
    assert_eq!(fired.len(), 1);
    assert!(matches!(fired[0].1, Event::CTimer(1, 9)));
    level.handle_event(&fired[0].1.clone(), &mut handler);
    assert_eq!(level.active_spawns.len(), 1);
}

#[test]
fn level_drives_entity_creation_through_the_engine() {
    let script = vec![(
        String::from("start"),
        vec![LevelEvent {
            name: String::from("w"),
            id: 1,
            delay: 0,
            spawns: vec![one_enemy_spawn()],
        }],
    )];
    let mut eng = Engine::new(200_000);
    let player = eng.spawn(CreateRequest::Player);
    let level = eng.spawn(CreateRequest::Level(script));
    assert_eq!(eng.entities.len(), 2);
    // One step: the level's pattern emits, the system queue creates the
    // enemy at the end of the step.
    eng.advance_simulation(16, 1);
    assert_eq!(eng.entities.len(), 3, "the enemy exists");
    let ids: Vec<u64> = eng.entities.iter().map(|(i, _)| *i).collect();
    assert!(ids.contains(&player) && ids.contains(&level));
    // Identity uniqueness holds across the live table.
    let mut sorted = ids.clone();
    sorted.sort();
    sorted.dedup();
    assert_eq!(sorted.len(), ids.len());
}

#[test]
fn fast_forward_runs_sub_steps() {
    let mut eng = Engine::new(200_000);
    let info = BulletInfo::new(1, Behavior::Straight, 3);
    let id = eng.spawn(CreateRequest::Bullet(info, Vec2::new(0, 0), Vec2::new(1_000, 0)));
    eng.services.handler.enqueue_sys(danmaku_core::events::SysEvent::FastForward(1_000));
    eng.advance_simulation(0, 2);
    let pos = eng.services.physics.get_pos(id).unwrap();
    // About one second of sub-steps at one unit per second.
    assert!((900..=1_100).contains(&pos.x), "skipped to {}", pos.x);
}

#[test]
fn player_bullets_despawn_off_screen() {
    let mut eng = Engine::new(200_000);
    let id = eng.spawn(CreateRequest::PlayerBullet(Vec2::new(0, 0)));
    assert_eq!(eng.entities.len(), 1);
    // Player bullets fly up at 100 units per second; the screen is 200
    // units. After five simulated seconds of housekeeping ticks the
    // bullet has left the screen and despawned itself.
    for _ in 0..320 {
        eng.advance_simulation(16, 1);
    }
    assert_eq!(eng.entities.len(), 0);
    assert_eq!(eng.services.physics.get_pos(id), None);
}

#[test]
fn key_events_steer_the_player() {
    let mut eng = Engine::new(200_000);
    eng.spawn(CreateRequest::Player);
    eng.services.handler.enqueue_all(Event::KeyInput(InputState::Pressed, KEY_RIGHT));
    for _ in 0..10 {
        eng.advance_simulation(100, 1);
    }
    // One second at 100 units per second, from the origin.
    assert_eq!(eng.services.player_pos, Vec2::new(100_000, 0));
    eng.services.handler.enqueue_all(Event::KeyInput(InputState::Released, KEY_RIGHT));
    eng.advance_simulation(100, 1);
    eng.advance_simulation(100, 1);
    assert_eq!(eng.services.player_pos, Vec2::new(100_000, 0), "released keys stop the drift");
}

#[test]
fn shooting_creates_player_bullets() {
    let mut eng = Engine::new(200_000);
    eng.spawn(CreateRequest::Player);
    eng.services.handler.enqueue_all(Event::KeyInput(InputState::Pressed, KEY_SHOOT));
    eng.advance_simulation(16, 1);
    assert_eq!(eng.entities.len(), 2, "the press itself fires one bullet");
    // The repeating shot timer fires roughly every 80 ms.
    for _ in 0..11 {
        eng.advance_simulation(16, 1);
    }
    assert_eq!(eng.entities.len(), 4);
}

#[test]
fn proximity_pass_reports_boundary_transitions() {
    let mut w = SpatialWorld::new();
    // An interactive volume with the neutral payload byte is the boundary.
    w.add(
        1,
        Vec2::new(0, 0),
        Shape::Box(100_000, 100_000),
        PhysicsInteraction::Interactive,
        PhysicsData::new(11, 0, 0),
    );
    w.add(
        2,
        Vec2::new(0, 0),
        Shape::Ball(1_000),
        PhysicsInteraction::SemiInteractive,
        PhysicsData::new(22, 0, 2),
    );
    let (_, prox) = w.update();
    assert_eq!(prox.len(), 0, "objects added this commit have no previous state");
    w.set_pos(2, Vec2::new(150_000, 0));
    let (_, prox) = w.update();
    assert_eq!(prox.len(), 1, "the ball left the boundary volume");
    assert_eq!(prox[0].id1, 11);
    assert_eq!(prox[0].id2, 22);
    assert!(!prox[0].entered);
    let (_, prox) = w.update();
    assert_eq!(prox.len(), 0, "no change, no report");
    w.set_pos(2, Vec2::new(0, 0));
    let (_, prox) = w.update();
    assert_eq!(prox.len(), 1, "the ball came back in");
    assert!(prox[0].entered);
}

#[test]
fn bullets_leaving_the_screen_despawn_on_the_proximity_notice() {
    let mut eng = Engine::new(200_000);
    eng.spawn(CreateRequest::ScreenArea);
    let bullet = eng.spawn(CreateRequest::PlayerBullet(Vec2::new(0, 196_000)));
    eng.advance_simulation(16, 1);
    eng.advance_simulation(16, 1);
    assert!(eng.entities.iter().any(|(i, _)| *i == bullet), "still near the screen's edge");
    // Ten more short ticks carry the bullet across the boundary; the
    // housekeeping timer needs a full second, so only the exit
    // transition can despawn it this early.
    for _ in 0..10 {
        eng.advance_simulation(16, 1);
    }
    assert!(
        !eng.entities.iter().any(|(i, _)| *i == bullet),
        "the exit transition despawned the bullet"
    );
}

#[test]
fn tracking_patterns_re_aim_at_the_live_positions() {
    let origin = Vec2::new(0, 0);
    let player0 = Vec2::new(0, 50_000);
    let mut pat = PatternBuilder::new()
        .fixed_angle(Angle::Player(0))
        .amount(1)
        .time_int(0)
        .repeat(1)
        .repeat_delay(20)
        .speed(1_000)
        .build(origin, player0);
    pat.set_pos_fetcher(origin, player0);
    let info = BulletInfo::new(1, Behavior::Straight, 1);
    let mut enemy = Enemy {
        id: 7,
        health: 5,
        damage: 1,
        paths: Vec::new(),
        cpath: Path::Fixed(Fixed { time: 1_000_000, pos: origin, actions: Vec::new() }),
        actions: Vec::new(),
        patterns: vec![(info, pat)],
        pg: PGComp::new(7, origin, 200_000),
        ev: EventComp::new(7),
    };
    let mut sv = Services {
        handler: Handler::new(),
        physics: SpatialWorld::new(),
        registry: Registry::new(),
        // The player has moved since the pattern was aimed.
        player_pos: Vec2::new(-50_000, 0),
        scaler: 200_000,
    };
    enemy.handle_event(&Event::Update(10), &mut sv);
    enemy.handle_event(&Event::Update(20), &mut sv);
    let sys = sv.handler.flush_sys();
    assert_eq!(sys.len(), 2);
    let vel_of = |s: &SysEvent<CreateRequest>| match s {
        SysEvent::Create(CreateRequest::Bullet(_, _, v)) => *v,
        _ => panic!("expected a bullet creation"),
    };
    assert_eq!(vel_of(&sys[0]), Vec2::new(0, 1_000), "the first burst keeps its build-time aim");
    assert_eq!(
        vel_of(&sys[1]),
        Vec2::new(-1_000, 0),
        "the repeat burst aims at where the player is now"
    );
}

#[test]
fn minimal_action_delay_parks_behind_a_timer() {
    let origin = Vec2::new(0, 0);
    let info = BulletInfo::new(1, Behavior::Straight, 1);
    let pb = PatternBuilder::new().amount(1).time_int(0).speed(1_000);
    let mut enemy = Enemy {
        id: 7,
        health: 5,
        damage: 1,
        paths: Vec::new(),
        cpath: Path::Fixed(Fixed { time: 1_000_000, pos: origin, actions: Vec::new() }),
        actions: Vec::new(),
        patterns: Vec::new(),
        pg: PGComp::new(7, origin, 200_000),
        ev: EventComp::new(7),
    };
    let mut sv = Services {
        handler: Handler::new(),
        physics: SpatialWorld::new(),
        registry: Registry::new(),
        player_pos: Vec2::new(0, 50_000),
        scaler: 200_000,
    };
    let acts = vec![Action { delay: 1, action_type: ActionType::Bullets(info, pb) }];
    enemy.schedule_actions(acts, &sv);
    assert_eq!(enemy.patterns.len(), 0, "any positive delay parks the action");
    assert_eq!(enemy.actions.len(), 1);
    assert_eq!(enemy.ev.timers.len(), 1);
    assert_eq!(enemy.ev.timers[0].amount, 1);
    assert_eq!(enemy.ev.timers[0].class, 1);
    enemy.handle_event(&Event::CTimer(1, 0), &mut sv);
    assert_eq!(enemy.patterns.len(), 1, "the timer fired the parked action");
}
