//! Emission patterns: shot counts, angular sweeps, repeats, wobble,
//! target tracking and mirroring.

use danmaku_core::geom::Vec2;
use danmaku_core::path::RotationDirection;
use danmaku_core::pattern::{Angle, PatternBuilder};

fn origin() -> Vec2 {
    Vec2::new(0, 0)
}

/// A pattern with start 0, stop 90 degrees, four shots, no interval, no
/// repeats, speed 10, radius 0: one advance emits four velocity vectors
/// at 0, 30, 60 and 90 degrees, each of magnitude 10; a further call
/// emits nothing and the pattern reports finished.
#[test]
fn fan_of_four_sweeps_to_ninety_degrees() {
    let mut p = PatternBuilder::new()
        .start_angle(Angle::Fixed(0))
        .stop_angle(Angle::Fixed(90_000))
        .amount(4)
        .time_int(0)
        .repeat(0)
        .speed(10_000)
        .radius(0)
        .build(origin(), origin());
    let shots = p.next(0);
    assert_eq!(shots.len(), 4);
    let angles: Vec<i64> = shots.iter().map(|s| s.angle).collect();
    assert_eq!(angles, vec![0, 30_000, 60_000, 90_000]);
    for s in &shots {
        assert_eq!(s.offset, Vec2::new(0, 0), "radius zero leaves no offset");
        let mag = ((s.velocity.x as f64).powi(2) + (s.velocity.y as f64).powi(2)).sqrt() / 1000.0;
        assert!((mag - 10.0).abs() < 0.05, "speed off: {}", mag);
    }
    let later = p.next(0);
    assert_eq!(later.len(), 0);
    assert!(p.finished());
}

/// A pattern built with a shot count and no repeats emits exactly that
/// many shots across all advances.
#[test]
fn total_shots_match_the_amount() {
    let mut p = PatternBuilder::new()
        .fixed_angle(Angle::Fixed(45_000))
        .amount(7)
        .time_int(10)
        .repeat(0)
        .speed(5_000)
        .build(origin(), origin());
    let mut total = 0;
    for _ in 0..100 {
        total += p.next(5).len();
    }
    assert_eq!(total, 7);
    assert!(p.finished());
}

#[test]
fn shots_respect_the_per_shot_interval() {
    let mut p = PatternBuilder::new()
        .fixed_angle(Angle::Fixed(0))
        .amount(3)
        .time_int(100)
        .repeat(0)
        .speed(1_000)
        .build(origin(), origin());
    assert_eq!(p.next(50).len(), 0);
    assert_eq!(p.next(50).len(), 1);
    assert_eq!(p.next(200).len(), 2, "a long advance catches up");
    assert!(p.finished());
}

#[test]
fn repeats_fire_further_bursts() {
    let mut p = PatternBuilder::new()
        .fixed_angle(Angle::Fixed(0))
        .amount(2)
        .time_int(0)
        .repeat(1)
        .repeat_delay(100)
        .speed(1_000)
        .build(origin(), origin());
    assert_eq!(p.next(10).len(), 2, "the first burst fires at once");
    assert!(!p.finished(), "a repeat is still owed");
    assert_eq!(p.next(50).len(), 0);
    assert_eq!(p.next(50).len(), 2, "the repeat burst fires after its delay");
    assert!(p.finished());
}

/// Mirroring across the y axis twice gives back an angularly equivalent
/// pattern (modulo a full turn).
#[test]
fn mirror_x_twice_is_angularly_identity() {
    let b = PatternBuilder::new()
        .start_angle(Angle::Fixed(30_000))
        .stop_angle(Angle::Fixed(120_000))
        .amount(3);
    let twice = b.mirror_x().mirror_x();
    match (twice.start_angle, twice.stop_angle) {
        (Some(Angle::Fixed(s)), Some(Angle::Fixed(t))) => {
            assert_eq!(s.rem_euclid(360_000), 30_000);
            assert_eq!(t.rem_euclid(360_000), 120_000);
        },
        _ => panic!("mirrored angles lost"),
    }
    // A target-relative offset mirrors by pure negation.
    let rel = PatternBuilder::new().fixed_angle(Angle::Player(15_000));
    let m = rel.mirror_x();
    assert!(matches!(m.start_angle, Some(Angle::Player(-15_000))));
    let back = m.mirror_x();
    assert!(matches!(back.start_angle, Some(Angle::Player(15_000))));
}

#[test]
fn mirror_x_reflects_a_fixed_angle() {
    let b = PatternBuilder::new().fixed_angle(Angle::Fixed(30_000)).mirror_x();
    assert!(matches!(b.start_angle, Some(Angle::Fixed(150_000))));
    let y = PatternBuilder::new().fixed_angle(Angle::Fixed(30_000)).mirror_y();
    assert!(matches!(y.start_angle, Some(Angle::Fixed(210_000))));
}

#[test]
fn target_relative_angles_aim_at_the_target() {
    let mut p = PatternBuilder::new()
        .fixed_angle(Angle::Player(0))
        .amount(1)
        .time_int(0)
        .speed(1_000)
        .build(origin(), Vec2::new(0, 50_000));
    let shots = p.next(0);
    assert_eq!(shots.len(), 1);
    assert_eq!(shots[0].angle, 90_000, "the target sits straight up");
}

#[test]
fn tracking_rebuilds_the_aim_each_burst() {
    let mut p = PatternBuilder::new()
        .fixed_angle(Angle::Player(0))
        .amount(1)
        .time_int(0)
        .repeat(1)
        .repeat_delay(0)
        .speed(1_000)
        .build(origin(), Vec2::new(0, 50_000));
    // The target moves; the tracked positions are refreshed.
    p.set_pos_fetcher(origin(), Vec2::new(-50_000, 0));
    let shots = p.next(10);
    assert_eq!(shots.len(), 2);
    assert_eq!(shots[0].angle, 90_000, "the build-time burst keeps its aim");
    assert_eq!(shots[1].angle, 180_000, "the repeat burst re-aims at the target");
    assert!(p.finished());
}

#[test]
fn wobble_offsets_burst_aim() {
    let mut p = PatternBuilder::new()
        .fixed_angle(Angle::Fixed(0))
        .amount(1)
        .time_int(0)
        .repeat(1)
        .repeat_delay(0)
        .speed(1_000)
        .wobble(10_000, 1000, RotationDirection::CounterClockwise)
        .build(origin(), origin());
    // A quarter of the wobble period has elapsed when the repeat burst
    // starts, so its wobble offset is the full amplitude.
    let shots = p.next(250);
    assert_eq!(shots.len(), 2);
    assert_eq!(shots[0].angle, 0, "the initial burst carries no wobble");
    assert_eq!(shots[1].angle, 10_000, "the repeat burst wobbles by the amplitude");
}

#[test]
fn clockwise_wobble_flips_the_offset() {
    let mut p = PatternBuilder::new()
        .fixed_angle(Angle::Fixed(0))
        .amount(1)
        .time_int(0)
        .repeat(1)
        .repeat_delay(0)
        .speed(1_000)
        .wobble(10_000, 1000, RotationDirection::Clockwise)
        .build(origin(), origin());
    let shots = p.next(250);
    assert_eq!(shots.len(), 2);
    assert_eq!(shots[1].angle, -10_000);
}

#[test]
fn single_shot_pattern_ignores_the_sweep_step() {
    let mut p = PatternBuilder::new()
        .start_angle(Angle::Fixed(10_000))
        .stop_angle(Angle::Fixed(350_000))
        .amount(1)
        .time_int(0)
        .speed(2_000)
        .build(origin(), origin());
    let shots = p.next(0);
    assert_eq!(shots.len(), 1);
    assert_eq!(shots[0].angle, 10_000);
    assert!(p.finished());
}
