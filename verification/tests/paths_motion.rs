//! Path generators: arcs stay on their circle and finish after their
//! sweep, curves walk their polyline with overshoot carry, holds count
//! down, and mirroring reflects geometry.

use danmaku_core::geom::Vec2;
use danmaku_core::motion::PGComp;
use danmaku_core::path::{Path, PathBuilder, PathType, RotationDirection};
use danmaku_core::point::Point;

fn arc_builder() -> PathBuilder {
    PathBuilder::new(PathType::Arc)
        .center(Point::Fixed(Vec2::new(0, 0)))
        .radius(100_000)
        .degrees(90_000)
        .speed(50_000)
        .direction(RotationDirection::CounterClockwise)
}

/// Advancing an arc with exactly enough linear distance to sweep its
/// degrees reports finished, and the final position stays at the radius
/// from the center (within the scaled-integer tolerance).
#[test]
fn arc_completes_its_sweep_on_the_circle() {
    let mut path = arc_builder().build(Vec2::new(100_000, 0), Vec2::new(0, 0));
    assert!(!path.finished());
    // Arc length for 90 degrees of a 100-unit circle is ~157.08 units;
    // at 50 units/s and 100 ms ticks each advance covers 5 units.
    let mut last = Vec2::new(100_000, 0);
    let mut steps = 0;
    while !path.finished() {
        match path.travel(100) {
            Some(p) => last = p,
            None => break,
        }
        steps += 1;
        assert!(steps < 100, "the sweep must complete");
    }
    assert!(path.finished());
    // 157.08 units at 5 units per advance needs about 32 advances.
    assert!((30..=34).contains(&steps), "took {} advances", steps);
    let dist = ((last.x as f64).powi(2) + (last.y as f64).powi(2)).sqrt() / 1000.0;
    assert!((dist - 100.0).abs() < 0.5, "left the circle: {}", dist);
    // Once finished, advancing yields nothing and changes nothing.
    assert!(path.travel(100).is_none());
    assert!(path.finished());
}

#[test]
fn arc_direction_controls_the_sweep_sense() {
    let mut ccw = arc_builder().build(Vec2::new(100_000, 0), Vec2::new(0, 0));
    let up = ccw.travel(100).unwrap();
    assert!(up.y > 0, "counterclockwise from the x axis goes up");
    let mut cw = arc_builder()
        .direction(RotationDirection::Clockwise)
        .build(Vec2::new(100_000, 0), Vec2::new(0, 0));
    let down = cw.travel(100).unwrap();
    assert!(down.y < 0, "clockwise from the x axis goes down");
}

fn straight_points() -> Vec<Point> {
    vec![Point::Fixed(Vec2::new(0, 0)), Point::Fixed(Vec2::new(100_000, 0))]
}

fn bent_points() -> Vec<Point> {
    vec![
        Point::Fixed(Vec2::new(0, 0)),
        Point::Fixed(Vec2::new(100_000, 0)),
        Point::Fixed(Vec2::new(100_000, 100_000)),
    ]
}

/// Advancing a curve at speed zero returns the same position over and
/// over and never reports finished.
#[test]
fn curve_zero_speed_holds_still() {
    let mut path = PathBuilder::new(PathType::Curve).points(bent_points()).speed(0).build(
        Vec2::new(0, 0),
        Vec2::new(0, 0),
    );
    let first = path.travel(16).unwrap();
    for _ in 0..50 {
        assert_eq!(path.travel(16), Some(first));
        assert!(!path.finished());
    }
}

#[test]
fn straight_curve_walks_its_polyline_exactly() {
    // Two control points densify into a straight polyline whose nodes
    // lie at exact thousandths, so the walk is exact.
    let mut path = PathBuilder::new(PathType::Curve).points(straight_points()).speed(50_000).build(
        Vec2::new(0, 0),
        Vec2::new(0, 0),
    );
    // 50 units per second, one-second ticks: 50 units per advance,
    // crossing 50 of the 100 sampled segments.
    assert_eq!(path.travel(1000), Some(Vec2::new(50_000, 0)));
    assert!(!path.finished());
    // A long advance overshoots the end and stops on the last node.
    assert_eq!(path.travel(10_000), Some(Vec2::new(100_000, 0)));
    assert!(path.finished());
    assert_eq!(path.travel(1000), None);
}

#[test]
fn bent_curve_is_densified_through_its_control_points() {
    let path = PathBuilder::new(PathType::Curve).points(bent_points()).speed(50_000).build(
        Vec2::new(0, 0),
        Vec2::new(0, 0),
    );
    match &path {
        Path::Curve(c) => {
            assert_eq!(c.points.len(), 101, "one hundred sampled segments");
            assert_eq!(c.points[0], Vec2::new(0, 0));
            assert_eq!(c.points[100], Vec2::new(100_000, 100_000));
            // The middle sample bends toward the corner control point
            // instead of following the control polygon.
            assert_eq!(c.points[50], Vec2::new(75_000, 25_000));
        },
        _ => panic!("expected a curve"),
    }
}

#[test]
fn bent_curve_reaches_its_endpoint() {
    let mut path = PathBuilder::new(PathType::Curve).points(bent_points()).speed(100_000).build(
        Vec2::new(0, 0),
        Vec2::new(0, 0),
    );
    let mut last = Vec2::new(0, 0);
    let mut steps = 0;
    while !path.finished() {
        match path.travel(250) {
            Some(p) => last = p,
            None => break,
        }
        steps += 1;
        assert!(steps < 100, "the walk must complete");
    }
    assert!(path.finished());
    assert_eq!(last, Vec2::new(100_000, 100_000), "the last node is the endpoint");
}

#[test]
fn fixed_path_holds_then_ends() {
    let mut path = PathBuilder::new(PathType::Fixed).time(50).speed(0).build(
        Vec2::new(7_000, 8_000),
        Vec2::new(0, 0),
    );
    assert_eq!(path.travel(30), Some(Vec2::new(7_000, 8_000)));
    assert_eq!(path.travel(30), Some(Vec2::new(7_000, 8_000)));
    // The countdown has gone negative: the hold is over.
    assert_eq!(path.travel(30), None);
    assert!(path.finished());
}

#[test]
fn mirrored_arc_reflects_center_and_sense() {
    let b = PathBuilder::new(PathType::Arc)
        .center(Point::Fixed(Vec2::new(30_000, 40_000)))
        .radius(10_000)
        .degrees(90_000)
        .speed(10_000)
        .direction(RotationDirection::Clockwise);
    let m = b.mirror_x();
    match m.center {
        Some(Point::Fixed(c)) => assert_eq!((c.x, c.y), (-30_000, 40_000)),
        _ => panic!("mirrored center lost"),
    }
    assert!(matches!(m.direction, Some(RotationDirection::CounterClockwise)));
    let my = b.mirror_y();
    match my.center {
        Some(Point::Fixed(c)) => assert_eq!((c.x, c.y), (30_000, -40_000)),
        _ => panic!("mirrored center lost"),
    }
}

#[test]
fn detached_actions_come_out_once() {
    let mut path = PathBuilder::new(PathType::Fixed).time(10).speed(0).actions(vec![
        danmaku_core::action::Action {
            delay: 100,
            action_type: danmaku_core::action::ActionType::Idle,
        },
    ]).build(Vec2::new(0, 0), Vec2::new(0, 0));
    let acts = path.actions();
    assert_eq!(acts.len(), 1);
    assert_eq!(path.actions().len(), 0, "actions are moved out only once");
}

#[test]
fn kinematics_integrate_and_lock_to_screen() {
    let mut pg = PGComp::new(1, Vec2::new(0, 0), 200_000);
    pg.velocity = Vec2::new(100_000, 0);
    pg.update(1000);
    assert_eq!(pg.pos, Vec2::new(100_000, 0));
    pg.screen_lock((25_000, 50_000));
    pg.update(1000);
    // 200 units would pass the screen edge at 200 - 25 units.
    assert_eq!(pg.pos, Vec2::new(175_000, 0));
    pg.velocity = Vec2::new(0, -100_000);
    pg.acceleration = Vec2::new(0, 50_000);
    pg.update(1000);
    assert_eq!(pg.velocity, Vec2::new(0, -50_000));
    assert_eq!(pg.pos, Vec2::new(175_000, -50_000));
}

#[test]
fn arc_positions_stay_near_the_center() {
    let mut path = arc_builder().degrees(360_000).build(Vec2::new(0, 0), Vec2::new(0, 0));
    for _ in 0..64 {
        if let Some(p) = path.travel(100) {
            assert!(p.x.abs() <= 100_000, "x stays within the radius box");
            assert!(p.y.abs() <= 100_000, "y stays within the radius box");
        }
    }
}
