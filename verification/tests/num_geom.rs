//! Scaled-integer arithmetic: square roots, angles and trigonometry.

use danmaku_core::geom::{distance, to_cartesian, Vec2};
use danmaku_core::num::{atan2_milli, cos_milli, isqrt, norm_angle, sin_milli};

#[test]
fn isqrt_exact_values() {
    assert_eq!(isqrt(0), 0);
    assert_eq!(isqrt(1), 1);
    assert_eq!(isqrt(2), 1);
    assert_eq!(isqrt(3), 1);
    assert_eq!(isqrt(4), 2);
    assert_eq!(isqrt(999_999), 999);
    assert_eq!(isqrt(1_000_000), 1000);
    assert_eq!(isqrt(8_999_999_999_999_999_999), 2_999_999_999);
}

#[test]
fn norm_angle_wraps_both_ways() {
    assert_eq!(norm_angle(0), 0);
    assert_eq!(norm_angle(359_999), 359_999);
    assert_eq!(norm_angle(360_000), 0);
    assert_eq!(norm_angle(720_123), 123);
    assert_eq!(norm_angle(-1), 359_999);
    assert_eq!(norm_angle(-360_000), 0);
    assert_eq!(norm_angle(-90_000), 270_000);
}

#[test]
fn sine_is_exact_at_the_special_angles() {
    assert_eq!(sin_milli(0), 0);
    assert_eq!(sin_milli(30_000), 500);
    assert_eq!(sin_milli(90_000), 1000);
    assert_eq!(sin_milli(150_000), 500);
    assert_eq!(sin_milli(180_000), 0);
    assert_eq!(sin_milli(270_000), -1000);
    assert_eq!(cos_milli(0), 1000);
    assert_eq!(cos_milli(90_000), 0);
    assert_eq!(cos_milli(180_000), -1000);
}

#[test]
fn sine_approximation_stays_close() {
    for deg in 0..360 {
        let a = (deg as i64) * 1000;
        let approx = sin_milli(a) as f64 / 1000.0;
        let exact = (deg as f64).to_radians().sin();
        assert!(
            (approx - exact).abs() < 0.0035,
            "sine off at {} degrees: {} vs {}",
            deg,
            approx,
            exact
        );
    }
}

#[test]
fn atan2_hits_the_axes_exactly() {
    assert_eq!(atan2_milli(0, 0), 0);
    assert_eq!(atan2_milli(0, 1000), 0);
    assert_eq!(atan2_milli(1000, 0), 90_000);
    assert_eq!(atan2_milli(0, -1000), 180_000);
    assert_eq!(atan2_milli(-1000, 0), 270_000);
    assert_eq!(atan2_milli(1000, 1000), 45_000);
}

#[test]
fn atan2_approximation_stays_close() {
    let cases = [(3_000i64, 4_000i64), (-2_500, 7_000), (-10, -10_000), (9_999, -1)];
    for (y, x) in cases {
        let approx = atan2_milli(y, x) as f64 / 1000.0;
        let mut exact = (y as f64).atan2(x as f64).to_degrees();
        if exact < 0.0 {
            exact += 360.0;
        }
        assert!(
            (approx - exact).abs() < 0.3,
            "direction off for ({}, {}): {} vs {}",
            y,
            x,
            approx,
            exact
        );
    }
}

#[test]
fn distance_is_the_rounded_euclidean_length() {
    let a = Vec2::new(0, 0);
    let b = Vec2::new(3_000, 4_000);
    assert_eq!(distance(a, b), 5_000);
    let c = Vec2::new(1_000, 1_000);
    assert_eq!(distance(a, c), 1_414);
}

#[test]
fn polar_conversion_matches_floating_point() {
    let p = to_cartesian(10_000, 60_000);
    let ex = 10.0 * 60.0f64.to_radians().cos();
    let ey = 10.0 * 60.0f64.to_radians().sin();
    assert!((p.x as f64 / 1000.0 - ex).abs() < 0.04);
    assert!((p.y as f64 / 1000.0 - ey).abs() < 0.04);
}
