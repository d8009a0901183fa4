use cart_game::ballistic::{predict_landing, GRAVITY, LANDING_EPSILON};
use cart_game::geom::Vec3Fixed;

fn v(x: i64, y: i64, z: i64) -> Vec3Fixed {
    Vec3Fixed { x, y, z }
}

#[test]
fn drop_from_five_units_lands_under_the_drop_point() {
    // No vertical velocity, five units up, standard gravity: a finite
    // impact time exists and the landing point sits at the epsilon height.
    let landing = predict_landing(v(0, 5000, 0), v(0, 0, 0), GRAVITY);
    assert_eq!(landing, Some(v(0, LANDING_EPSILON, 0)));
}

#[test]
fn thrown_item_lands_down_range() {
    // From (0, 5, 0) with velocity (1, 0, 2) under gravity -9.81 the impact
    // time solves 0 = 5 - 4.905 t^2, about 1.010 s, so the landing point is
    // about (1.01, 0.01, 2.02); in fixed point the exact impact time is
    // 1009 ms and the landing point (1009, 10, 2018).
    let landing = predict_landing(v(0, 5000, 0), v(1000, 0, 2000), GRAVITY);
    assert_eq!(landing, Some(v(1009, 10, 2018)));
}

#[test]
fn resting_on_the_ground_gives_no_prediction() {
    assert_eq!(predict_landing(v(300, 0, -200), v(500, 0, 500), GRAVITY), None);
}

#[test]
fn resting_below_the_ground_gives_no_prediction() {
    assert_eq!(predict_landing(v(0, -5000, 0), v(0, 0, 0), GRAVITY), None);
}

#[test]
fn rising_from_below_ground_without_reach_gives_no_prediction() {
    // Discriminant negative: the parabola from below the plane never
    // reaches it.
    assert_eq!(predict_landing(v(0, -5000, 0), v(0, 2000, 0), GRAVITY), None);
}

#[test]
fn rising_item_above_ground_still_has_an_impact_time() {
    // An item thrown upward from the ground plane comes back down at
    // t = 2 vy / |g|; the prediction follows the solved impact time.
    let landing = predict_landing(v(0, 0, 0), v(1000, 1000, 0), GRAVITY);
    // t = 2 * 1000 / 9810 s = 203 ms; x = 1000 * 203 / 1000 = 203.
    assert_eq!(landing, Some(v(203, LANDING_EPSILON, 0)));
}

#[test]
fn falling_item_moving_sideways_lands_down_wind() {
    // From one unit up, already falling at one unit per second:
    // t = (-1000 + isqrt(1000^2 + 2*9810*1000)) / 9810 s.
    // disc = 1_000_000 + 19_620_000 = 20_620_000, isqrt = 4540,
    // t = 1000 * (-1000 + 4540) / 9810 = 360 ms, x = -2000*360/1000 = -720.
    let landing = predict_landing(v(0, 1000, 0), v(-2000, -1000, 0), GRAVITY);
    assert_eq!(landing, Some(v(-720, LANDING_EPSILON, 0)));
}
