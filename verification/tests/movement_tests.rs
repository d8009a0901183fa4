use cart_game::geom::Vec3Fixed;
use cart_game::movement::{
    below_max_speed, movement_direction, movement_impulse, MovementSettings,
};

fn v(x: i64, y: i64, z: i64) -> Vec3Fixed {
    Vec3Fixed { x, y, z }
}

#[test]
fn default_handling_matches_the_shipped_values() {
    let ms = MovementSettings::default();
    assert_eq!(ms.speed, 2000);
    assert_eq!(ms.max_speed, 25_000);
    assert_eq!(ms.turn_speed_exp, 2000);
    assert_eq!(ms.low_speed_turn_factor, 300);
    assert_eq!(ms.high_speed_turn_factor, 1200);
    assert_eq!(ms.stubborn_cart_strength, -500);
}

#[test]
fn keys_steer_on_the_ground_plane() {
    assert_eq!(movement_direction(true, false, false, false), v(0, 0, -1000));
    assert_eq!(movement_direction(false, true, false, false), v(0, 0, 1000));
    assert_eq!(movement_direction(false, false, true, false), v(-1000, 0, 0));
    assert_eq!(movement_direction(false, false, false, true), v(1000, 0, 0));
    assert_eq!(movement_direction(true, false, false, true), v(1000, 0, -1000));
}

#[test]
fn opposite_keys_cancel() {
    assert_eq!(movement_direction(true, true, true, true), v(0, 0, 0));
    assert_eq!(movement_direction(false, false, false, false), v(0, 0, 0));
}

#[test]
fn impulse_stops_at_top_speed() {
    assert!(below_max_speed(v(0, 0, 0), 25_000));
    assert!(below_max_speed(v(24_999, 0, 0), 25_000));
    assert!(!below_max_speed(v(25_000, 0, 0), 25_000));
    assert!(!below_max_speed(v(20_000, 0, 20_000), 25_000));
}

#[test]
fn sprinting_doubles_the_push() {
    let forward = v(0, 0, -1000);
    assert_eq!(movement_impulse(forward, 2000, false), v(0, 0, -2000));
    assert_eq!(movement_impulse(forward, 2000, true), v(0, 0, -4000));
    let diagonal = v(707, 0, -707);
    assert_eq!(movement_impulse(diagonal, 2000, false), v(1414, 0, -1414));
}
