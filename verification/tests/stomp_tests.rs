use cart_game::geom::Vec3Fixed;
use cart_game::stomp::{
    american_impulse, cart_catches, stomp_impulse, ScoreResource, StompResource, CART_HEIGHT,
};

fn v(x: i64, y: i64, z: i64) -> Vec3Fixed {
    Vec3Fixed { x, y, z }
}

#[test]
fn default_stomp_tuning_matches_the_shipped_values() {
    let s = StompResource::default();
    assert_eq!(s.stomp_distance, 5000);
    assert_eq!(s.stomp_away_force, -10);
    assert_eq!(s.stomp_up_force, 80);
    assert_eq!(s.stomp_particles, 80);
}

#[test]
fn score_starts_at_zero() {
    assert_eq!(ScoreResource::default().score, 0);
}

#[test]
fn stomp_at_the_player_gets_full_force() {
    // An item exactly at the player: falloff is one, the push direction is
    // straight away from the cart point behind the player, so the impulse
    // is the up force plus the away force along positive z.
    let s = StompResource::default();
    let impulse = stomp_impulse(v(0, 0, 0), v(0, 0, 0), &s);
    assert_eq!(impulse, v(0, 80, -10));
}

#[test]
fn stomp_at_the_rim_does_nothing() {
    // An item at the full stomp distance: falloff is zero.
    let s = StompResource::default();
    let impulse = stomp_impulse(v(5000, 0, 0), v(0, 0, 0), &s);
    assert_eq!(impulse, v(0, 0, 0));
}

#[test]
fn stomp_halfway_gets_square_root_falloff() {
    // d = 2500 of 5000: falloff = sqrt(1/2) = 0.707, up = 80 * 707 / 1000.
    let s = StompResource::default();
    let impulse = stomp_impulse(v(0, 0, 2500), v(0, 0, 0), &s);
    // direction from the cart point (0,0,-1300) to the item (0,0,2500) is
    // +z; away = -10 * 707 / 1000 = -7; z = 1000 * -7 / 1000.
    assert_eq!(impulse, v(0, 56, -7));
}

#[test]
fn american_is_pushed_straight_away() {
    let impulse = american_impulse(v(1000, 0, 0), v(0, 0, 0), -10);
    // direction (1000, 0, 0), scale -10 * 100 = -1000: pulled toward the
    // player by the negative away force.
    assert_eq!(impulse, v(-1000, 0, 0));
}

#[test]
fn american_at_player_position_feels_nothing() {
    let impulse = american_impulse(v(0, 0, 0), v(0, 0, 0), -10);
    assert_eq!(impulse, v(0, 0, 0));
}

#[test]
fn cart_catches_at_the_threshold() {
    // Collection needs the item at cart height less the slack of a tenth.
    assert!(cart_catches(400, 0));
    assert!(!cart_catches(399, 0));
    assert!(cart_catches(1400, 1000));
    assert_eq!(CART_HEIGHT, 500);
}
