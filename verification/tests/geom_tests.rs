use cart_game::geom::{distance_squared, div_trunc_i64, isqrt, Vec3Fixed};
use cart_game::state::{in_game_state_for, title_state_for, AppState, InGameState, TitleMenuState};

fn v(x: i64, y: i64, z: i64) -> Vec3Fixed {
    Vec3Fixed { x, y, z }
}

#[test]
fn squared_distance_is_exact() {
    assert_eq!(distance_squared(&v(0, 0, 0), &v(3, 4, 0)), 25);
    assert_eq!(distance_squared(&v(-1000, 2000, -3000), &v(-1000, 2000, -3000)), 0);
    assert_eq!(distance_squared(&v(1_000_000, 0, 0), &v(-1_000_000, 0, 0)), 4_000_000_000_000);
}

#[test]
fn integer_square_root_is_the_floor_root() {
    assert_eq!(isqrt(0), 0);
    assert_eq!(isqrt(1), 1);
    assert_eq!(isqrt(2), 1);
    assert_eq!(isqrt(3), 1);
    assert_eq!(isqrt(4), 2);
    assert_eq!(isqrt(999_999), 999);
    assert_eq!(isqrt(1_000_000), 1000);
    assert_eq!(isqrt(98_100_000), 9904);
    assert_eq!(isqrt(i64::MAX), 3_037_000_499);
}

#[test]
fn machine_division_truncates_toward_zero() {
    assert_eq!(div_trunc_i64(7, 2), 3);
    assert_eq!(div_trunc_i64(-7, 2), -3);
    assert_eq!(div_trunc_i64(0, 5), 0);
    assert_eq!(div_trunc_i64(-1, 1000), 0);
}

#[test]
fn normalization_scales_to_a_thousand() {
    assert_eq!(v(2000, 0, 0).normalize_or_zero_milli(), v(1000, 0, 0));
    assert_eq!(v(0, -500, 0).normalize_or_zero_milli(), v(0, -1000, 0));
    assert_eq!(v(0, 0, 0).normalize_or_zero_milli(), v(0, 0, 0));
    // A diagonal: length isqrt(2_000_000) = 1414, each component
    // 1000 * 1000 / 1414 = 707.
    assert_eq!(v(1000, 1000, 0).normalize_or_zero_milli(), v(707, 707, 0));
}

#[test]
fn coord_picks_the_axis() {
    let p = v(1, 2, 3);
    assert_eq!(p.coord(0), 1);
    assert_eq!(p.coord(1), 2);
    assert_eq!(p.coord(2), 3);
}

#[test]
fn menu_states_follow_the_app_state() {
    assert_eq!(title_state_for(AppState::TitleMenu), TitleMenuState::Home);
    assert_eq!(title_state_for(AppState::InGame), TitleMenuState::Hidden);
    assert_eq!(in_game_state_for(AppState::TitleMenu), InGameState::Idle);
    assert_eq!(in_game_state_for(AppState::InGame), InGameState::Playing);
}

#[test]
fn default_states_open_the_title_menu() {
    assert_eq!(AppState::default(), AppState::TitleMenu);
    assert_eq!(TitleMenuState::default(), TitleMenuState::Home);
    assert_eq!(InGameState::default(), InGameState::Idle);
}
