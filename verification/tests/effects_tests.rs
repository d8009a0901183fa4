use cart_game::effects::{
    hook_decision, hooked_item_step, vacuum_impulse, HookOutcome, HookResource, VacuumResource,
};
use cart_game::geom::Vec3Fixed;

fn v(x: i64, y: i64, z: i64) -> Vec3Fixed {
    Vec3Fixed { x, y, z }
}

#[test]
fn default_effect_tunings_match_the_shipped_values() {
    let hook = HookResource::default();
    assert_eq!(hook.hook_range, 5000);
    assert_eq!(hook.hooked_item_speed, 3000);
    let vacuum = VacuumResource::default();
    assert_eq!(vacuum.suck_distance, 10_000);
    assert_eq!(vacuum.suck_to_force, 5);
}

#[test]
fn hook_reaches_strictly_within_range() {
    let player = v(0, 0, 0);
    assert_eq!(hook_decision(v(4900, 0, 0), player, 5000), HookOutcome::Hooked);
    assert_eq!(hook_decision(v(5100, 0, 0), player, 5000), HookOutcome::Shake);
    // The range boundary itself only shakes: the comparison is strict.
    assert_eq!(hook_decision(v(5000, 0, 0), player, 5000), HookOutcome::Shake);
}

#[test]
fn vacuum_pulls_toward_the_target() {
    let impulse = vacuum_impulse(v(0, 0, 0), v(1000, 0, 0), 5);
    assert_eq!(impulse, v(5, 0, 0));
    let nothing = vacuum_impulse(v(500, 0, 0), v(500, 0, 0), 5);
    assert_eq!(nothing, v(0, 0, 0));
}

#[test]
fn hooked_item_arcs_over_the_midpoint() {
    // Half a step from the origin toward a carry point two units along x:
    // first halfway to the lifted midpoint (1, 2, 0), then halfway down
    // toward the target.
    let step = hooked_item_step(v(0, 0, 0), v(2000, 0, 0), 500);
    assert_eq!(step, v(1250, 500, 0));
}

#[test]
fn full_step_reaches_the_target() {
    let step = hooked_item_step(v(0, 0, 0), v(2000, 0, 0), 1000);
    assert_eq!(step, v(2000, 0, 0));
}

#[test]
fn zero_step_stays_put() {
    let step = hooked_item_step(v(300, 400, 500), v(2000, 0, 0), 0);
    assert_eq!(step, v(300, 400, 500));
}
