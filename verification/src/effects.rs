//! Player skill effects that move items around: the hook, which grabs a
//! nearby item and drags it toward a point in front of the player, and the
//! vacuum, which pulls items toward a target point.
//!
//! The host decides when the effects trigger (input, ray casts) and applies
//! the returned impulses and positions; the library decides whether a grab
//! succeeds and where a held item moves.

use vstd::prelude::*;

use crate::geom::{
    dist_sq, distance_squared, div_trunc, div_trunc_i64, in_bounds, lemma_product_bound,
    lemma_square_bound, normalized_milli, Vec3Fixed, MAX_COORD,
};

verus! {

/// Tuning of the hook effect.
#[derive(Clone, Copy, Debug, PartialEq, Eq, Structural)]
pub struct HookResource {
    /// How far an item may be and still be grabbed, in sub-units.
    pub hook_range: i64,
    /// How fast a hooked item closes in, in thousandths per second.
    pub hooked_item_speed: i64,
}

impl Default for HookResource {
    /// The shipped tuning: five units of reach, three interpolation steps
    /// per second.
    fn default() -> (r: HookResource)
        ensures
            r == (HookResource { hook_range: 5000, hooked_item_speed: 3000 }),
    {
        HookResource { hook_range: 5000, hooked_item_speed: 3000 }
    }
}

/// Tuning of the vacuum effect.
#[derive(Clone, Copy, Debug, PartialEq, Eq, Structural)]
pub struct VacuumResource {
    /// How far the suction reaches, in sub-units.
    pub suck_distance: i64,
    /// Strength of the pull toward the target point.
    pub suck_to_force: i64,
}

impl Default for VacuumResource {
    /// The shipped tuning: ten units of reach, a gentle pull.
    fn default() -> (r: VacuumResource)
        ensures
            r == (VacuumResource { suck_distance: 10_000, suck_to_force: 5 }),
    {
        VacuumResource { suck_distance: 10_000, suck_to_force: 5 }
    }
}

/// What a hook attempt does to the clicked item.
#[derive(Clone, Copy, Debug, PartialEq, Eq, Structural)]
pub enum HookOutcome {
    /// The item is in reach: it becomes hooked.
    Hooked,
    /// The item is out of reach: it only shakes in place.
    Shake,
}

/// Whether a clicked item gets hooked: it must be strictly within the hook
/// range of the player; anything farther only shakes.
pub fn hook_decision(item: Vec3Fixed, player: Vec3Fixed, hook_range: i64) -> (r: HookOutcome)
    requires
        in_bounds(item),
        in_bounds(player),
        0 <= hook_range <= MAX_COORD,
    ensures
        r == HookOutcome::Hooked <==> dist_sq(item, player) < hook_range * hook_range,
        r == HookOutcome::Hooked || r == HookOutcome::Shake,
{
    proof {
        lemma_square_bound(hook_range as int, 1_000_000);
    }
    let d2 = distance_squared(&item, &player);
    if d2 < hook_range * hook_range {
        HookOutcome::Hooked
    } else {
        HookOutcome::Shake
    }
}

/// The pull the vacuum applies to one item: toward the target point, scaled
/// by the suction force.
pub open spec fn vacuum_impulse_spec(item: Vec3Fixed, target: Vec3Fixed, force: int) -> Vec3Fixed {
    let dir = normalized_milli(
        Vec3Fixed {
            x: (target.x - item.x) as i64,
            y: (target.y - item.y) as i64,
            z: (target.z - item.z) as i64,
        },
    );
    Vec3Fixed {
        x: div_trunc(dir.x * force, 1000) as i64,
        y: div_trunc(dir.y * force, 1000) as i64,
        z: div_trunc(dir.z * force, 1000) as i64,
    }
}

/// Impulse the vacuum applies to an item, exactly as `vacuum_impulse_spec`
/// lays it out.
pub fn vacuum_impulse(item: Vec3Fixed, target: Vec3Fixed, force: i64) -> (r: Vec3Fixed)
    requires
        in_bounds(item),
        in_bounds(target),
        -MAX_COORD <= force <= MAX_COORD,
    ensures
        r == vacuum_impulse_spec(item, target, force as int),
{
    let dir = Vec3Fixed {
        x: target.x - item.x,
        y: target.y - item.y,
        z: target.z - item.z,
    }.normalize_or_zero_milli();
    proof {
        lemma_product_bound(dir.x as int, force as int, 1000, 1_000_000);
        lemma_product_bound(dir.y as int, force as int, 1000, 1_000_000);
        lemma_product_bound(dir.z as int, force as int, 1000, 1_000_000);
    }
    Vec3Fixed {
        x: div_trunc_i64(dir.x * force, 1000),
        y: div_trunc_i64(dir.y * force, 1000),
        z: div_trunc_i64(dir.z * force, 1000),
    }
}

/// Linear interpolation by a fraction in thousandths, per component.
pub open spec fn lerp_milli(a: Vec3Fixed, b: Vec3Fixed, t: int) -> Vec3Fixed {
    Vec3Fixed {
        x: (a.x + div_trunc((b.x - a.x) * t, 1000)) as i64,
        y: (a.y + div_trunc((b.y - a.y) * t, 1000)) as i64,
        z: (a.z + div_trunc((b.z - a.z) * t, 1000)) as i64,
    }
}

/// Where one tick moves a hooked item: first toward a midpoint lifted two
/// units above the straight line to the target, then toward the target, each
/// by the tick's progress fraction.
pub open spec fn hooked_item_step_spec(item: Vec3Fixed, target: Vec3Fixed, progress: int) -> Vec3Fixed {
    let midpoint = Vec3Fixed {
        x: div_trunc(item.x + target.x, 2) as i64,
        y: (div_trunc(item.y + target.y, 2) + 2000) as i64,
        z: div_trunc(item.z + target.z, 2) as i64,
    };
    lerp_milli(lerp_milli(item, midpoint, progress), target, progress)
}

/// One interpolated component never leaves the segment between its
/// endpoints.
proof fn lemma_lerp_component_between(av: int, bv: int, t: int)
    requires
        0 <= t <= 1000,
    ensures
        av <= bv ==> av <= av + div_trunc((bv - av) * t, 1000) <= bv,
        av >= bv ==> bv <= av + div_trunc((bv - av) * t, 1000) <= av,
{
    let d = bv - av;
    if d >= 0 {
        assert(d * t <= d * 1000) by (nonlinear_arith)
            requires
                0 <= t <= 1000,
                d >= 0,
        ;
        crate::geom::lemma_div_le(d * t, 1000, d);
    } else {
        assert(0 <= (-d) * t <= (-d) * 1000 && (-d) * t == -(d * t)) by (nonlinear_arith)
            requires
                0 <= t <= 1000,
                d < 0,
        ;
        crate::geom::lemma_div_le((-d) * t, 1000, -d);
    }
}

/// One interpolation step of `lerp_milli`, exactly; the result stays
/// between its endpoints, component by component.
fn lerp_step(a: Vec3Fixed, b: Vec3Fixed, t: i64) -> (r: Vec3Fixed)
    requires
        0 <= t <= 1000,
        -8_000_000 <= a.x <= 8_000_000,
        -8_000_000 <= a.y <= 8_000_000,
        -8_000_000 <= a.z <= 8_000_000,
        -8_000_000 <= b.x <= 8_000_000,
        -8_000_000 <= b.y <= 8_000_000,
        -8_000_000 <= b.z <= 8_000_000,
    ensures
        r == lerp_milli(a, b, t as int),
        a.x <= b.x ==> a.x <= r.x <= b.x,
        a.x >= b.x ==> b.x <= r.x <= a.x,
        a.y <= b.y ==> a.y <= r.y <= b.y,
        a.y >= b.y ==> b.y <= r.y <= a.y,
        a.z <= b.z ==> a.z <= r.z <= b.z,
        a.z >= b.z ==> b.z <= r.z <= a.z,
{
    proof {
        lemma_product_bound(b.x - a.x, t as int, 16_000_000, 1000);
        lemma_product_bound(b.y - a.y, t as int, 16_000_000, 1000);
        lemma_product_bound(b.z - a.z, t as int, 16_000_000, 1000);
        lemma_lerp_component_between(a.x as int, b.x as int, t as int);
        lemma_lerp_component_between(a.y as int, b.y as int, t as int);
        lemma_lerp_component_between(a.z as int, b.z as int, t as int);
    }
    Vec3Fixed {
        x: a.x + div_trunc_i64((b.x - a.x) * t, 1000),
        y: a.y + div_trunc_i64((b.y - a.y) * t, 1000),
        z: a.z + div_trunc_i64((b.z - a.z) * t, 1000),
    }
}

/// Position of a hooked item after one tick of being dragged toward the
/// carry point, exactly as `hooked_item_step_spec` lays it out. `progress`
/// is the tick's fraction of a full step, in thousandths, at most one step.
pub fn hooked_item_step(item: Vec3Fixed, target: Vec3Fixed, progress: i64) -> (r: Vec3Fixed)
    requires
        in_bounds(item),
        in_bounds(target),
        0 <= progress <= 1000,
    ensures
        r == hooked_item_step_spec(item, target, progress as int),
{
    let midpoint = Vec3Fixed {
        x: div_trunc_i64(item.x + target.x, 2),
        y: div_trunc_i64(item.y + target.y, 2) + 2000,
        z: div_trunc_i64(item.z + target.z, 2),
    };
    let lifted = lerp_step(item, midpoint, progress);
    lerp_step(lifted, target, progress)
}

} // verus!
