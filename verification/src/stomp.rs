//! The stomp mechanic: how hard and in which direction nearby things are
//! flung when the player stomps.
//!
//! Items within the stomp radius get an upward impulse plus a push away from
//! a point just behind the cart, both scaled by the square root of how close
//! the item is (full strength at the player's feet, nothing at the rim).
//! Bystanders get a plain push away from the player. The host applies the
//! returned impulses through its physics components.

use vstd::prelude::*;

use crate::geom::{
    dist_sq, div_trunc, div_trunc_i64, in_bounds, isqrt, lemma_abs_le_sqrt, lemma_product_bound,
    lemma_sqrt_floor_upper, lemma_square_bound, normalized_milli, sqrt_floor, Vec3Fixed, MAX_COORD,
};

verus! {

/// Height of the cart's collection volume above its origin, in sub-units.
pub const CART_HEIGHT: i64 = 500;

/// How far behind the player's origin the cart sits, in sub-units.
pub const CART_OFFSET_Z: i64 = 1300;

/// Tuning of the stomp: radius, push strengths and particle count.
#[derive(Clone, Copy, Debug, PartialEq, Eq, Structural)]
pub struct StompResource {
    /// Radius of the stomp wave, in sub-units.
    pub stomp_distance: i64,
    /// Scale of the push away from the cart (negative pulls toward it).
    pub stomp_away_force: i64,
    /// Scale of the upward fling.
    pub stomp_up_force: i64,
    /// How many dust particles a stomp spawns.
    pub stomp_particles: i32,
}

impl Default for StompResource {
    /// The shipped tuning: five units of radius, a slight pull toward the
    /// cart, a strong upward fling, eighty particles.
    fn default() -> (r: StompResource)
        ensures
            r == (StompResource {
                stomp_distance: 5000,
                stomp_away_force: -10i64,
                stomp_up_force: 80,
                stomp_particles: 80,
            }),
    {
        StompResource {
            stomp_distance: 5000,
            stomp_away_force: -10,
            stomp_up_force: 80,
            stomp_particles: 80,
        }
    }
}

/// The running score.
#[derive(Clone, Copy, Debug, PartialEq, Eq, Structural)]
pub struct ScoreResource {
    pub score: i32,
}

impl Default for ScoreResource {
    fn default() -> (r: ScoreResource)
        ensures
            r.score == 0,
    {
        ScoreResource { score: 0 }
    }
}

/// Admissible stomp tuning: a positive radius and push strengths within the
/// fixed-point working range.
pub open spec fn stomp_settings_ok(s: StompResource) -> bool {
    &&& 1 <= s.stomp_distance <= MAX_COORD
    &&& -MAX_COORD <= s.stomp_away_force <= MAX_COORD
    &&& -MAX_COORD <= s.stomp_up_force <= MAX_COORD
}

/// The point just behind the player that stomped items are pushed away from
/// (so they arc over the cart).
pub open spec fn cart_offset_point(player: Vec3Fixed) -> Vec3Fixed {
    Vec3Fixed { x: player.x, y: player.y, z: (player.z - CART_OFFSET_Z) as i64 }
}

/// Distance falloff of the stomp, in thousandths: the square root of
/// `1 - d / radius`, clamped to the unit range.
pub open spec fn stomp_falloff_milli(item: Vec3Fixed, player: Vec3Fixed, radius: int) -> int {
    let d = sqrt_floor(dist_sq(item, player) as nat) as int;
    let ratio = div_trunc(d * 1000, radius);
    let m = if 1000 - ratio < 0 {
        0
    } else {
        1000 - ratio
    };
    sqrt_floor((m * 1000) as nat) as int
}

/// The impulse a stomp applies to an item: an upward fling plus a push away
/// from the cart offset point, both scaled by the distance falloff.
pub open spec fn stomp_impulse_spec(item: Vec3Fixed, player: Vec3Fixed, s: StompResource) -> Vec3Fixed {
    let f = stomp_falloff_milli(item, player, s.stomp_distance as int);
    let up = div_trunc(s.stomp_up_force * f, 1000);
    let away = div_trunc(s.stomp_away_force * f, 1000);
    let offset = cart_offset_point(player);
    let dir = normalized_milli(
        Vec3Fixed {
            x: (item.x - offset.x) as i64,
            y: (item.y - offset.y) as i64,
            z: (item.z - offset.z) as i64,
        },
    );
    Vec3Fixed {
        x: div_trunc(dir.x * away, 1000) as i64,
        y: (up + div_trunc(dir.y * away, 1000)) as i64,
        z: div_trunc(dir.z * away, 1000) as i64,
    }
}

/// The impulse a stomp applies to a bystander: a hundredfold push straight
/// away from the player.
pub open spec fn american_impulse_spec(target: Vec3Fixed, player: Vec3Fixed, away_force: int) -> Vec3Fixed {
    let dir = normalized_milli(
        Vec3Fixed {
            x: (target.x - player.x) as i64,
            y: (target.y - player.y) as i64,
            z: (target.z - player.z) as i64,
        },
    );
    let scale = away_force * 100;
    Vec3Fixed {
        x: div_trunc(dir.x * scale, 1000) as i64,
        y: div_trunc(dir.y * scale, 1000) as i64,
        z: div_trunc(dir.z * scale, 1000) as i64,
    }
}

/// Impulse applied to an item within the stomp radius, exactly as
/// `stomp_impulse_spec` lays it out.
pub fn stomp_impulse(item: Vec3Fixed, player: Vec3Fixed, s: &StompResource) -> (r: Vec3Fixed)
    requires
        in_bounds(item),
        in_bounds(player),
        stomp_settings_ok(*s),
    ensures
        r == stomp_impulse_spec(item, player, *s),
{
    proof {
        lemma_square_bound(item.x - player.x, 2_000_000);
        lemma_square_bound(item.y - player.y, 2_000_000);
        lemma_square_bound(item.z - player.z, 2_000_000);
    }
    let dxp = item.x - player.x;
    let dyp = item.y - player.y;
    let dzp = item.z - player.z;
    let d = isqrt(dxp * dxp + dyp * dyp + dzp * dzp);
    proof {
        lemma_sqrt_floor_upper((dxp * dxp + dyp * dyp + dzp * dzp) as nat, 3_500_000);
    }
    let ratio = div_trunc_i64(d * 1000, s.stomp_distance);
    let m = if 1000 - ratio < 0 {
        0
    } else {
        1000 - ratio
    };
    proof {
        lemma_sqrt_floor_upper((m * 1000) as nat, 1001);
    }
    let f = isqrt(m * 1000);
    proof {
        lemma_product_bound(s.stomp_up_force as int, f as int, 1_000_000, 1000);
        lemma_product_bound(s.stomp_away_force as int, f as int, 1_000_000, 1000);
    }
    let up = div_trunc_i64(s.stomp_up_force * f, 1000);
    let away = div_trunc_i64(s.stomp_away_force * f, 1000);
    let dir = Vec3Fixed {
        x: item.x - player.x,
        y: item.y - player.y,
        z: item.z - (player.z - CART_OFFSET_Z),
    }.normalize_or_zero_milli();
    proof {
        lemma_product_bound(dir.x as int, away as int, 1000, 1_000_000_000);
        lemma_product_bound(dir.y as int, away as int, 1000, 1_000_000_000);
        lemma_product_bound(dir.z as int, away as int, 1000, 1_000_000_000);
    }
    Vec3Fixed {
        x: div_trunc_i64(dir.x * away, 1000),
        y: up + div_trunc_i64(dir.y * away, 1000),
        z: div_trunc_i64(dir.z * away, 1000),
    }
}

/// Impulse applied to a bystander caught in the stomp radius, exactly as
/// `american_impulse_spec` lays it out.
pub fn american_impulse(target: Vec3Fixed, player: Vec3Fixed, away_force: i64) -> (r: Vec3Fixed)
    requires
        in_bounds(target),
        in_bounds(player),
        -MAX_COORD <= away_force <= MAX_COORD,
    ensures
        r == american_impulse_spec(target, player, away_force as int),
{
    let dir = Vec3Fixed {
        x: target.x - player.x,
        y: target.y - player.y,
        z: target.z - player.z,
    }.normalize_or_zero_milli();
    let scale = away_force * 100;
    proof {
        lemma_product_bound(dir.x as int, scale as int, 1000, 100_000_000);
        lemma_product_bound(dir.y as int, scale as int, 1000, 100_000_000);
        lemma_product_bound(dir.z as int, scale as int, 1000, 100_000_000);
    }
    Vec3Fixed {
        x: div_trunc_i64(dir.x * scale, 1000),
        y: div_trunc_i64(dir.y * scale, 1000),
        z: div_trunc_i64(dir.z * scale, 1000),
    }
}

/// Whether an item crossing into the cart collider counts as collected:
/// its height must reach the cart's collection height, less a small slack.
pub fn cart_catches(item_y: i64, cart_y: i64) -> (r: bool)
    requires
        -MAX_COORD <= item_y <= MAX_COORD,
        -MAX_COORD <= cart_y <= MAX_COORD,
    ensures
        r <==> item_y >= cart_y + CART_HEIGHT - 100,
{
    item_y >= cart_y + CART_HEIGHT - 100
}

} // verus!
