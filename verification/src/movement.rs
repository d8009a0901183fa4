//! Player movement decisions: the key-driven steering vector, the top-speed
//! gate, and the impulse strength, all in fixed point.
//!
//! The host reads the keyboard, rotates the steering vector by the player's
//! orientation and applies the returned impulse through its physics
//! components; turning and animation stay with the host.

use vstd::prelude::*;

use crate::geom::{div_trunc, div_trunc_i64, len_sq, lemma_product_bound, lemma_square_bound,
    Vec3Fixed, MAX_COORD};

verus! {

/// Tuning of the player's cart handling.
#[derive(Clone, Copy, Debug, PartialEq, Eq, Structural)]
pub struct MovementSettings {
    /// Impulse strength per tick of steering input.
    pub speed: i64,
    /// Speed above which steering input adds no further impulse.
    pub max_speed: i64,
    /// Exponent shaping how turn rate scales with speed, in thousandths.
    pub turn_speed_exp: i64,
    /// Turn-rate factor when rolling slowly, in thousandths.
    pub low_speed_turn_factor: i64,
    /// Turn-rate factor when rolling fast, in thousandths.
    pub high_speed_turn_factor: i64,
    /// Torque of the cart pulling against the player, in thousandths.
    pub stubborn_cart_strength: i64,
}

impl Default for MovementSettings {
    /// The shipped handling: gentle push, generous speed cap, turning that
    /// stiffens with speed, a slightly stubborn cart.
    fn default() -> (r: MovementSettings)
        ensures
            r == (MovementSettings {
                speed: 2000,
                max_speed: 25_000,
                turn_speed_exp: 2000,
                low_speed_turn_factor: 300,
                high_speed_turn_factor: 1200,
                stubborn_cart_strength: -500i64,
            }),
    {
        MovementSettings {
            speed: 2000,
            max_speed: 25_000,
            turn_speed_exp: 2000,
            low_speed_turn_factor: 300,
            high_speed_turn_factor: 1200,
            stubborn_cart_strength: -500,
        }
    }
}

/// The raw steering vector of the held movement keys, at the unit scale:
/// forward is negative z, right is positive x, opposite keys cancel.
pub fn movement_direction(forward: bool, back: bool, left: bool, right: bool) -> (r: Vec3Fixed)
    ensures
        r.x == (if right { 1000int } else { 0int }) - (if left { 1000int } else { 0int }),
        r.y == 0,
        r.z == (if back { 1000int } else { 0int }) - (if forward { 1000int } else { 0int }),
{
    let mut x: i64 = 0;
    let mut z: i64 = 0;
    if forward {
        z = z - 1000;
    }
    if back {
        z = z + 1000;
    }
    if left {
        x = x - 1000;
    }
    if right {
        x = x + 1000;
    }
    Vec3Fixed { x, y: 0, z }
}

/// Whether steering input still adds impulse: only below the top speed.
pub fn below_max_speed(velocity: Vec3Fixed, max_speed: i64) -> (r: bool)
    requires
        -2_000_000 <= velocity.x <= 2_000_000,
        -2_000_000 <= velocity.y <= 2_000_000,
        -2_000_000 <= velocity.z <= 2_000_000,
        0 <= max_speed <= 2_000_000,
    ensures
        r <==> len_sq(velocity) < max_speed * max_speed,
{
    proof {
        lemma_square_bound(velocity.x as int, 2_000_000);
        lemma_square_bound(velocity.y as int, 2_000_000);
        lemma_square_bound(velocity.z as int, 2_000_000);
        lemma_square_bound(max_speed as int, 2_000_000);
    }
    let sq = velocity.x * velocity.x + velocity.y * velocity.y + velocity.z * velocity.z;
    sq < max_speed * max_speed
}

/// The steering impulse: the rotated unit direction scaled by the push
/// strength, doubled while sprinting.
pub open spec fn movement_impulse_spec(direction: Vec3Fixed, speed: int, sprinting: bool) -> Vec3Fixed {
    let m = if sprinting {
        2 * speed
    } else {
        speed
    };
    Vec3Fixed {
        x: div_trunc(direction.x * m, 1000) as i64,
        y: div_trunc(direction.y * m, 1000) as i64,
        z: div_trunc(direction.z * m, 1000) as i64,
    }
}

/// Impulse for one tick of steering, exactly as `movement_impulse_spec`
/// lays it out. `direction` is the player-rotated steering vector at the
/// unit scale.
pub fn movement_impulse(direction: Vec3Fixed, speed: i64, sprinting: bool) -> (r: Vec3Fixed)
    requires
        -1000 <= direction.x <= 1000,
        -1000 <= direction.y <= 1000,
        -1000 <= direction.z <= 1000,
        0 <= speed <= MAX_COORD,
    ensures
        r == movement_impulse_spec(direction, speed as int, sprinting),
{
    let m = if sprinting {
        2 * speed
    } else {
        speed
    };
    proof {
        lemma_product_bound(direction.x as int, m as int, 1000, 2_000_000);
        lemma_product_bound(direction.y as int, m as int, 1000, 2_000_000);
        lemma_product_bound(direction.z as int, m as int, 1000, 2_000_000);
    }
    Vec3Fixed {
        x: div_trunc_i64(direction.x * m, 1000),
        y: div_trunc_i64(direction.y * m, 1000),
        z: div_trunc_i64(direction.z * m, 1000),
    }
}

} // verus!
