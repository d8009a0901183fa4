//! Ballistic landing prediction.
//!
//! A stomped item flies under constant downward acceleration on the vertical
//! axis while its horizontal velocity stays as it is (no drag). The predictor
//! solves the projectile equation for the time of impact with the ground
//! plane at height zero and places the predicted landing point a small
//! epsilon above the ground so the indicator never z-fights the floor.
//!
//! All quantities are fixed-point: positions in sub-units, velocities in
//! sub-units per second, gravity in sub-units per second squared, time in
//! milliseconds. The returned point is exact integer arithmetic over the
//! floor square root, so every caller sees one deterministic answer.

use vstd::prelude::*;

use crate::geom::{
    in_bounds, isqrt, lemma_product_bound, lemma_sqrt_floor_bounds, lemma_sqrt_floor_upper,
    lemma_square_bound, sqrt_floor, Vec3Fixed, MAX_COORD,
};

verus! {

/// Default downward acceleration, in sub-units per second squared.
pub const GRAVITY: i64 = -9810;

/// Height of a predicted landing point above the ground plane
/// (a hundredth of a world unit), part of the prediction contract.
pub const LANDING_EPSILON: i64 = 10;

/// Admissible predictor inputs: in-bounds position, in-bounds velocity, and
/// strictly downward gravity no stronger than the coordinate bound.
pub open spec fn ballistic_inputs_ok(position: Vec3Fixed, velocity: Vec3Fixed, gravity: i64) -> bool {
    &&& in_bounds(position)
    &&& in_bounds(velocity)
    &&& -MAX_COORD <= gravity <= -1
}

/// Discriminant of the impact-time equation `0 = y + vy t + (g/2) t^2`.
pub open spec fn impact_discriminant(position: Vec3Fixed, velocity: Vec3Fixed, gravity: i64) -> int {
    velocity.y * velocity.y - 2 * gravity * position.y
}

/// Horizontal displacement `v * t` of a fixed-point velocity over `t`
/// milliseconds, truncated toward zero as the executable division is.
pub open spec fn scaled_displacement(v: int, t: int) -> int {
    if v >= 0 {
        (v * t) / 1000
    } else {
        -((-v * t) / 1000)
    }
}

/// What `predict_landing` returns: no prediction when the discriminant is
/// negative (the parabola never reaches the ground) or the solved impact
/// time is not in the future; otherwise the ground point under the parabola
/// at the impact time, a small epsilon above the ground plane.
pub open spec fn predict_landing_spec(position: Vec3Fixed, velocity: Vec3Fixed, gravity: i64) -> Option<
    Vec3Fixed,
> {
    let disc = impact_discriminant(position, velocity, gravity);
    if disc < 0 {
        None
    } else {
        let s = sqrt_floor(disc as nat) as int;
        if velocity.y + s <= 0 {
            None
        } else {
            let t = 1000 * (velocity.y + s) / (-gravity as int);
            Some(
                Vec3Fixed {
                    x: (position.x + scaled_displacement(velocity.x as int, t)) as i64,
                    y: LANDING_EPSILON,
                    z: (position.z + scaled_displacement(velocity.z as int, t)) as i64,
                },
            )
        }
    }
}

/// Exact horizontal displacement over `t` milliseconds.
fn displacement(v: i64, t: i64) -> (r: i64)
    requires
        -MAX_COORD <= v <= MAX_COORD,
        0 <= t <= 3_000_000_000,
    ensures
        r == scaled_displacement(v as int, t as int),
        -3_000_000_000_000 <= r <= 3_000_000_000_000,
{
    if v >= 0 {
        proof {
            lemma_product_bound(v as int, t as int, 1_000_000, 3_000_000_000);
            assert(0 <= v as int * t as int <= 3_000_000_000_000_000);
            assert((v as int * t as int) / 1000 <= 3_000_000_000_000 && (v as int * t as int)
                / 1000 >= 0) by (nonlinear_arith)
                requires
                    0 <= v as int * t as int <= 3_000_000_000_000_000,
            ;
        }
        v * t / 1000
    } else {
        proof {
            lemma_product_bound(-(v as int), t as int, 1_000_000, 3_000_000_000);
            assert(0 <= -(v as int) * (t as int) <= 3_000_000_000_000_000);
            assert((-(v as int) * (t as int)) / 1000 <= 3_000_000_000_000 && (-(v as int) * (
            t as int)) / 1000 >= 0) by (nonlinear_arith)
                requires
                    0 <= -(v as int) * (t as int) <= 3_000_000_000_000_000,
            ;
        }
        -(-v * t / 1000)
    }
}

/// Predicted ground-impact point of an item at `position` moving with
/// `velocity` under `gravity`, or `None` when the item has no future
/// intersection with the ground plane (a normal outcome, not an error).
pub fn predict_landing(position: Vec3Fixed, velocity: Vec3Fixed, gravity: i64) -> (r: Option<
    Vec3Fixed,
>)
    requires
        ballistic_inputs_ok(position, velocity, gravity),
    ensures
        r == predict_landing_spec(position, velocity, gravity),
{
    proof {
        lemma_square_bound(velocity.y as int, 1_000_000);
        lemma_product_bound(2 * gravity, position.y as int, 2_000_000, 1_000_000);
    }
    let disc = velocity.y * velocity.y - 2 * gravity * position.y;
    if disc < 0 {
        return None;
    }
    let s = isqrt(disc);
    proof {
        lemma_sqrt_floor_upper(disc as nat, 2_000_000);
    }
    if velocity.y + s <= 0 {
        return None;
    }
    let t = 1000 * (velocity.y + s) / (-gravity);
    let dx = displacement(velocity.x, t);
    let dz = displacement(velocity.z, t);
    Some(Vec3Fixed { x: position.x + dx, y: LANDING_EPSILON, z: position.z + dz })
}

/// An item resting at or below the ground plane with no vertical motion gets
/// no landing prediction, whatever its horizontal velocity.
pub proof fn lemma_no_prediction_at_rest_below_ground(
    position: Vec3Fixed,
    velocity: Vec3Fixed,
    gravity: i64,
)
    requires
        ballistic_inputs_ok(position, velocity, gravity),
        position.y <= 0,
        velocity.y == 0,
    ensures
        predict_landing_spec(position, velocity, gravity) is None,
{
    assert(velocity.y * velocity.y == 0) by (nonlinear_arith)
        requires
            velocity.y == 0,
    ;
    let disc = impact_discriminant(position, velocity, gravity);
    assert(disc <= 0) by (nonlinear_arith)
        requires
            disc == 0 - 2 * gravity * position.y,
            gravity <= -1,
            position.y <= 0,
    ;
    if disc == 0 {
        lemma_sqrt_floor_bounds(0);
        assert(sqrt_floor(0) * sqrt_floor(0) <= 0);
        assert(sqrt_floor(0) == 0) by (nonlinear_arith)
            requires
                sqrt_floor(0) * sqrt_floor(0) <= 0,
        ;
    }
}

} // verus!
