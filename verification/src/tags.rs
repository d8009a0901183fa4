//! Marker tags for engine entities.
//!
//! The host attaches these to the entities it owns and hands the library the
//! id lists of the entities carrying each tag; the library's logic only ever
//! compares ids against those lists.

use vstd::prelude::*;

verus! {

/// The camera that renders the 2D interface overlay.
#[derive(Clone, Copy, Debug, PartialEq, Eq, Structural)]
pub struct UICamera;

/// The camera that follows the player through the scene.
#[derive(Clone, Copy, Debug, PartialEq, Eq, Structural)]
pub struct GameCamera;

/// The player-controlled cart pusher.
#[derive(Clone, Copy, Debug, PartialEq, Eq, Structural)]
pub struct Player;

/// The collection volume of the player's cart; items landing in it from
/// above the cart height are scored.
#[derive(Clone, Copy, Debug, PartialEq, Eq, Structural)]
pub struct CartCollider;

/// An entity whose position is indexed in the per-frame spatial structure.
#[derive(Clone, Copy, Debug, Default, PartialEq, Eq, Structural)]
pub struct TrackedByKDTree;

/// A bystander pushed away by a stomp instead of being flung up.
#[derive(Clone, Copy, Debug, PartialEq, Eq, Structural)]
pub struct American;

/// The ground plane; items colliding with it leave the in-flight state.
#[derive(Clone, Copy, Debug, PartialEq, Eq, Structural)]
pub struct FloorTag;

/// The interface text node that shows the score.
#[derive(Clone, Copy, Debug, PartialEq, Eq, Structural)]
pub struct HudScoreText;

/// An item held by the hook effect and dragged toward the player.
#[derive(Clone, Copy, Debug, PartialEq, Eq, Structural)]
pub struct ItemIsHooked;

/// Event raised by the walk animation each time a foot comes down.
#[derive(Clone, Copy, Debug, PartialEq, Eq, Structural)]
pub struct PlayerOnStep;

/// The scene root of a spawned shop object.
#[derive(Clone, Copy, Debug, PartialEq, Eq, Structural)]
pub struct ShopObjectScene;

} // verus!
