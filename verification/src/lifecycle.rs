//! Item and landing-indicator lifecycle.
//!
//! Each tracked item is Grounded, InFlight (stomped), or leaves the world
//! Scored. An in-flight item owns at most one landing-indicator entity; the
//! indicator appears when a prediction first exists, follows the predicted
//! impact point every physics tick (holding its last position when the
//! prediction lapses), and is destroyed together with the in-flight state —
//! on the same transition, so no indicator ever outlives its item.
//!
//! The registry is the explicit state behind the engine's tag components:
//! the host mirrors every transition onto its entities (spawning and
//! despawning indicator entities, adding and removing flags) and the
//! registry guarantees the bookkeeping stays consistent.

use vstd::prelude::*;

use crate::ballistic::{ballistic_inputs_ok, predict_landing, predict_landing_spec};
use crate::entity::EntityId;
use crate::geom::{in_bounds, Vec3Fixed};
use crate::hierarchy::{parent_of, ParentLinks};
use crate::items::{country_score, ItemPickupCountry};
use crate::spatial::{in_range, SpatialIndex, TrackedPosition};
use crate::stomp::{
    american_impulse, american_impulse_spec, stomp_impulse, stomp_impulse_spec, stomp_settings_ok,
    ScoreResource, StompResource, CART_HEIGHT,
};

verus! {

/// Lifecycle state of an item.
#[derive(Clone, Copy, Debug, PartialEq, Eq, Structural)]
pub enum ItemState {
    /// Resting; no indicator may exist.
    Grounded,
    /// Stomped into the air; may own a landing indicator.
    InFlight,
    /// Collected by the cart; the item entity is gone.
    Scored,
}

/// The indicator entity of an in-flight item and where it currently shows
/// the predicted impact.
#[derive(Clone, Copy, Debug, PartialEq, Eq, Structural)]
pub struct LandingIndicator {
    pub entity: EntityId,
    pub pos: Vec3Fixed,
}

/// Everything the registry knows about one live item.
#[derive(Clone, Copy, Debug, PartialEq, Eq, Structural)]
pub struct ItemRecord {
    pub entity: EntityId,
    pub country: ItemPickupCountry,
    pub state: ItemState,
    pub indicator: Option<LandingIndicator>,
}

/// Whether some record is for entity `e`.
pub open spec fn has_item(s: Seq<ItemRecord>, e: EntityId) -> bool {
    exists|i: int| 0 <= i < s.len() && (#[trigger] s[i]).entity == e
}

/// Whether some record owns `e` as its indicator entity.
pub open spec fn indicator_used(s: Seq<ItemRecord>, e: EntityId) -> bool {
    exists|i: int|
        0 <= i < s.len() && ((#[trigger] s[i]).indicator matches Some(ind) && ind.entity == e)
}

/// Whether `e` plays any role in the registry.
pub open spec fn uses_entity(s: Seq<ItemRecord>, e: EntityId) -> bool {
    has_item(s, e) || indicator_used(s, e)
}

/// The registry of live items, their lifecycle states and indicators, and
/// the running score.
pub struct ItemRegistry {
    pub items: Vec<ItemRecord>,
    pub score: ScoreResource,
}

impl ItemRegistry {
    /// Consistency of the bookkeeping: one record per item entity, an
    /// indicator only on an in-flight item, at most one indicator per
    /// indicator entity, and no entity that is both item and indicator.
    pub open spec fn wf(self) -> bool {
        let s = self.items@;
        &&& forall|i: int, j: int|
            0 <= i < j < s.len() ==> (#[trigger] s[i]).entity != (#[trigger] s[j]).entity
        &&& forall|i: int|
            0 <= i < s.len() ==> ((#[trigger] s[i]).indicator is Some ==> s[i].state
                == ItemState::InFlight)
        &&& forall|i: int, j: int|
            0 <= i < j < s.len() && (#[trigger] s[i]).indicator is Some && (
            #[trigger] s[j]).indicator is Some ==> s[i].indicator->0.entity
                != s[j].indicator->0.entity
        &&& forall|i: int, j: int|
            0 <= i < s.len() && 0 <= j < s.len() && (#[trigger] s[i]).indicator is Some ==> s[i]
                .indicator->0.entity != (#[trigger] s[j]).entity
    }

    /// An empty registry with a zero score.
    pub fn new() -> (r: ItemRegistry)
        ensures
            r.wf(),
            r.items@.len() == 0,
            r.score.score == 0,
    {
        ItemRegistry { items: Vec::new(), score: ScoreResource { score: 0 } }
    }

    /// Index of the record for `e`, if one exists.
    fn find_index(&self, e: EntityId) -> (r: Option<usize>)
        ensures
            match r {
                Some(i) => 0 <= i < self.items@.len() && self.items@[i as int].entity == e,
                None => !has_item(self.items@, e),
            },
    {
        let n = self.items.len();
        let mut i: usize = 0;
        while i < n
            invariant
                0 <= i <= n,
                n == self.items@.len(),
                forall|k: int| 0 <= k < i ==> (#[trigger] self.items@[k]).entity != e,
            decreases n - i,
        {
            if self.items[i].entity.0 == e.0 {
                return Some(i);
            }
            i = i + 1;
        }
        None
    }

    /// Whether `e` is a registered item or a live indicator entity; the
    /// host checks this before reusing an id.
    pub fn uses(&self, e: EntityId) -> (r: bool)
        ensures
            r == uses_entity(self.items@, e),
    {
        let n = self.items.len();
        let mut i: usize = 0;
        while i < n
            invariant
                0 <= i <= n,
                n == self.items@.len(),
                forall|k: int| 0 <= k < i ==> (#[trigger] self.items@[k]).entity != e,
                forall|k: int|
                    0 <= k < i ==> !((#[trigger] self.items@[k]).indicator matches Some(ind)
                        && ind.entity == e),
            decreases n - i,
        {
            let rec = self.items[i];
            if rec.entity.0 == e.0 {
                return true;
            }
            match rec.indicator {
                Some(ind) => {
                    if ind.entity.0 == e.0 {
                        return true;
                    }
                },
                None => {},
            }
            i = i + 1;
        }
        false
    }

    /// Registers a freshly spawned item as grounded. Succeeds exactly when
    /// the entity plays no role in the registry yet; otherwise nothing
    /// changes.
    pub fn add_item(&mut self, entity: EntityId, country: ItemPickupCountry) -> (r: bool)
        requires
            old(self).wf(),
        ensures
            final(self).wf(),
            r == !uses_entity(old(self).items@, entity),
            r ==> final(self).items@ == old(self).items@.push(
                ItemRecord { entity, country, state: ItemState::Grounded, indicator: None },
            ),
            !r ==> final(self).items@ == old(self).items@,
            final(self).score == old(self).score,
    {
        if self.uses(entity) {
            return false;
        }
        let rec = ItemRecord { entity, country, state: ItemState::Grounded, indicator: None };
        self.items.push(rec);
        proof {
            let s = self.items@;
            let olds = old(self).items@;
            assert forall|i: int, j: int| 0 <= i < j < s.len() implies (#[trigger] s[i]).entity
                != (#[trigger] s[j]).entity by {
                if j == s.len() - 1 {
                    assert(olds[i].entity != entity);
                }
            }
            assert forall|i: int, j: int|
                0 <= i < s.len() && 0 <= j < s.len() && (
                #[trigger] s[i]).indicator is Some implies s[i].indicator->0.entity != (
            #[trigger] s[j]).entity by {
                if i < s.len() - 1 && j == s.len() - 1 {
                    assert(indicator_used(olds, s[i].indicator->0.entity));
                }
            }
        }
        true
    }

    /// Marks an item as stomped into flight (an already flying item stays in
    /// flight, keeping its indicator). Succeeds exactly when the item is
    /// registered; otherwise nothing changes.
    pub fn stomp_item(&mut self, entity: EntityId) -> (r: bool)
        requires
            old(self).wf(),
        ensures
            final(self).wf(),
            r == has_item(old(self).items@, entity),
            final(self).items@.len() == old(self).items@.len(),
            forall|i: int|
                0 <= i < old(self).items@.len() ==> #[trigger] final(self).items@[i] == (
                if old(self).items@[i].entity == entity {
                    ItemRecord { state: ItemState::InFlight, ..old(self).items@[i] }
                } else {
                    old(self).items@[i]
                }),
            final(self).score == old(self).score,
    {
        match self.find_index(entity) {
            Some(i) => {
                let rec = self.items[i];
                self.items[i] = ItemRecord { state: ItemState::InFlight, ..rec };
                proof {
                    let s = self.items@;
                    let olds = old(self).items@;
                    assert forall|a: int|
                        0 <= a < olds.len() implies #[trigger] s[a] == (if olds[a].entity
                        == entity {
                        ItemRecord { state: ItemState::InFlight, ..olds[a] }
                    } else {
                        olds[a]
                    }) by {
                        if a != i as int {
                            assert(olds[a].entity != entity);
                        }
                    }
                }
                true
            },
            None => false,
        }
    }

    /// Whether a first indicator can be drawn for `item` using the fresh
    /// entity `indicator`: the item must be registered, in flight and still
    /// without an indicator, and the indicator entity must be unused.
    pub open spec fn can_attach(self, item: EntityId, indicator: EntityId) -> bool {
        &&& exists|i: int|
            0 <= i < self.items@.len() && ((#[trigger] self.items@[i]).entity == item
                && self.items@[i].state == ItemState::InFlight && self.items@[i].indicator is None)
        &&& !uses_entity(self.items@, indicator)
    }

    /// Records the indicator entity the host has just spawned for an
    /// in-flight item at the predicted position. Succeeds exactly when
    /// `can_attach` held; otherwise nothing changes.
    pub fn attach_indicator(&mut self, item: EntityId, indicator: EntityId, pos: Vec3Fixed) -> (r:
        bool)
        requires
            old(self).wf(),
        ensures
            final(self).wf(),
            r == old(self).can_attach(item, indicator),
            final(self).items@.len() == old(self).items@.len(),
            forall|i: int|
                0 <= i < old(self).items@.len() ==> #[trigger] final(self).items@[i] == (
                if r && old(self).items@[i].entity == item {
                    ItemRecord {
                        indicator: Some(LandingIndicator { entity: indicator, pos }),
                        ..old(self).items@[i]
                    }
                } else {
                    old(self).items@[i]
                }),
            final(self).score == old(self).score,
    {
        if self.uses(indicator) {
            return false;
        }
        match self.find_index(item) {
            Some(i) => {
                let rec = self.items[i];
                let in_flight = match rec.state {
                    ItemState::InFlight => true,
                    _ => false,
                };
                let vacant = match rec.indicator {
                    Option::None => true,
                    _ => false,
                };
                if in_flight && vacant {
                    self.items[i] = ItemRecord {
                        indicator: Some(LandingIndicator { entity: indicator, pos }),
                        ..rec
                    };
                    proof {
                        let s = self.items@;
                        let olds = old(self).items@;
                        assert(olds[i as int].entity == item && olds[i as int].state
                            == ItemState::InFlight && olds[i as int].indicator is None);
                        assert forall|a: int|
                            0 <= a < olds.len() implies #[trigger] s[a] == (if olds[a].entity
                            == item {
                            ItemRecord {
                                indicator: Some(LandingIndicator { entity: indicator, pos }),
                                ..olds[a]
                            }
                        } else {
                            olds[a]
                        }) by {
                            if a != i as int {
                                assert(olds[a].entity != item);
                            }
                        }
                        assert forall|a: int, b: int|
                            0 <= a < b < s.len() && (#[trigger] s[a]).indicator is Some && (
                            #[trigger] s[b]).indicator is Some implies s[a].indicator->0.entity
                            != s[b].indicator->0.entity by {
                            if a == i as int {
                                assert(indicator_used(olds, s[b].indicator->0.entity));
                            } else if b == i as int {
                                assert(indicator_used(olds, s[a].indicator->0.entity));
                            }
                        }
                        assert forall|a: int, b: int|
                            0 <= a < s.len() && 0 <= b < s.len() && (
                            #[trigger] s[a]).indicator is Some implies s[a].indicator->0.entity
                            != (#[trigger] s[b]).entity by {
                            if a == i as int {
                                assert(has_item(olds, s[b].entity));
                            }
                        }
                    }
                    true
                } else {
                    proof {
                        assert forall|a: int|
                            0 <= a < old(self).items@.len() && (#[trigger] old(
                                self,
                            ).items@[a]).entity == item implies !(old(self).items@[a].state
                            == ItemState::InFlight && old(self).items@[a].indicator is None) by {
                            if a != i as int {
                                assert(false);
                            }
                        }
                    }
                    false
                }
            },
            None => false,
        }
    }

    /// Recomputes the predicted landing for an in-flight item that already
    /// has an indicator and moves the indicator there; when the prediction
    /// lapses the indicator stays where it last was. Returns the new
    /// indicator position when it moved.
    pub fn update_indicator(
        &mut self,
        item: EntityId,
        item_pos: Vec3Fixed,
        item_vel: Vec3Fixed,
        gravity: i64,
    ) -> (r: Option<Vec3Fixed>)
        requires
            old(self).wf(),
            ballistic_inputs_ok(item_pos, item_vel, gravity),
        ensures
            final(self).wf(),
            final(self).items@.len() == old(self).items@.len(),
            final(self).score == old(self).score,
            r == (if (exists|i: int|
                0 <= i < old(self).items@.len() && ((#[trigger] old(self).items@[i]).entity == item
                    && old(self).items@[i].indicator is Some)) {
                predict_landing_spec(item_pos, item_vel, gravity)
            } else {
                Option::<Vec3Fixed>::None
            }),
            forall|i: int|
                0 <= i < old(self).items@.len() ==> #[trigger] final(self).items@[i] == (
                if old(self).items@[i].entity == item && old(self).items@[i].indicator is Some
                    && predict_landing_spec(item_pos, item_vel, gravity) is Some {
                    ItemRecord {
                        indicator: Some(
                            LandingIndicator {
                                entity: old(self).items@[i].indicator->0.entity,
                                pos: predict_landing_spec(item_pos, item_vel, gravity)->0,
                            },
                        ),
                        ..old(self).items@[i]
                    }
                } else {
                    old(self).items@[i]
                }),
    {
        match self.find_index(item) {
            Some(i) => {
                let rec = self.items[i];
                match rec.indicator {
                    Some(ind) => {
                        let predicted = predict_landing(item_pos, item_vel, gravity);
                        match predicted {
                            Some(pos) => {
                                self.items[i] = ItemRecord {
                                    indicator: Some(LandingIndicator { entity: ind.entity, pos }),
                                    ..rec
                                };
                                proof {
                                    let s = self.items@;
                                    let olds = old(self).items@;
                                    assert forall|a: int|
                                        0 <= a < olds.len() implies #[trigger] s[a] == (if olds[a].entity
                                        == item && olds[a].indicator is Some
                                        && predict_landing_spec(item_pos, item_vel, gravity) is Some {
                                        ItemRecord {
                                            indicator: Some(
                                                LandingIndicator {
                                                    entity: olds[a].indicator->0.entity,
                                                    pos: predict_landing_spec(
                                                        item_pos,
                                                        item_vel,
                                                        gravity,
                                                    )->0,
                                                },
                                            ),
                                            ..olds[a]
                                        }
                                    } else {
                                        olds[a]
                                    }) by {
                                        if a != i as int {
                                            assert(olds[a].entity != item);
                                        }
                                    }
                                    assert forall|a: int, b: int|
                                        0 <= a < b < s.len() && (
                                        #[trigger] s[a]).indicator is Some && (
                                        #[trigger] s[b]).indicator is Some implies s[a]
                                        .indicator->0.entity != s[b].indicator->0.entity by {
                                        if a == i as int {
                                            assert(olds[a].indicator->0.entity == s[a]
                                                .indicator->0.entity);
                                        } else if b == i as int {
                                            assert(olds[b].indicator->0.entity == s[b]
                                                .indicator->0.entity);
                                        }
                                    }
                                    assert forall|a: int, b: int|
                                        0 <= a < s.len() && 0 <= b < s.len() && (
                                        #[trigger] s[a]).indicator is Some implies s[a]
                                        .indicator->0.entity != (#[trigger] s[b]).entity by {
                                        if a == i as int {
                                            assert(olds[a].indicator->0.entity == s[a]
                                                .indicator->0.entity);
                                        }
                                    }
                                }
                                Some(pos)
                            },
                            None => None,
                        }
                    },
                    None => {
                        proof {
                            assert forall|a: int|
                                0 <= a < old(self).items@.len() && (#[trigger] old(
                                    self,
                                ).items@[a]).entity == item implies old(
                                self,
                            ).items@[a].indicator is None by {
                                if a != i as int {
                                    assert(false);
                                }
                            }
                        }
                        None
                    },
                }
            },
            None => None,
        }
    }

    /// An in-flight item has hit the floor: it settles back to grounded and
    /// its indicator is destroyed on the same transition. Returns the
    /// indicator entity the host must despawn, if one existed; an unknown
    /// item changes nothing.
    pub fn land_on_floor(&mut self, item: EntityId) -> (r: Option<EntityId>)
        requires
            old(self).wf(),
        ensures
            final(self).wf(),
            final(self).items@.len() == old(self).items@.len(),
            final(self).score == old(self).score,
            forall|i: int|
                0 <= i < old(self).items@.len() ==> #[trigger] final(self).items@[i] == (
                if old(self).items@[i].entity == item {
                    ItemRecord {
                        state: ItemState::Grounded,
                        indicator: None,
                        ..old(self).items@[i]
                    }
                } else {
                    old(self).items@[i]
                }),
            forall|i: int|
                0 <= i < old(self).items@.len() && (#[trigger] old(self).items@[i]).entity == item
                    ==> r == (match old(self).items@[i].indicator {
                    Some(ind) => Some(ind.entity),
                    None => None,
                }),
            !has_item(old(self).items@, item) ==> r is None,
            r matches Some(gone) ==> !indicator_used(final(self).items@, gone),
    {
        match self.find_index(item) {
            Some(i) => {
                let rec = self.items[i];
                self.items[i] = ItemRecord { state: ItemState::Grounded, indicator: None, ..rec };
                proof {
                    let s = self.items@;
                    let olds = old(self).items@;
                    assert forall|a: int|
                        0 <= a < olds.len() implies #[trigger] s[a] == (if olds[a].entity == item {
                        ItemRecord { state: ItemState::Grounded, indicator: None, ..olds[a] }
                    } else {
                        olds[a]
                    }) by {
                        if a != i as int {
                            assert(olds[a].entity != item);
                        }
                    }
                    if rec.indicator is Some {
                        let gone = rec.indicator->0.entity;
                        assert forall|a: int|
                            0 <= a < s.len() implies !((#[trigger] s[a]).indicator matches Some(
                            ind,
                        ) && ind.entity == gone) by {
                            if a != i as int && s[a].indicator is Some {
                                assert(olds[a].indicator->0.entity != gone);
                            }
                        }
                    }
                }
                match rec.indicator {
                    Some(ind) => Some(ind.entity),
                    None => None,
                }
            },
            None => None,
        }
    }

    /// Whether a cart collision at these heights collects the item: the
    /// item must be registered with a live indicator (it is mid-flight from
    /// a stomp) and must cross the cart at collection height.
    pub open spec fn cart_scores(self, item: EntityId, item_y: int, cart_y: int) -> bool {
        &&& exists|i: int|
            0 <= i < self.items@.len() && ((#[trigger] self.items@[i]).entity == item
                && self.items@[i].indicator is Some)
        &&& item_y >= cart_y + CART_HEIGHT - 100
    }

    /// An item has collided with the cart collector at the given heights.
    /// When that scores (`cart_scores`), the item's record is removed —
    /// the host despawns the item entity — its score delta is applied, and
    /// the indicator entity to despawn is returned; the indicator dies with
    /// its item on this same transition. Otherwise nothing changes.
    pub fn land_in_cart(&mut self, item: EntityId, item_y: i64, cart_y: i64) -> (r: Option<
        EntityId,
    >)
        requires
            old(self).wf(),
            -2_000_000_000 <= old(self).score.score <= 2_000_000_000,
            -1_000_000_000 <= item_y <= 1_000_000_000,
            -1_000_000_000 <= cart_y <= 1_000_000_000,
        ensures
            final(self).wf(),
            !old(self).cart_scores(item, item_y as int, cart_y as int) ==> final(self).items@
                == old(self).items@ && final(self).score == old(self).score && r is None,
            old(self).cart_scores(item, item_y as int, cart_y as int) ==> exists|i: int|
                0 <= i < old(self).items@.len() && ((#[trigger] old(self).items@[i]).entity == item
                    && old(self).items@[i].indicator is Some
                    && final(self).items@ == old(self).items@.remove(i)
                    && r == Some(old(self).items@[i].indicator->0.entity)
                    && final(self).score.score
                        == old(self).score.score + country_score(old(self).items@[i].country)),
            old(self).cart_scores(item, item_y as int, cart_y as int) ==> !has_item(
                final(self).items@,
                item,
            ),
            r matches Some(gone) ==> !uses_entity(final(self).items@, gone),
    {
        if !(item_y >= cart_y + CART_HEIGHT - 100) {
            return None;
        }
        match self.find_index(item) {
            Some(i) => {
                let rec = self.items[i];
                match rec.indicator {
                    Some(ind) => {
                        self.items.remove(i);
                        let delta = rec.country.scores();
                        self.score.score = self.score.score + delta;
                        proof {
                            let s = self.items@;
                            let olds = old(self).items@;
                            assert forall|a: int| 0 <= a < s.len() implies #[trigger] s[a] == (
                            if a < i as int {
                                olds[a]
                            } else {
                                olds[a + 1]
                            }) by {}
                            assert forall|a: int, b: int|
                                0 <= a < b < s.len() implies (#[trigger] s[a]).entity != (
                            #[trigger] s[b]).entity by {}
                            assert forall|a: int|
                                0 <= a < s.len() implies !((#[trigger] s[a]).entity == item) by {
                                if s[a].entity == item {
                                    let o = if a < i as int {
                                        a
                                    } else {
                                        a + 1
                                    };
                                    assert(olds[o].entity == olds[i as int].entity);
                                }
                            }
                            assert forall|a: int|
                                0 <= a < s.len() implies !((#[trigger] s[a]).indicator matches Some(
                                g,
                            ) && g.entity == ind.entity) by {
                                if s[a].indicator is Some {
                                    let o = if a < i as int {
                                        a
                                    } else {
                                        a + 1
                                    };
                                    assert(olds[o].indicator->0.entity != olds[
                                    i as int].indicator->0.entity);
                                }
                            }
                            assert forall|a: int|
                                0 <= a < s.len() implies !((#[trigger] s[a]).entity
                                == ind.entity) by {
                                let o = if a < i as int {
                                    a
                                } else {
                                    a + 1
                                };
                                assert(olds[i as int].indicator->0.entity != olds[o].entity);
                            }
                        }
                        Some(ind.entity)
                    },
                    None => {
                        proof {
                            assert forall|a: int|
                                0 <= a < old(self).items@.len() && (#[trigger] old(
                                    self,
                                ).items@[a]).entity == item implies old(
                                self,
                            ).items@[a].indicator is None by {
                                if a != i as int {
                                    assert(false);
                                }
                            }
                        }
                        None
                    },
                }
            },
            None => None,
        }
    }

    /// One entity the stomp wave reached: a registered item is sent flying
    /// and gets the falloff-scaled stomp impulse, a bystander from the
    /// `americans` list gets the plain push, and anything else (the player,
    /// say) is left alone. Returns the impulse the host applies.
    pub fn stomp_hit(
        &mut self,
        target: TrackedPosition,
        player: Vec3Fixed,
        settings: &StompResource,
        americans: &Vec<EntityId>,
    ) -> (r: Option<Vec3Fixed>)
        requires
            old(self).wf(),
            in_bounds(target.pos),
            in_bounds(player),
            stomp_settings_ok(*settings),
        ensures
            final(self).wf(),
            final(self).score == old(self).score,
            final(self).items@.len() == old(self).items@.len(),
            forall|i: int|
                0 <= i < old(self).items@.len() ==> #[trigger] final(self).items@[i] == (
                if old(self).items@[i].entity == target.entity {
                    ItemRecord { state: ItemState::InFlight, ..old(self).items@[i] }
                } else {
                    old(self).items@[i]
                }),
            has_item(old(self).items@, target.entity) ==> r == Some(
                stomp_impulse_spec(target.pos, player, *settings),
            ),
            !has_item(old(self).items@, target.entity) ==> r == (
            if americans@.contains(target.entity) {
                Some(american_impulse_spec(target.pos, player, settings.stomp_away_force as int))
            } else {
                Option::<Vec3Fixed>::None
            }),
    {
        if self.stomp_item(target.entity) {
            Some(stomp_impulse(target.pos, player, settings))
        } else if contains_entity(americans, target.entity) {
            Some(american_impulse(target.pos, player, settings.stomp_away_force))
        } else {
            None
        }
    }

    /// One whole stomp: queries the index for everything within the stomp
    /// radius of the player, sends the registered items among the hits
    /// flying, and returns the impulse for every hit that takes one, in
    /// query order — exactly `wave_impulses` over the in-range subset.
    pub fn stomp_wave(
        &mut self,
        index: &SpatialIndex,
        player: Vec3Fixed,
        settings: &StompResource,
        americans: &Vec<EntityId>,
    ) -> (r: Vec<(EntityId, Vec3Fixed)>)
        requires
            old(self).wf(),
            index.wf(),
            in_bounds(player),
            stomp_settings_ok(*settings),
        ensures
            final(self).wf(),
            final(self).score == old(self).score,
            final(self).items@.len() == old(self).items@.len(),
            forall|i: int|
                0 <= i < old(self).items@.len() ==> #[trigger] final(self).items@[i] == (
                if hit_among(
                    index.points().filter(
                        |p: TrackedPosition| in_range(p, player, settings.stomp_distance),
                    ),
                    old(self).items@[i].entity,
                ) {
                    ItemRecord { state: ItemState::InFlight, ..old(self).items@[i] }
                } else {
                    old(self).items@[i]
                }),
            r@ == wave_impulses(
                old(self).items@,
                index.points().filter(
                    |p: TrackedPosition| in_range(p, player, settings.stomp_distance),
                ),
                player,
                *settings,
                americans@,
            ),
    {
        let hits = index.entities_within(player, settings.stomp_distance);
        let ghost hseq = hits@;
        let ghost olds = old(self).items@;
        proof {
            crate::spatial::lemma_wf_points_in_bounds(index.root);
            let pred = |p: TrackedPosition| in_range(p, player, settings.stomp_distance);
            assert forall|k: int| 0 <= k < hseq.len() implies in_bounds(
                (#[trigger] hseq[k]).pos,
            ) by {
                assert(index.points().filter(pred)[k] == hseq[k]);
                assert(index.points().filter(pred).contains(hseq[k]));
                index.points().lemma_filter_contains_rev(pred, hseq[k]);
                let w = choose|w: int|
                    0 <= w < index.points().len() && index.points()[w] == hseq[k];
                assert(in_bounds(index.points()[w].pos));
            }
            assert(hseq.take(0) =~= Seq::<TrackedPosition>::empty());
        }
        let mut out: Vec<(EntityId, Vec3Fixed)> = Vec::new();
        let n = hits.len();
        let mut i: usize = 0;
        while i < n
            invariant
                0 <= i <= n,
                n == hseq.len(),
                hits@ == hseq,
                forall|k: int| 0 <= k < hseq.len() ==> in_bounds((#[trigger] hseq[k]).pos),
                in_bounds(player),
                stomp_settings_ok(*settings),
                self.wf(),
                self.score == old(self).score,
                olds == old(self).items@,
                self.items@.len() == olds.len(),
                forall|a: int|
                    0 <= a < olds.len() ==> #[trigger] self.items@[a] == (if hit_among(
                        hseq.take(i as int),
                        olds[a].entity,
                    ) {
                        ItemRecord { state: ItemState::InFlight, ..olds[a] }
                    } else {
                        olds[a]
                    }),
                out@ == wave_impulses(olds, hseq.take(i as int), player, *settings, americans@),
            decreases n - i,
        {
            let hit = hits[i];
            let ghost pre = self.items@;
            proof {
                assert forall|e: EntityId| has_item(pre, e) == has_item(olds, e) by {
                    if has_item(pre, e) {
                        let a = choose|a: int| 0 <= a < pre.len() && pre[a].entity == e;
                        assert(olds[a].entity == e);
                    }
                    if has_item(olds, e) {
                        let a = choose|a: int| 0 <= a < olds.len() && olds[a].entity == e;
                        assert(pre[a].entity == e);
                    }
                }
            }
            let impulse = self.stomp_hit(hit, player, settings, americans);
            match impulse {
                Some(imp) => {
                    out.push((hit.entity, imp));
                },
                None => {},
            }
            proof {
                let taken = hseq.take(i as int);
                let taken1 = hseq.take(i as int + 1);
                assert(taken1 =~= taken.push(hseq[i as int]));
                assert(taken1.drop_last() =~= taken);
                assert(taken1.last() == hseq[i as int]);
                assert forall|e: EntityId| hit_among(taken1, e) == (hit_among(taken, e)
                    || hseq[i as int].entity == e) by {
                    if hit_among(taken, e) {
                        let k = choose|k: int| 0 <= k < taken.len() && taken[k].entity == e;
                        assert(taken1[k].entity == e);
                    }
                    if hseq[i as int].entity == e {
                        assert(taken1[taken1.len() - 1].entity == e);
                    }
                    if hit_among(taken1, e) {
                        let k = choose|k: int| 0 <= k < taken1.len() && taken1[k].entity == e;
                        if k < taken.len() {
                            assert(taken[k].entity == e);
                        }
                    }
                }
                assert forall|a: int|
                    0 <= a < olds.len() implies #[trigger] self.items@[a] == (if hit_among(
                        taken1,
                        olds[a].entity,
                    ) {
                        ItemRecord { state: ItemState::InFlight, ..olds[a] }
                    } else {
                        olds[a]
                    }) by {
                    assert(pre[a].entity == olds[a].entity);
                }
                assert(out@ =~= wave_impulses(olds, taken, player, *settings, americans@)
                    + hit_impulse(olds, hseq[i as int], player, *settings, americans@));
            }
            i = i + 1;
        }
        proof {
            assert(hseq.take(n as int) =~= hseq);
        }
        out
    }
}

/// The impulse one hit of the stomp wave produces: the item fling, the
/// bystander push, or nothing for anything else.
pub open spec fn hit_impulse(
    items: Seq<ItemRecord>,
    hit: TrackedPosition,
    player: Vec3Fixed,
    settings: StompResource,
    americans: Seq<EntityId>,
) -> Seq<(EntityId, Vec3Fixed)> {
    if has_item(items, hit.entity) {
        seq![(hit.entity, stomp_impulse_spec(hit.pos, player, settings))]
    } else if americans.contains(hit.entity) {
        seq![
            (hit.entity, american_impulse_spec(hit.pos, player, settings.stomp_away_force as int)),
        ]
    } else {
        Seq::empty()
    }
}

/// All impulses of a stomp wave over the hit list, in order.
pub open spec fn wave_impulses(
    items: Seq<ItemRecord>,
    hits: Seq<TrackedPosition>,
    player: Vec3Fixed,
    settings: StompResource,
    americans: Seq<EntityId>,
) -> Seq<(EntityId, Vec3Fixed)>
    decreases hits.len(),
{
    if hits.len() == 0 {
        Seq::empty()
    } else {
        wave_impulses(items, hits.drop_last(), player, settings, americans) + hit_impulse(
            items,
            hits.last(),
            player,
            settings,
            americans,
        )
    }
}

/// Whether the hit list reaches entity `e`.
pub open spec fn hit_among(hits: Seq<TrackedPosition>, e: EntityId) -> bool {
    exists|k: int| 0 <= k < hits.len() && (#[trigger] hits[k]).entity == e
}

/// At most one landing indicator exists per in-flight item at any time: in
/// a consistent registry, two records sharing an indicator entity are the
/// same record, and only an in-flight item owns one.
pub proof fn lemma_indicator_unique(reg: ItemRegistry, i: int, j: int)
    requires
        reg.wf(),
        0 <= i < reg.items@.len(),
        0 <= j < reg.items@.len(),
        reg.items@[i].indicator is Some,
        reg.items@[j].indicator is Some,
        reg.items@[i].indicator->0.entity == reg.items@[j].indicator->0.entity,
    ensures
        i == j,
        reg.items@[i].state == ItemState::InFlight,
{
}

/// Whether the id list carries `e`.
pub fn contains_entity(v: &Vec<EntityId>, e: EntityId) -> (r: bool)
    ensures
        r == v@.contains(e),
{
    let n = v.len();
    let mut i: usize = 0;
    while i < n
        invariant
            0 <= i <= n,
            n == v@.len(),
            forall|k: int| 0 <= k < i ==> v@[k] != e,
        decreases n - i,
    {
        if v[i].0 == e.0 {
            return true;
        }
        i = i + 1;
    }
    false
}

/// The colliding entity whose parent is in `group`, preferring the second
/// entity of the pair as the host's event scan does.
pub open spec fn parent_in(
    links: Seq<(EntityId, EntityId)>,
    e: EntityId,
    group: Seq<EntityId>,
) -> Option<EntityId> {
    match parent_of(links, e) {
        Some(p) => if group.contains(p) {
            Some(p)
        } else {
            None
        },
        None => None,
    }
}

/// Which item, if any, a collision pair grounds: one collider's parent must
/// be a registered item and one collider's parent must be a floor.
pub open spec fn floor_landing_spec(
    links: Seq<(EntityId, EntityId)>,
    e1: EntityId,
    e2: EntityId,
    items: Seq<EntityId>,
    floors: Seq<EntityId>,
) -> Option<EntityId> {
    let item = if parent_in(links, e2, items) is Some {
        parent_in(links, e2, items)
    } else {
        parent_in(links, e1, items)
    };
    let floor_hit = parent_in(links, e1, floors) is Some || parent_in(links, e2, floors) is Some;
    if floor_hit {
        item
    } else {
        None
    }
}

/// Classifies a collision-start pair as an item landing on the floor,
/// returning the item entity to ground.
pub fn detect_floor_landing(
    links: &ParentLinks,
    e1: EntityId,
    e2: EntityId,
    items: &Vec<EntityId>,
    floors: &Vec<EntityId>,
) -> (r: Option<EntityId>)
    ensures
        r == floor_landing_spec(links.links@, e1, e2, items@, floors@),
{
    let mut item: Option<EntityId> = None;
    let mut floor_hit = false;
    match links.get_parent(e1) {
        Some(p) => {
            if contains_entity(items, p) {
                item = Some(p);
            }
            if contains_entity(floors, p) {
                floor_hit = true;
            }
        },
        None => {},
    }
    match links.get_parent(e2) {
        Some(p) => {
            if contains_entity(items, p) {
                item = Some(p);
            }
            if contains_entity(floors, p) {
                floor_hit = true;
            }
        },
        None => {},
    }
    if floor_hit {
        item
    } else {
        None
    }
}

/// Which item lands in which cart, if any, for a collision pair: one
/// collider's parent must be a registered item and the other collider must
/// itself be a cart collector.
pub open spec fn cart_landing_spec(
    links: Seq<(EntityId, EntityId)>,
    e1: EntityId,
    e2: EntityId,
    items: Seq<EntityId>,
    carts: Seq<EntityId>,
) -> Option<(EntityId, EntityId)> {
    let item = if parent_in(links, e2, items) is Some {
        parent_in(links, e2, items)
    } else {
        parent_in(links, e1, items)
    };
    let cart = if carts.contains(e2) {
        Some(e2)
    } else if carts.contains(e1) {
        Some(e1)
    } else {
        None
    };
    match (item, cart) {
        (Some(i), Some(c)) => Some((i, c)),
        _ => None,
    }
}

/// Classifies a collision-start pair as an item crossing into a cart
/// collector, returning the item and the cart; the height test and the
/// scoring are `land_in_cart`'s.
pub fn detect_cart_landing(
    links: &ParentLinks,
    e1: EntityId,
    e2: EntityId,
    items: &Vec<EntityId>,
    carts: &Vec<EntityId>,
) -> (r: Option<(EntityId, EntityId)>)
    ensures
        r == cart_landing_spec(links.links@, e1, e2, items@, carts@),
{
    let mut item: Option<EntityId> = None;
    match links.get_parent(e1) {
        Some(p) => {
            if contains_entity(items, p) {
                item = Some(p);
            }
        },
        None => {},
    }
    match links.get_parent(e2) {
        Some(p) => {
            if contains_entity(items, p) {
                item = Some(p);
            }
        },
        None => {},
    }
    let cart: Option<EntityId> = if contains_entity(carts, e2) {
        Some(e2)
    } else if contains_entity(carts, e1) {
        Some(e1)
    } else {
        None
    };
    match (item, cart) {
        (Some(i), Some(c)) => Some((i, c)),
        _ => None,
    }
}

} // verus!
