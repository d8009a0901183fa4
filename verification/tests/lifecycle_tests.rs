use cart_game::ballistic::GRAVITY;
use cart_game::entity::EntityId;
use cart_game::geom::Vec3Fixed;
use cart_game::hierarchy::ParentLinks;
use cart_game::items::ItemPickupCountry;
use cart_game::lifecycle::{
    detect_cart_landing, detect_floor_landing, ItemRegistry, ItemState, LandingIndicator,
};
use cart_game::spatial::{SpatialIndex, TrackedPosition};
use cart_game::stomp::StompResource;

fn v(x: i64, y: i64, z: i64) -> Vec3Fixed {
    Vec3Fixed { x, y, z }
}

#[test]
fn items_register_once() {
    let mut reg = ItemRegistry::new();
    assert!(reg.add_item(EntityId(1), ItemPickupCountry::CA));
    assert!(!reg.add_item(EntityId(1), ItemPickupCountry::USA));
    assert!(reg.add_item(EntityId(2), ItemPickupCountry::USA));
    assert_eq!(reg.items.len(), 2);
    assert_eq!(reg.items[0].state, ItemState::Grounded);
    assert!(reg.items[0].indicator.is_none());
}

#[test]
fn stomp_marks_registered_items_in_flight() {
    let mut reg = ItemRegistry::new();
    reg.add_item(EntityId(1), ItemPickupCountry::EU);
    assert!(reg.stomp_item(EntityId(1)));
    assert_eq!(reg.items[0].state, ItemState::InFlight);
    assert!(!reg.stomp_item(EntityId(9)));
}

#[test]
fn indicator_attaches_once_per_flight() {
    let mut reg = ItemRegistry::new();
    reg.add_item(EntityId(1), ItemPickupCountry::EU);
    // Not in flight yet: no indicator may appear.
    assert!(!reg.attach_indicator(EntityId(1), EntityId(100), v(0, 10, 0)));
    reg.stomp_item(EntityId(1));
    assert!(reg.attach_indicator(EntityId(1), EntityId(100), v(0, 10, 0)));
    // A second indicator for the same item is refused.
    assert!(!reg.attach_indicator(EntityId(1), EntityId(101), v(0, 10, 0)));
    assert_eq!(
        reg.items[0].indicator,
        Some(LandingIndicator { entity: EntityId(100), pos: v(0, 10, 0) })
    );
    // An indicator entity cannot serve two items either.
    reg.add_item(EntityId(2), ItemPickupCountry::CA);
    reg.stomp_item(EntityId(2));
    assert!(!reg.attach_indicator(EntityId(2), EntityId(100), v(0, 10, 0)));
    assert!(reg.attach_indicator(EntityId(2), EntityId(101), v(0, 10, 0)));
}

#[test]
fn indicator_follows_prediction_and_holds_on_lapse() {
    let mut reg = ItemRegistry::new();
    reg.add_item(EntityId(1), ItemPickupCountry::EU);
    reg.stomp_item(EntityId(1));
    reg.attach_indicator(EntityId(1), EntityId(100), v(0, 10, 0));
    // A falling item moves the indicator to the new prediction.
    let moved = reg.update_indicator(EntityId(1), v(0, 5000, 0), v(1000, 0, 2000), GRAVITY);
    assert_eq!(moved, Some(v(1009, 10, 2018)));
    assert_eq!(reg.items[0].indicator.unwrap().pos, v(1009, 10, 2018));
    // When the prediction lapses the indicator keeps its last position.
    let held = reg.update_indicator(EntityId(1), v(0, -5000, 0), v(0, 2000, 0), GRAVITY);
    assert_eq!(held, None);
    assert_eq!(reg.items[0].indicator.unwrap().pos, v(1009, 10, 2018));
}

#[test]
fn floor_landing_grounds_item_and_destroys_indicator() {
    let mut reg = ItemRegistry::new();
    reg.add_item(EntityId(1), ItemPickupCountry::EU);
    reg.stomp_item(EntityId(1));
    reg.attach_indicator(EntityId(1), EntityId(100), v(0, 10, 0));
    let gone = reg.land_on_floor(EntityId(1));
    assert_eq!(gone, Some(EntityId(100)));
    assert_eq!(reg.items[0].state, ItemState::Grounded);
    assert!(reg.items[0].indicator.is_none());
    assert!(!reg.uses(EntityId(100)));
    // The freed indicator id may be used again for the next flight.
    reg.stomp_item(EntityId(1));
    assert!(reg.attach_indicator(EntityId(1), EntityId(100), v(0, 10, 0)));
}

#[test]
fn cart_landing_scores_and_destroys_item_with_indicator() {
    let mut reg = ItemRegistry::new();
    reg.add_item(EntityId(1), ItemPickupCountry::CA);
    reg.stomp_item(EntityId(1));
    reg.attach_indicator(EntityId(1), EntityId(100), v(0, 10, 0));
    let gone = reg.land_in_cart(EntityId(1), 500, 0);
    assert_eq!(gone, Some(EntityId(100)));
    // The item entity and its indicator both left the registry together.
    assert!(!reg.uses(EntityId(1)));
    assert!(!reg.uses(EntityId(100)));
    assert_eq!(reg.items.len(), 0);
    assert_eq!(reg.score.score, 10);
}

#[test]
fn cart_landing_below_threshold_changes_nothing() {
    let mut reg = ItemRegistry::new();
    reg.add_item(EntityId(1), ItemPickupCountry::CA);
    reg.stomp_item(EntityId(1));
    reg.attach_indicator(EntityId(1), EntityId(100), v(0, 10, 0));
    assert_eq!(reg.land_in_cart(EntityId(1), 399, 0), None);
    assert_eq!(reg.items.len(), 1);
    assert_eq!(reg.score.score, 0);
}

#[test]
fn cart_landing_without_indicator_changes_nothing() {
    let mut reg = ItemRegistry::new();
    reg.add_item(EntityId(1), ItemPickupCountry::CA);
    reg.stomp_item(EntityId(1));
    assert_eq!(reg.land_in_cart(EntityId(1), 500, 0), None);
    assert_eq!(reg.items.len(), 1);
}

#[test]
fn negative_scores_accumulate() {
    let mut reg = ItemRegistry::new();
    reg.add_item(EntityId(1), ItemPickupCountry::USA);
    reg.stomp_item(EntityId(1));
    reg.attach_indicator(EntityId(1), EntityId(100), v(0, 10, 0));
    reg.land_in_cart(EntityId(1), 500, 0);
    assert_eq!(reg.score.score, -10);
    reg.add_item(EntityId(2), ItemPickupCountry::UK);
    reg.stomp_item(EntityId(2));
    reg.attach_indicator(EntityId(2), EntityId(100), v(0, 10, 0));
    reg.land_in_cart(EntityId(2), 500, 0);
    assert_eq!(reg.score.score, -7);
}

#[test]
fn stomp_hit_flings_items_and_pushes_americans() {
    let mut reg = ItemRegistry::new();
    reg.add_item(EntityId(1), ItemPickupCountry::CA);
    let settings = StompResource::default();
    let americans = vec![EntityId(50)];
    let player = v(0, 0, 0);

    let item_hit = TrackedPosition { entity: EntityId(1), pos: v(0, 0, 0) };
    assert_eq!(reg.stomp_hit(item_hit, player, &settings, &americans), Some(v(0, 80, -10)));
    assert_eq!(reg.items[0].state, ItemState::InFlight);

    let american_hit = TrackedPosition { entity: EntityId(50), pos: v(1000, 0, 0) };
    assert_eq!(reg.stomp_hit(american_hit, player, &settings, &americans), Some(v(-1000, 0, 0)));

    let player_hit = TrackedPosition { entity: EntityId(99), pos: v(0, 0, 0) };
    assert_eq!(reg.stomp_hit(player_hit, player, &settings, &americans), None);
}

#[test]
fn stomp_wave_reaches_near_items_only() {
    // The stomp wave around a player at the origin with radius five: an
    // item at distance 4.9 is flung, one at distance 5.1 is untouched, and
    // a bystander in range is pushed.
    let mut reg = ItemRegistry::new();
    reg.add_item(EntityId(1), ItemPickupCountry::CA);
    reg.add_item(EntityId(2), ItemPickupCountry::EU);
    let snapshot = vec![
        TrackedPosition { entity: EntityId(1), pos: v(4900, 0, 0) },
        TrackedPosition { entity: EntityId(2), pos: v(5100, 0, 0) },
        TrackedPosition { entity: EntityId(50), pos: v(1000, 0, 0) },
    ];
    let index = SpatialIndex::build(&snapshot);
    let settings = StompResource::default();
    let americans = vec![EntityId(50)];
    let impulses = reg.stomp_wave(&index, v(0, 0, 0), &settings, &americans);
    let mut hit_ids: Vec<u64> = impulses.iter().map(|(e, _)| e.0).collect();
    hit_ids.sort();
    assert_eq!(hit_ids, vec![1, 50]);
    assert_eq!(reg.items[0].state, ItemState::InFlight);
    assert_eq!(reg.items[1].state, ItemState::Grounded);
    // The bystander's push points straight away from the player.
    let bystander = impulses.iter().find(|(e, _)| e.0 == 50).unwrap();
    assert_eq!(bystander.1, v(-1000, 0, 0));
}

#[test]
fn floor_collision_pairs_are_classified_by_parents() {
    let mut links = ParentLinks::new();
    links.push_link(EntityId(11), EntityId(1)); // item collider -> item
    links.push_link(EntityId(21), EntityId(2)); // floor collider -> floor
    let items = vec![EntityId(1)];
    let floors = vec![EntityId(2)];
    assert_eq!(
        detect_floor_landing(&links, EntityId(11), EntityId(21), &items, &floors),
        Some(EntityId(1))
    );
    assert_eq!(
        detect_floor_landing(&links, EntityId(21), EntityId(11), &items, &floors),
        Some(EntityId(1))
    );
    // An item colliding with something that is no floor grounds nothing.
    assert_eq!(detect_floor_landing(&links, EntityId(11), EntityId(99), &items, &floors), None);
    // Two floors ground nothing.
    assert_eq!(detect_floor_landing(&links, EntityId(21), EntityId(21), &items, &floors), None);
}

#[test]
fn cart_collision_pairs_need_item_parent_and_cart_itself() {
    let mut links = ParentLinks::new();
    links.push_link(EntityId(11), EntityId(1)); // item collider -> item
    links.push_link(EntityId(31), EntityId(3)); // cart collider -> player
    let items = vec![EntityId(1)];
    let carts = vec![EntityId(31)];
    assert_eq!(
        detect_cart_landing(&links, EntityId(11), EntityId(31), &items, &carts),
        Some((EntityId(1), EntityId(31)))
    );
    assert_eq!(
        detect_cart_landing(&links, EntityId(31), EntityId(11), &items, &carts),
        Some((EntityId(1), EntityId(31)))
    );
    assert_eq!(detect_cart_landing(&links, EntityId(11), EntityId(99), &items, &carts), None);
}
