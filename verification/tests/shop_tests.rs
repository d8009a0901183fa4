use cart_game::geom::Vec3Fixed;
use cart_game::shop::{pick_category, Category, MiscShelf, MiscShopObjects};

#[test]
fn shelf_scene_path_is_fixed() {
    assert_eq!(MiscShopObjects::Shelf.path(), "models/SM_Prop_Shop_Shelf_Basic_01.glb#Scene0");
    assert_eq!(MiscShelf.path(), "models/SM_Prop_Shop_Shelf_Basic_01.glb#Scene0");
}

#[test]
fn shelf_has_four_legs_and_three_boards() {
    let colliders = MiscShopObjects::Shelf.colliders_with_transforms();
    assert_eq!(colliders.len(), 7);
    assert_eq!(colliders[0].half_extents, Vec3Fixed { x: 35, y: 940, z: 47 });
    assert_eq!(colliders[0].offset, Vec3Fixed { x: -1430, y: 940, z: 395 });
    assert_eq!(colliders[6].half_extents, Vec3Fixed { x: 1400, y: 25, z: 450 });
    assert_eq!(colliders[6].offset, Vec3Fixed { x: 0, y: 1740, z: 0 });
    assert_eq!(MiscShelf.colliders_with_transforms().len(), 7);
}

#[test]
fn shelf_player_collider_blocks_whole_front() {
    let blocker = MiscShopObjects::Shelf.player_collider();
    assert_eq!(blocker.half_extents, Vec3Fixed { x: 1500, y: 950, z: 550 });
    assert_eq!(blocker.offset, Vec3Fixed { x: 0, y: 950, z: 0 });
}

#[test]
fn shelf_stocks_snacks_and_condiments_evenly() {
    let categories = MiscShelf.categories();
    assert_eq!(categories.len(), 2);
    assert_eq!(categories[0], (500, Category::Snacks));
    assert_eq!(categories[1], (500, Category::Condiments));
}

#[test]
fn weighted_pick_walks_cumulative_weights() {
    let dist = MiscShelf.categories();
    assert_eq!(pick_category(&dist, 0), Some(Category::Snacks));
    assert_eq!(pick_category(&dist, 499), Some(Category::Snacks));
    assert_eq!(pick_category(&dist, 500), Some(Category::Condiments));
    assert_eq!(pick_category(&dist, 999), Some(Category::Condiments));
}

#[test]
fn roll_past_total_weight_picks_nothing() {
    let dist = MiscShelf.categories();
    assert_eq!(pick_category(&dist, 1000), None);
    assert_eq!(pick_category(&Vec::new(), 0), None);
}

#[test]
fn zero_weight_category_is_skipped() {
    let dist = vec![(0, Category::Bakery), (10, Category::Dairy)];
    assert_eq!(pick_category(&dist, 0), Some(Category::Dairy));
    assert_eq!(pick_category(&dist, 9), Some(Category::Dairy));
    assert_eq!(pick_category(&dist, 10), None);
}
