use cart_game::items::{ColorMilli, ItemPickupCountry};

#[test]
fn scores_per_country_are_exact() {
    assert_eq!(ItemPickupCountry::USA.scores(), -10);
    assert_eq!(ItemPickupCountry::CA.scores(), 10);
    assert_eq!(ItemPickupCountry::Mexico.scores(), 5);
    assert_eq!(ItemPickupCountry::EU.scores(), 2);
    assert_eq!(ItemPickupCountry::UK.scores(), 3);
    assert_eq!(ItemPickupCountry::China.scores(), -1);
}

#[test]
fn asset_paths_name_each_flag() {
    assert_eq!(ItemPickupCountry::USA.asset_path(), "images/fl_us.png");
    assert_eq!(ItemPickupCountry::CA.asset_path(), "images/fl_ca.png");
    assert_eq!(ItemPickupCountry::Mexico.asset_path(), "images/fl_mx.png");
    assert_eq!(ItemPickupCountry::EU.asset_path(), "images/fl_eu.png");
    assert_eq!(ItemPickupCountry::UK.asset_path(), "images/fl_uk.png");
    assert_eq!(ItemPickupCountry::China.asset_path(), "images/fl_cn.png");
}

#[test]
fn highlight_is_green_for_positive_scores_only() {
    let green = ColorMilli { red: 0, green: 100, blue: 0 };
    let red = ColorMilli { red: 100, green: 0, blue: 0 };
    assert_eq!(ItemPickupCountry::CA.highlight_color(), green);
    assert_eq!(ItemPickupCountry::Mexico.highlight_color(), green);
    assert_eq!(ItemPickupCountry::USA.highlight_color(), red);
    assert_eq!(ItemPickupCountry::China.highlight_color(), red);
}

#[test]
fn from_index_covers_all_origins() {
    assert_eq!(ItemPickupCountry::from_index(0), ItemPickupCountry::USA);
    assert_eq!(ItemPickupCountry::from_index(1), ItemPickupCountry::CA);
    assert_eq!(ItemPickupCountry::from_index(2), ItemPickupCountry::Mexico);
    assert_eq!(ItemPickupCountry::from_index(3), ItemPickupCountry::EU);
    assert_eq!(ItemPickupCountry::from_index(4), ItemPickupCountry::UK);
    assert_eq!(ItemPickupCountry::from_index(5), ItemPickupCountry::China);
}
