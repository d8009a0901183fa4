use cart_game::entity::EntityId;
use cart_game::hierarchy::{HierarchyError, ParentLinks};

#[test]
fn root_entity_resolves_to_itself() {
    let links = ParentLinks::new();
    assert_eq!(links.resolve_root(EntityId(7)), Ok(EntityId(7)));
}

#[test]
fn entity_with_no_link_resolves_to_itself_among_links() {
    let mut links = ParentLinks::new();
    links.push_link(EntityId(1), EntityId(2));
    links.push_link(EntityId(2), EntityId(3));
    assert_eq!(links.resolve_root(EntityId(9)), Ok(EntityId(9)));
}

#[test]
fn chain_of_depth_three_resolves_to_top() {
    let mut links = ParentLinks::new();
    links.push_link(EntityId(1), EntityId(2));
    links.push_link(EntityId(2), EntityId(3));
    links.push_link(EntityId(3), EntityId(4));
    assert_eq!(links.resolve_root(EntityId(1)), Ok(EntityId(4)));
    assert_eq!(links.resolve_root(EntityId(2)), Ok(EntityId(4)));
    assert_eq!(links.resolve_root(EntityId(4)), Ok(EntityId(4)));
}

#[test]
fn forest_resolves_each_tree_separately() {
    let mut links = ParentLinks::new();
    links.push_link(EntityId(10), EntityId(11));
    links.push_link(EntityId(20), EntityId(21));
    assert_eq!(links.resolve_root(EntityId(10)), Ok(EntityId(11)));
    assert_eq!(links.resolve_root(EntityId(20)), Ok(EntityId(21)));
}

#[test]
fn two_cycle_is_detected() {
    let mut links = ParentLinks::new();
    links.push_link(EntityId(1), EntityId(2));
    links.push_link(EntityId(2), EntityId(1));
    assert_eq!(links.resolve_root(EntityId(1)), Err(HierarchyError::CycleDetected));
}

#[test]
fn self_cycle_is_detected() {
    let mut links = ParentLinks::new();
    links.push_link(EntityId(5), EntityId(5));
    assert_eq!(links.resolve_root(EntityId(5)), Err(HierarchyError::CycleDetected));
}

#[test]
fn tail_into_cycle_is_detected() {
    let mut links = ParentLinks::new();
    links.push_link(EntityId(1), EntityId(2));
    links.push_link(EntityId(2), EntityId(3));
    links.push_link(EntityId(3), EntityId(2));
    assert_eq!(links.resolve_root(EntityId(1)), Err(HierarchyError::CycleDetected));
}

#[test]
fn get_parent_finds_only_linked_children() {
    let mut links = ParentLinks::new();
    links.push_link(EntityId(1), EntityId(2));
    assert_eq!(links.get_parent(EntityId(1)), Some(EntityId(2)));
    assert_eq!(links.get_parent(EntityId(2)), None);
}
