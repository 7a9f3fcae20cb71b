use ahash::AHashMap;

use shiloh::hierarchy::{transform_update_order, Hierarchy};
use shiloh::selection::Entity;

fn e(i: u32) -> Entity {
    Entity { index: i, generation: 0 }
}

#[test]
fn parents_update_before_children() {
    // 0 <- 1 <- 2, listed child first; 3 is a root.
    let entities = vec![e(2), e(1), e(0), e(3)];
    let mut parents = AHashMap::new();
    parents.insert(e(2), e(1));
    parents.insert(e(1), e(0));
    let order = transform_update_order(&entities, &parents);
    assert_eq!(order, vec![e(0), e(3), e(1), e(2)]);
}

#[test]
fn child_after_parent_in_same_pass() {
    let entities = vec![e(0), e(1), e(2)];
    let mut parents = AHashMap::new();
    parents.insert(e(1), e(0));
    parents.insert(e(2), e(1));
    assert_eq!(transform_update_order(&entities, &parents), vec![e(0), e(1), e(2)]);
}

#[test]
fn orphans_are_roots_and_cycles_come_last() {
    let entities = vec![e(0), e(1), e(2), e(3)];
    let mut parents = AHashMap::new();
    parents.insert(e(0), e(9));
    parents.insert(e(1), e(2));
    parents.insert(e(2), e(1));
    assert_eq!(transform_update_order(&entities, &parents), vec![e(0), e(3), e(1), e(2)]);
}

#[test]
fn set_parent_moves_child_between_parents() {
    let mut h = Hierarchy::new();
    h.set_parent(e(1), e(0));
    h.set_parent(e(2), e(0));
    assert_eq!(h.children(e(0)), vec![e(1), e(2)]);
    assert_eq!(h.parent(e(1)), Some(e(0)));
    assert_eq!(h.parent(e(0)), None);
    h.set_parent(e(1), e(3));
    assert_eq!(h.children(e(0)), vec![e(2)]);
    assert_eq!(h.children(e(3)), vec![e(1)]);
    assert_eq!(h.parent(e(1)), Some(e(3)));
    // Attaching again under the same parent keeps one entry.
    h.set_parent(e(2), e(0));
    assert_eq!(h.children(e(0)), vec![e(2)]);
    assert!(h.children(e(5)).is_empty());
    let order = transform_update_order(&vec![e(1), e(3), e(2), e(0)], h.parents());
    assert_eq!(order, vec![e(3), e(0), e(1), e(2)]);
}

#[test]
fn unlisted_parent_counts_as_root() {
    // 1's parent 9 is not listed: 1 is a root, and its child 2 follows it.
    let mut parents = AHashMap::new();
    parents.insert(e(2), e(1));
    parents.insert(e(1), e(9));
    let order = transform_update_order(&vec![e(2), e(1)], &parents);
    assert_eq!(order, vec![e(1), e(2)]);
}

#[test]
fn parent_cycle_is_updated_last() {
    // 4 and 5 are each other's parent; 0 is a root.
    let mut parents = AHashMap::new();
    parents.insert(e(4), e(5));
    parents.insert(e(5), e(4));
    let order = transform_update_order(&vec![e(4), e(0), e(5)], &parents);
    assert_eq!(order, vec![e(0), e(4), e(5)]);
}
