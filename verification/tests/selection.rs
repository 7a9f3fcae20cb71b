use shiloh::selection::{select_mode_for_modifiers, Entity, SelectMode, Selection};

fn e(i: u32) -> Entity {
    Entity { index: i, generation: 0 }
}

#[test]
fn replace_add_toggle() {
    let mut s = Selection::default();
    assert!(s.is_empty());
    s.select(e(1));
    assert_eq!(s.entities, vec![e(1)]);
    s.apply(e(2), SelectMode::Add);
    s.apply(e(2), SelectMode::Add);
    assert_eq!(s.entities, vec![e(1), e(2)]);
    assert_eq!(s.primary(), Some(e(1)));
    s.apply(e(1), SelectMode::Toggle);
    assert_eq!(s.entities, vec![e(2)]);
    assert!(!s.contains(e(1)));
    s.apply(e(1), SelectMode::Toggle);
    assert_eq!(s.entities, vec![e(2), e(1)]);
    assert_eq!(s.len(), 2);
    s.apply(e(3), SelectMode::Replace);
    assert_eq!(s.entities, vec![e(3)]);
    s.clear();
    assert_eq!(s.primary(), None);
}

#[test]
fn toggle_twice_restores_unselected() {
    let mut s = Selection { entities: vec![e(4), e(5)] };
    s.apply(e(6), SelectMode::Toggle);
    s.apply(e(6), SelectMode::Toggle);
    assert_eq!(s.entities, vec![e(4), e(5)]);
}

#[test]
fn generations_distinguish_entities() {
    let mut s = Selection::default();
    s.select(Entity { index: 1, generation: 0 });
    assert!(!s.contains(Entity { index: 1, generation: 1 }));
    assert_eq!(Entity { index: 9, generation: 2 }.index(), 9);
}

#[test]
fn modifiers_pick_mode() {
    assert_eq!(select_mode_for_modifiers(true, true, true), SelectMode::Add);
    assert_eq!(select_mode_for_modifiers(false, true, false), SelectMode::Toggle);
    assert_eq!(select_mode_for_modifiers(false, false, true), SelectMode::Toggle);
    assert_eq!(select_mode_for_modifiers(false, false, false), SelectMode::Replace);
    assert_eq!(SelectMode::default(), SelectMode::Replace);
}
