use shiloh::input::{Action, ActionMap, InputState, KeyCode, MouseButton};

#[test]
fn pressed_lasts_one_frame() {
    let mut s = InputState::new();
    s.key_down(KeyCode::Space);
    assert!(s.is_key_down(KeyCode::Space));
    assert!(s.is_key_pressed(KeyCode::Space));
    s.begin_frame();
    assert!(s.is_key_down(KeyCode::Space));
    assert!(!s.is_key_pressed(KeyCode::Space));
    s.key_up(KeyCode::Space);
    assert!(s.is_key_released(KeyCode::Space));
    assert!(!s.is_key_down(KeyCode::Space));
    s.begin_frame();
    assert!(!s.is_key_released(KeyCode::Space));
}

#[test]
fn mouse_buttons() {
    let mut s = InputState::default();
    s.mouse_down(MouseButton::Other(4));
    assert!(s.is_mouse_down(MouseButton::Other(4)));
    assert!(!s.is_mouse_down(MouseButton::Left));
    s.mouse_up(MouseButton::Other(4));
    assert!(!s.is_mouse_down(MouseButton::Other(4)));
}

#[test]
fn action_map_bindings() {
    let mut map = ActionMap::new();
    let jump = Action("jump");
    let mut s = InputState::new();
    s.key_down(KeyCode::Space);
    assert!(!map.pressed(&s, jump));
    map.bind_key(jump, KeyCode::Space);
    assert!(map.pressed(&s, jump));
    assert!(map.down(&s, jump));
    map.bind_key(jump, KeyCode::W);
    assert!(!map.down(&s, jump));
    assert!(!ActionMap::default().down(&s, Action("fire")));
}
