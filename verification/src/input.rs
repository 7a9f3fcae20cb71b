//! Keyboard and mouse button state, double-buffered per frame (current vs
//! previous), and logical actions bound to keys.
//!
//! Pointer position and scroll deltas (floating point) are tracked by the
//! platform layer beside this state.

use vstd::prelude::*;

use ahash::{AHashMap, AHashSet};

use crate::collections::{
    action_bindings, action_bindings_get, action_bindings_insert, action_bindings_new, button_set,
    button_set_clone, button_set_contains, button_set_insert, button_set_new, button_set_remove,
    key_set, key_set_clone, key_set_contains, key_set_insert, key_set_new, key_set_remove,
};

verus! {

/// Keyboard keys.
#[derive(Debug, Clone, Copy, PartialEq, Eq, Structural, Hash)]
pub enum KeyCode {
    A,
    B,
    C,
    D,
    E,
    F,
    G,
    H,
    I,
    J,
    K,
    L,
    M,
    N,
    O,
    P,
    Q,
    R,
    S,
    T,
    U,
    V,
    W,
    X,
    Y,
    Z,
    Space,
    Escape,
    Enter,
    LeftShift,
    LeftCtrl,
    ArrowUp,
    ArrowDown,
    ArrowLeft,
    ArrowRight,
    Digit1,
    Digit2,
    Digit3,
    Unknown,
}

/// Mouse buttons.
#[derive(Debug, Clone, Copy, PartialEq, Eq, Structural, Hash)]
pub enum MouseButton {
    Left,
    Right,
    Middle,
    Other(u16),
}

/// Gamepad buttons.
#[derive(Debug, Clone, Copy, PartialEq, Eq, Structural, Hash)]
pub enum GamepadButton {
    South,
    East,
    West,
    North,
    LeftShoulder,
    RightShoulder,
    Start,
    Select,
}

/// A logical action, named.
#[derive(Debug, Clone, Copy, PartialEq, Eq, Hash)]
pub struct Action(pub &'static str);

/// Buttons held during one frame.
struct FrameButtons {
    keys: AHashSet<KeyCode>,
    mouse: AHashSet<MouseButton>,
}

impl FrameButtons {
    fn new() -> (f: Self)
        ensures
            key_set(f.keys).is_empty(),
            button_set(f.mouse).is_empty(),
    {
        FrameButtons { keys: key_set_new(), mouse: button_set_new() }
    }

    fn copy(&self) -> (f: Self)
        ensures
            key_set(f.keys) == key_set(self.keys),
            button_set(f.mouse) == button_set(self.mouse),
    {
        FrameButtons { keys: key_set_clone(&self.keys), mouse: button_set_clone(&self.mouse) }
    }
}

/// Double-buffered button snapshot: this frame and the one before.
pub struct InputState {
    current: FrameButtons,
    previous: FrameButtons,
}

/// What an [`InputState`] holds: the keys and mouse buttons held this frame
/// and in the previous one.
pub struct InputView {
    pub keys_down: Set<KeyCode>,
    pub keys_before: Set<KeyCode>,
    pub buttons_down: Set<MouseButton>,
    pub buttons_before: Set<MouseButton>,
}

impl InputView {
    /// A new frame begins: this frame's buttons become the previous frame's.
    pub open spec fn begin_frame(self) -> InputView {
        InputView { keys_before: self.keys_down, buttons_before: self.buttons_down, ..self }
    }

    pub open spec fn key_down(self, key: KeyCode) -> InputView {
        InputView { keys_down: self.keys_down.insert(key), ..self }
    }

    pub open spec fn key_up(self, key: KeyCode) -> InputView {
        InputView { keys_down: self.keys_down.remove(key), ..self }
    }

    pub open spec fn mouse_down(self, button: MouseButton) -> InputView {
        InputView { buttons_down: self.buttons_down.insert(button), ..self }
    }

    pub open spec fn mouse_up(self, button: MouseButton) -> InputView {
        InputView { buttons_down: self.buttons_down.remove(button), ..self }
    }

    /// Held now, not held in the previous frame.
    pub open spec fn pressed(self, key: KeyCode) -> bool {
        self.keys_down.contains(key) && !self.keys_before.contains(key)
    }

    /// Not held now, held in the previous frame.
    pub open spec fn released(self, key: KeyCode) -> bool {
        !self.keys_down.contains(key) && self.keys_before.contains(key)
    }
}

impl View for InputState {
    type V = InputView;

    closed spec fn view(&self) -> InputView {
        InputView {
            keys_down: key_set(self.current.keys),
            keys_before: key_set(self.previous.keys),
            buttons_down: button_set(self.current.mouse),
            buttons_before: button_set(self.previous.mouse),
        }
    }
}

/// Nothing held, now or before.
pub open spec fn no_input() -> InputView {
    InputView {
        keys_down: Set::empty(),
        keys_before: Set::empty(),
        buttons_down: Set::empty(),
        buttons_before: Set::empty(),
    }
}

impl InputState {
    /// Nothing held, now or before.
    pub fn new() -> (s: Self)
        ensures
            s@ == no_input(),
    {
        let s = InputState { current: FrameButtons::new(), previous: FrameButtons::new() };
        assert(s@.keys_down =~= Set::empty());
        assert(s@.keys_before =~= Set::empty());
        assert(s@.buttons_down =~= Set::empty());
        assert(s@.buttons_before =~= Set::empty());
        s
    }

    /// Call once at the start of each frame before pumping events: this frame's
    /// buttons become the previous frame's.
    pub fn begin_frame(&mut self)
        ensures
            final(self)@ == old(self)@.begin_frame(),
    {
        self.previous = self.current.copy();
    }

    pub fn key_down(&mut self, key: KeyCode)
        ensures
            final(self)@ == old(self)@.key_down(key),
    {
        key_set_insert(&mut self.current.keys, key);
    }

    pub fn key_up(&mut self, key: KeyCode)
        ensures
            final(self)@ == old(self)@.key_up(key),
    {
        key_set_remove(&mut self.current.keys, key);
    }

    pub fn mouse_down(&mut self, button: MouseButton)
        ensures
            final(self)@ == old(self)@.mouse_down(button),
    {
        button_set_insert(&mut self.current.mouse, button);
    }

    pub fn mouse_up(&mut self, button: MouseButton)
        ensures
            final(self)@ == old(self)@.mouse_up(button),
    {
        button_set_remove(&mut self.current.mouse, button);
    }

    /// Held this frame.
    pub fn is_key_down(&self, key: KeyCode) -> (b: bool)
        ensures
            b == self@.keys_down.contains(key),
    {
        key_set_contains(&self.current.keys, key)
    }

    /// Went down this frame: held now, not held in the previous frame.
    pub fn is_key_pressed(&self, key: KeyCode) -> (b: bool)
        ensures
            b == self@.pressed(key),
    {
        key_set_contains(&self.current.keys, key) && !key_set_contains(&self.previous.keys, key)
    }

    /// Went up this frame: not held now, held in the previous frame.
    pub fn is_key_released(&self, key: KeyCode) -> (b: bool)
        ensures
            b == self@.released(key),
    {
        !key_set_contains(&self.current.keys, key) && key_set_contains(&self.previous.keys, key)
    }

    pub fn is_mouse_down(&self, button: MouseButton) -> (b: bool)
        ensures
            b == self@.buttons_down.contains(button),
    {
        button_set_contains(&self.current.mouse, button)
    }
}

/// A key reads as pressed only on the frame it goes down: right after a new
/// frame begins nothing is pressed, pressing a key then reads as pressed
/// exactly when it was not already held, and releasing a key then reads as
/// released exactly when it was held.
pub proof fn law_pressed_lasts_one_frame(v: InputView, key: KeyCode)
    ensures
        forall|k: KeyCode| !#[trigger] v.begin_frame().pressed(k),
        forall|k: KeyCode| !#[trigger] v.begin_frame().released(k),
        v.begin_frame().key_down(key).pressed(key) == !v.keys_down.contains(key),
        v.begin_frame().key_up(key).released(key) == v.keys_down.contains(key),
{
}

/// Pressing and then releasing a key leaves it not held, and the rest of the
/// state as it was without the key.
pub proof fn law_key_down_then_up(v: InputView, key: KeyCode)
    ensures
        v.key_down(key).key_up(key) == v.key_up(key),
        !v.key_down(key).key_up(key).keys_down.contains(key),
{
    assert(v.keys_down.insert(key).remove(key) =~= v.keys_down.remove(key));
}

/// Each event touches only its own key or button: pressing a key or button
/// holds it, releasing it lets it go, and every other key and button, this
/// frame and the previous one, reads as before.
pub proof fn law_events_touch_one_input(v: InputView, key: KeyCode, button: MouseButton)
    ensures
        v.key_down(key).keys_down.contains(key),
        !v.key_up(key).keys_down.contains(key),
        v.mouse_down(button).buttons_down.contains(button),
        !v.mouse_up(button).buttons_down.contains(button),
        forall|k: KeyCode|
            k != key ==> (#[trigger] v.key_down(key).keys_down.contains(k) == v.keys_down.contains(k)
                && v.key_up(key).keys_down.contains(k) == v.keys_down.contains(k)),
        forall|b: MouseButton|
            b != button ==> (#[trigger] v.mouse_down(button).buttons_down.contains(b)
                == v.buttons_down.contains(b) && v.mouse_up(button).buttons_down.contains(b)
                == v.buttons_down.contains(b)),
        v.key_down(key).buttons_down == v.buttons_down && v.key_up(key).buttons_down == v.buttons_down,
        v.mouse_down(button).keys_down == v.keys_down && v.mouse_up(button).keys_down == v.keys_down,
        v.key_down(key).keys_before == v.keys_before && v.key_up(key).keys_before == v.keys_before,
        v.mouse_down(button).buttons_before == v.buttons_before && v.mouse_up(button).buttons_before
            == v.buttons_before,
{
}

/// Logical actions mapped to keys.
pub struct ActionMap {
    keys: AHashMap<Action, KeyCode>,
}

impl ActionMap {
    /// The key bound to each action name.
    pub closed spec fn bindings(&self) -> Map<Seq<char>, KeyCode> {
        action_bindings(self.keys)
    }

    /// No bindings.
    pub fn new() -> (m: Self)
        ensures
            m.bindings().dom().is_empty(),
    {
        ActionMap { keys: action_bindings_new() }
    }

    /// Bind `action` to `key`, replacing its earlier binding.
    pub fn bind_key(&mut self, action: Action, key: KeyCode)
        ensures
            final(self).bindings() == old(self).bindings().insert(action.0@, key),
    {
        action_bindings_insert(&mut self.keys, action, key);
    }

    /// The action's key went down this frame (false when unbound).
    pub fn pressed(&self, input: &InputState, action: Action) -> (b: bool)
        ensures
            b == (self.bindings().dom().contains(action.0@) && input@.pressed(
                self.bindings()[action.0@],
            )),
    {
        match action_bindings_get(&self.keys, action) {
            Some(k) => input.is_key_pressed(k),
            None => false,
        }
    }

    /// The action's key is held (false when unbound).
    pub fn down(&self, input: &InputState, action: Action) -> (b: bool)
        ensures
            b == (self.bindings().dom().contains(action.0@) && input@.keys_down.contains(
                self.bindings()[action.0@],
            )),
    {
        match action_bindings_get(&self.keys, action) {
            Some(k) => input.is_key_down(k),
            None => false,
        }
    }
}

impl Default for ActionMap {
    fn default() -> (m: Self)
        ensures
            m.bindings().dom().is_empty(),
    {
        ActionMap::new()
    }
}

impl Default for InputState {
    fn default() -> (s: Self)
        ensures
            s@ == no_input(),
    {
        InputState::new()
    }
}

} // verus!
