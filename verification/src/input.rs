use vstd::prelude::*;

use std::collections::HashSet;

verus! {

broadcast use vstd::std_specs::hash::group_hash_axioms;

/// The keys and mouse buttons held down, and those that went down or up
/// since the transitions were last cleared. Keys and buttons are given by
/// number.
#[derive(Debug)]
pub struct Input {
    keys_down: HashSet<u32>,
    keys_pressed: HashSet<u32>,
    keys_released: HashSet<u32>,
    mouse_buttons_down: HashSet<u32>,
    mouse_buttons_pressed: HashSet<u32>,
    mouse_buttons_released: HashSet<u32>,
}

/// One kind of button (keys, or mouse buttons): the ones held down, and
/// those that went down and up since the transitions were cleared.
pub struct ButtonState {
    pub down: Set<u32>,
    pub pressed: Set<u32>,
    pub released: Set<u32>,
}

/// The state after `button` goes down: a button that was up is now down and
/// has been pressed; a button already down changes nothing.
pub open spec fn after_press(s: ButtonState, button: u32) -> ButtonState {
    if s.down.contains(button) {
        s
    } else {
        ButtonState { down: s.down.insert(button), pressed: s.pressed.insert(button), released: s.released }
    }
}

/// The state after `button` goes up: a button that was down is now up and
/// has been released; a button already up changes nothing.
pub open spec fn after_release(s: ButtonState, button: u32) -> ButtonState {
    if s.down.contains(button) {
        ButtonState { down: s.down.remove(button), pressed: s.pressed, released: s.released.insert(button) }
    } else {
        s
    }
}

/// The state with the transitions forgotten: what is down stays down.
pub open spec fn after_clear(s: ButtonState) -> ButtonState {
    ButtonState { down: s.down, pressed: Set::empty(), released: Set::empty() }
}

/// Pressing a button that is already down changes nothing: a held button
/// is pressed once, not again on every repeat.
pub proof fn press_is_idempotent(s: ButtonState, button: u32)
    ensures
        after_press(after_press(s, button), button) == after_press(s, button),
        after_press(s, button).down.contains(button),
{
}

/// Releasing a button that is already up changes nothing.
pub proof fn release_is_idempotent(s: ButtonState, button: u32)
    ensures
        after_release(after_release(s, button), button) == after_release(s, button),
        !after_release(s, button).down.contains(button),
{
}

/// Forgetting the transitions keeps what is held down.
pub proof fn clear_keeps_down(s: ButtonState)
    ensures
        after_clear(s).down == s.down,
        after_clear(s).pressed.is_empty(),
        after_clear(s).released.is_empty(),
{
}

/// A button that was up, pressed and then released, is up again and shows
/// both transitions.
pub proof fn press_then_release(s: ButtonState, button: u32)
    requires
        !s.down.contains(button),
    ensures
        after_release(after_press(s, button), button).down == s.down,
        after_release(after_press(s, button), button).pressed.contains(button),
        after_release(after_press(s, button), button).released.contains(button),
{
    assert(after_release(after_press(s, button), button).down =~= s.down);
}

impl Input {
    /// The state of the keys.
    pub closed spec fn keys(&self) -> ButtonState {
        ButtonState { down: self.keys_down@, pressed: self.keys_pressed@, released: self.keys_released@ }
    }

    /// The state of the mouse buttons.
    pub closed spec fn mouse_buttons(&self) -> ButtonState {
        ButtonState {
            down: self.mouse_buttons_down@,
            pressed: self.mouse_buttons_pressed@,
            released: self.mouse_buttons_released@,
        }
    }

    /// Nothing down, nothing pressed or released.
    pub fn new() -> (r: Self)
        ensures
            r.keys() == (ButtonState { down: Set::empty(), pressed: Set::empty(), released: Set::empty() }),
            r.mouse_buttons() == (ButtonState { down: Set::empty(), pressed: Set::empty(), released: Set::empty() }),
    {
        Input {
            keys_down: HashSet::new(),
            keys_pressed: HashSet::new(),
            keys_released: HashSet::new(),
            mouse_buttons_down: HashSet::new(),
            mouse_buttons_pressed: HashSet::new(),
            mouse_buttons_released: HashSet::new(),
        }
    }

    /// Forgets which keys and buttons went down or up; what is held down
    /// stays down.
    pub fn clear_transitions(&mut self)
        ensures
            final(self).keys() == after_clear(old(self).keys()),
            final(self).mouse_buttons() == after_clear(old(self).mouse_buttons()),
    {
        self.keys_pressed.clear();
        self.keys_released.clear();
        self.mouse_buttons_pressed.clear();
        self.mouse_buttons_released.clear();
    }

    /// Records that `key` went down.
    pub fn press_key(&mut self, key: u32)
        ensures
            final(self).keys() == after_press(old(self).keys(), key),
            final(self).mouse_buttons() == old(self).mouse_buttons(),
    {
        if self.keys_down.insert(key) {
            self.keys_pressed.insert(key);
        }
        assert(self.keys().down =~= after_press(old(self).keys(), key).down);
        assert(self.keys().pressed =~= after_press(old(self).keys(), key).pressed);
        assert(self.keys().released =~= after_press(old(self).keys(), key).released);
    }

    /// Records that `key` went up.
    pub fn release_key(&mut self, key: u32)
        ensures
            final(self).keys() == after_release(old(self).keys(), key),
            final(self).mouse_buttons() == old(self).mouse_buttons(),
    {
        if self.keys_down.remove(&key) {
            self.keys_released.insert(key);
        }
        assert(self.keys().down =~= after_release(old(self).keys(), key).down);
        assert(self.keys().pressed =~= after_release(old(self).keys(), key).pressed);
        assert(self.keys().released =~= after_release(old(self).keys(), key).released);
    }

    /// Whether `key` is held down.
    pub fn key_down(&self, key: u32) -> (r: bool)
        ensures
            r == self.keys().down.contains(key),
    {
        self.keys_down.contains(&key)
    }

    /// Whether `key` went down since the transitions were cleared.
    pub fn key_pressed(&self, key: u32) -> (r: bool)
        ensures
            r == self.keys().pressed.contains(key),
    {
        self.keys_pressed.contains(&key)
    }

    /// Whether `key` went up since the transitions were cleared.
    pub fn key_released(&self, key: u32) -> (r: bool)
        ensures
            r == self.keys().released.contains(key),
    {
        self.keys_released.contains(&key)
    }

    /// Records that the mouse button `button` went down.
    pub fn press_mouse_button(&mut self, button: u32)
        ensures
            final(self).mouse_buttons() == after_press(old(self).mouse_buttons(), button),
            final(self).keys() == old(self).keys(),
    {
        if self.mouse_buttons_down.insert(button) {
            self.mouse_buttons_pressed.insert(button);
        }
        assert(self.mouse_buttons().down =~= after_press(old(self).mouse_buttons(), button).down);
        assert(self.mouse_buttons().pressed =~= after_press(old(self).mouse_buttons(), button).pressed);
        assert(self.mouse_buttons().released =~= after_press(old(self).mouse_buttons(), button).released);
    }

    /// Records that the mouse button `button` went up.
    pub fn release_mouse_button(&mut self, button: u32)
        ensures
            final(self).mouse_buttons() == after_release(old(self).mouse_buttons(), button),
            final(self).keys() == old(self).keys(),
    {
        if self.mouse_buttons_down.remove(&button) {
            self.mouse_buttons_released.insert(button);
        }
        assert(self.mouse_buttons().down =~= after_release(old(self).mouse_buttons(), button).down);
        assert(self.mouse_buttons().pressed =~= after_release(old(self).mouse_buttons(), button).pressed);
        assert(self.mouse_buttons().released =~= after_release(old(self).mouse_buttons(), button).released);
    }

    /// Whether the mouse button `button` is held down.
    pub fn mouse_button_down(&self, button: u32) -> (r: bool)
        ensures
            r == self.mouse_buttons().down.contains(button),
    {
        self.mouse_buttons_down.contains(&button)
    }

    /// Whether the mouse button `button` went down since the transitions
    /// were cleared.
    pub fn mouse_button_pressed(&self, button: u32) -> (r: bool)
        ensures
            r == self.mouse_buttons().pressed.contains(button),
    {
        self.mouse_buttons_pressed.contains(&button)
    }

    /// Whether the mouse button `button` went up since the transitions were
    /// cleared.
    pub fn mouse_button_released(&self, button: u32) -> (r: bool)
        ensures
            r == self.mouse_buttons().released.contains(button),
    {
        self.mouse_buttons_released.contains(&button)
    }
}

impl Default for Input {
    /// Nothing down, nothing pressed or released.
    fn default() -> (r: Self)
        ensures
            r.keys() == (ButtonState { down: Set::empty(), pressed: Set::empty(), released: Set::empty() }),
            r.mouse_buttons() == (ButtonState { down: Set::empty(), pressed: Set::empty(), released: Set::empty() }),
    {
        Input::new()
    }
}

} // verus!
