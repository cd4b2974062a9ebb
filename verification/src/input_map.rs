//! Which keys and mouse buttons are held down.
use vstd::prelude::*;

verus! {

/// The number of key codes: one past the last, `Cut`.
pub const NUM_KEYS: usize = 163;

/// The number of tracked mouse buttons: left and right.
pub const NUM_MOUSE_BUTTONS: usize = 2;

/// A mouse button as the window reports it.
#[derive(Clone, Copy, Debug, PartialEq, Eq, Structural)]
pub enum MouseButton {
    Left,
    Right,
    Middle,
    Other(u16),
}

/// The slot of a tracked mouse button.
pub open spec fn button_slot(button: MouseButton) -> Option<int> {
    match button {
        MouseButton::Left => Some(0),
        MouseButton::Right => Some(1),
        _ => None,
    }
}

/// The held keys, by key code, and the held left and right mouse buttons.
pub struct InputMap {
    state: Vec<bool>,
    mouse_state: [bool; 2],
}

impl InputMap {
    /// Whether each key is held, by key code.
    pub closed spec fn keys(&self) -> Seq<bool> {
        self.state@
    }

    /// Whether the left and the right button are held.
    pub closed spec fn buttons(&self) -> Seq<bool> {
        self.mouse_state@
    }

    pub open spec fn wf(&self) -> bool {
        self.keys().len() == NUM_KEYS && self.buttons().len() == NUM_MOUSE_BUTTONS
    }

    /// Nothing is held.
    pub fn new() -> (r: Self)
        ensures
            r.wf(),
            forall|k: int| 0 <= k < NUM_KEYS ==> !r.keys()[k],
            forall|b: int| 0 <= b < NUM_MOUSE_BUTTONS ==> !r.buttons()[b],
    {
        let mut state: Vec<bool> = Vec::new();
        let mut i: usize = 0;
        while i < NUM_KEYS
            invariant
                i <= NUM_KEYS,
                state@.len() == i,
                forall|k: int| 0 <= k < i ==> !state@[k],
            decreases NUM_KEYS - i,
        {
            state.push(false);
            i = i + 1;
        }
        InputMap { state, mouse_state: [false, false] }
    }

    /// Key `key` is now held.
    pub fn update_key_press(&mut self, key: usize)
        requires
            old(self).wf(),
            key < NUM_KEYS,
        ensures
            final(self).wf(),
            final(self).keys() == old(self).keys().update(key as int, true),
            final(self).buttons() == old(self).buttons(),
    {
        self.state.set(key, true);
    }

    /// Key `key` is no longer held.
    pub fn update_key_release(&mut self, key: usize)
        requires
            old(self).wf(),
            key < NUM_KEYS,
        ensures
            final(self).wf(),
            final(self).keys() == old(self).keys().update(key as int, false),
            final(self).buttons() == old(self).buttons(),
    {
        self.state.set(key, false);
    }

    /// The left or right button is now held; other buttons are not tracked.
    pub fn update_mouse_press(&mut self, button: MouseButton)
        requires
            old(self).wf(),
        ensures
            final(self).wf(),
            final(self).keys() == old(self).keys(),
            final(self).buttons() == match button_slot(button) {
                Some(i) => old(self).buttons().update(i, true),
                None => old(self).buttons(),
            },
    {
        match button {
            MouseButton::Left => self.mouse_state[0] = true,
            MouseButton::Right => self.mouse_state[1] = true,
            _ => {},
        }
        assert(self.mouse_state@ =~= match button_slot(button) {
            Some(i) => old(self).buttons().update(i, true),
            None => old(self).buttons(),
        });
    }

    /// The left or right button is no longer held; other buttons are not tracked.
    pub fn update_mouse_release(&mut self, button: MouseButton)
        requires
            old(self).wf(),
        ensures
            final(self).wf(),
            final(self).keys() == old(self).keys(),
            final(self).buttons() == match button_slot(button) {
                Some(i) => old(self).buttons().update(i, false),
                None => old(self).buttons(),
            },
    {
        match button {
            MouseButton::Left => self.mouse_state[0] = false,
            MouseButton::Right => self.mouse_state[1] = false,
            _ => {},
        }
        assert(self.mouse_state@ =~= match button_slot(button) {
            Some(i) => old(self).buttons().update(i, false),
            None => old(self).buttons(),
        });
    }

    /// Whether key `key` is held.
    pub fn is_pressed(&self, key: usize) -> (r: bool)
        requires
            self.wf(),
            key < NUM_KEYS,
        ensures
            r == self.keys()[key as int],
    {
        self.state[key]
    }

    /// Whether the button is held; untracked buttons never are.
    pub fn is_mouse_pressed(&self, button: MouseButton) -> (r: bool)
        requires
            self.wf(),
        ensures
            r == match button_slot(button) {
                Some(i) => self.buttons()[i],
                None => false,
            },
    {
        match button {
            MouseButton::Left => self.mouse_state[0],
            MouseButton::Right => self.mouse_state[1],
            _ => false,
        }
    }
}

/// A key reads as held exactly when its last press came after its last release: a press
/// makes it held and a release makes it free, whatever came before, and neither touches
/// the other keys.
pub proof fn lemma_press_release(m0: InputMap, m1: InputMap, m2: InputMap, key: int, other: int)
    requires
        m0.wf(),
        0 <= key < NUM_KEYS,
        0 <= other < NUM_KEYS,
        other != key,
        m1.keys() == m0.keys().update(key, true),
        m2.keys() == m1.keys().update(key, false),
    ensures
        m1.keys()[key],
        !m2.keys()[key],
        m2.keys()[other] == m0.keys()[other],
{
}

} // verus!
