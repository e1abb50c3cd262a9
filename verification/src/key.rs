//! Values that travel between the scanner, the debouncer and the event sink.

use vstd::prelude::*;

verus! {

/// Press/release record of one matrix cell.
#[derive(Clone, Copy, Debug, PartialEq, Eq, Structural)]
pub struct KeyState {
    /// True while the key counts as pressed.
    pub pressed: bool,
}

impl KeyState {
    /// A released key.
    pub fn new() -> (state: Self)
        ensures
            state == (KeyState { pressed: false }),
    {
        KeyState { pressed: false }
    }

    /// Flips the key between pressed and released.
    pub fn toggle_pressed(&mut self)
        ensures
            final(self).pressed == !old(self).pressed,
    {
        self.pressed = !self.pressed;
    }
}

impl Default for KeyState {
    fn default() -> (state: Self)
        ensures
            state == (KeyState { pressed: false }),
    {
        KeyState::new()
    }
}

/// A stable transition of one cell, handed to the event sink.
#[derive(Clone, Copy, Debug, PartialEq, Eq, Structural)]
pub struct KeyEvent {
    pub row: usize,
    pub col: usize,
    /// The state the key has after the transition.
    pub pressed: bool,
}

/// What the debouncer decided about one raw sample.
#[derive(Clone, Copy, Debug, PartialEq, Eq, Structural)]
pub enum DebounceState {
    /// The sample does not change the key's state (yet).
    NoChange,
    /// The key's state changed and the change is stable.
    Debounced,
}

} // verus!
