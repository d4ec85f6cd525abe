use vstd::prelude::*;

use crate::input::Input;

verus! {

/// The number of the W key.
pub const KEY_W: u32 = 41;

/// The number of the S key.
pub const KEY_S: u32 = 37;

/// The number of the A key.
pub const KEY_A: u32 = 19;

/// The number of the D key.
pub const KEY_D: u32 = 22;

/// The number of the up arrow key.
pub const ARROW_UP: u32 = 82;

/// The number of the down arrow key.
pub const ARROW_DOWN: u32 = 79;

/// The number of the right mouse button.
pub const MOUSE_RIGHT: u32 = 1;

/// The camera motions that the held keys and buttons ask for: turning with
/// the mouse, and moving forward, backward, left, right, up and down.
#[derive(Clone, Copy, Debug, PartialEq, Eq, Structural)]
pub struct CameraControls {
    pub turn: bool,
    pub forward: bool,
    pub backward: bool,
    pub left: bool,
    pub right: bool,
    pub up: bool,
    pub down: bool,
}

/// Flies the first camera: the right mouse button held turns it; W, S, A, D
/// and the up and down arrows move it.
#[derive(Clone, Copy, Debug)]
pub struct CameraSystem;

impl CameraSystem {
    /// The motions asked for by what is held down now.
    pub fn controls(&self, input: &Input) -> (r: CameraControls)
        ensures
            r.turn == input.mouse_buttons().down.contains(MOUSE_RIGHT),
            r.forward == input.keys().down.contains(KEY_W),
            r.backward == input.keys().down.contains(KEY_S),
            r.left == input.keys().down.contains(KEY_A),
            r.right == input.keys().down.contains(KEY_D),
            r.up == input.keys().down.contains(ARROW_UP),
            r.down == input.keys().down.contains(ARROW_DOWN),
    {
        CameraControls {
            turn: input.mouse_button_down(MOUSE_RIGHT),
            forward: input.key_down(KEY_W),
            backward: input.key_down(KEY_S),
            left: input.key_down(KEY_A),
            right: input.key_down(KEY_D),
            up: input.key_down(ARROW_UP),
            down: input.key_down(ARROW_DOWN),
        }
    }
}

} // verus!
