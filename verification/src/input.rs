//! What the player asks for: the keys that are down and how far the mouse
//! has moved.

use vstd::prelude::*;
use crate::scalar::Scalar;

verus! {

/// The button of the mouse that grabs.
pub const GRAB_BUTTON: u32 = 0;

/// A key that means something to the actor, or any other key.
#[derive(Clone, Copy, Debug, PartialEq, Eq, Structural)]
pub enum Key {
    W,
    S,
    A,
    D,
    Space,
    C,
    R,
    F,
    Q,
    E,
    LShift,
    Other,
}

/// What the player asks for.
#[derive(Clone, Copy, Debug, PartialEq, Eq, Structural)]
pub struct InputState {
    pub forward: bool,
    pub back: bool,
    pub left: bool,
    pub right: bool,
    pub up: bool,
    pub down: bool,
    pub ana: bool,
    pub kata: bool,
    pub roll_left: bool,
    pub roll_right: bool,
    /// How far the mouse has moved sideways since the last events.
    pub yaw: Scalar,
    /// How far the mouse has moved up or down since the last events.
    pub pitch: Scalar,
    pub hyperlook: bool,
    pub grab: bool,
    pub center_grab: bool,
}

impl InputState {
    /// Nothing asked for.
    pub open spec fn spec_default() -> InputState {
        InputState {
            forward: false,
            back: false,
            left: false,
            right: false,
            up: false,
            down: false,
            ana: false,
            kata: false,
            roll_left: false,
            roll_right: false,
            yaw: Scalar { bits: 0 },
            pitch: Scalar { bits: 0 },
            hyperlook: false,
            grab: false,
            center_grab: false,
        }
    }

    /// The state after `key` went down or up.
    pub open spec fn with_key(self, key: Key, pressed: bool) -> InputState {
        match key {
            Key::W => InputState { forward: pressed, ..self },
            Key::S => InputState { back: pressed, ..self },
            Key::A => InputState { left: pressed, ..self },
            Key::D => InputState { right: pressed, ..self },
            Key::Space => InputState { up: pressed, ..self },
            Key::C => InputState { down: pressed, ..self },
            Key::R => InputState { ana: pressed, ..self },
            Key::F => InputState { kata: pressed, ..self },
            Key::Q => InputState { roll_left: pressed, ..self },
            Key::E => InputState { roll_right: pressed, ..self },
            Key::LShift => InputState { hyperlook: pressed, ..self },
            Key::Other => self,
        }
    }

    /// A new round of events begins: the mouse has not moved yet.
    pub fn new_events(&mut self)
        ensures
            *final(self) == (InputState {
                yaw: Scalar { bits: 0 },
                pitch: Scalar { bits: 0 },
                ..*old(self)
            }),
    {
        self.yaw = Scalar::zero();
        self.pitch = Scalar::zero();
    }

    /// A key went down or up.
    pub fn keyboard_event(&mut self, key: Key, pressed: bool)
        ensures
            *final(self) == old(self).with_key(key, pressed),
    {
        let now = *self;
        *self = match key {
            Key::W => InputState { forward: pressed, ..now },
            Key::S => InputState { back: pressed, ..now },
            Key::A => InputState { left: pressed, ..now },
            Key::D => InputState { right: pressed, ..now },
            Key::Space => InputState { up: pressed, ..now },
            Key::C => InputState { down: pressed, ..now },
            Key::R => InputState { ana: pressed, ..now },
            Key::F => InputState { kata: pressed, ..now },
            Key::Q => InputState { roll_left: pressed, ..now },
            Key::E => InputState { roll_right: pressed, ..now },
            Key::LShift => InputState { hyperlook: pressed, ..now },
            Key::Other => now,
        };
    }

    /// The mouse has moved by `x` sideways and by `y` up or down.
    pub fn mouse_moved(&mut self, x: Scalar, y: Scalar)
        ensures
            *final(self) == (InputState { yaw: x, pitch: y, ..*old(self) }),
    {
        self.yaw = x;
        self.pitch = y;
    }

    /// A button of the mouse went down or up. Only the grab button is
    /// heeded.
    pub fn mouse_click(&mut self, button: u32, pressed: bool)
        ensures
            *final(self) == (if button == GRAB_BUTTON {
                InputState { grab: pressed, ..*old(self) }
            } else {
                *old(self)
            }),
    {
        if button == GRAB_BUTTON {
            self.grab = pressed;
        }
    }
}

impl Default for InputState {
    fn default() -> (r: InputState)
        ensures
            r == InputState::spec_default(),
    {
        InputState {
            forward: false,
            back: false,
            left: false,
            right: false,
            up: false,
            down: false,
            ana: false,
            kata: false,
            roll_left: false,
            roll_right: false,
            yaw: Scalar::zero(),
            pitch: Scalar::zero(),
            hyperlook: false,
            grab: false,
            center_grab: false,
        }
    }
}

} // verus!
