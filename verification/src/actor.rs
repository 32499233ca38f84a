//! The actor's hand: reaching for a body, holding it, letting it go.

use vstd::prelude::*;
use crate::scalar::Scalar;
use crate::vector::Vector4;

verus! {

/// The encoding of 1.0.
pub const ONE_BITS: u32 = 0x3f80_0000;

/// What the actor's hand holds.
#[derive(Clone, Copy, Debug, PartialEq, Eq, Structural)]
pub enum GrabState {
    /// The hand is open.
    Not,
    /// The hand has closed on nothing.
    Miss,
    /// The hand holds this body.
    Hit(u64),
}

/// What the hand does in a step.
#[derive(Clone, Copy, Debug, PartialEq, Eq, Structural)]
pub enum Grab {
    /// Nothing changes.
    Keep,
    /// The hand closes: a ray is to be cast to see what it closes on.
    Reach,
    /// The hand opens and lets go of the body that it held, if it held
    /// one.
    Release(Option<u64>),
}

/// An actor: its hand, and how hard it pushes and turns.
#[derive(Clone, Copy, Debug, PartialEq, Eq, Structural)]
pub struct Actor {
    pub grab_state: GrabState,
    pub move_thrust: Scalar,
    pub look_torque: Scalar,
}

impl GrabState {
    /// What the hand does when the grab button is down or up: an open
    /// hand reaches when the button goes down, any hand lets go when the
    /// button is up, and a closed hand stays closed while it is down.
    pub open spec fn spec_step(self, grab: bool) -> Grab {
        if grab {
            match self {
                GrabState::Not => Grab::Reach,
                _ => Grab::Keep,
            }
        } else {
            match self {
                GrabState::Hit(body) => Grab::Release(Some(body)),
                _ => Grab::Release(None),
            }
        }
    }

    /// The hand after it has reached and the ray has hit `hit`.
    pub open spec fn spec_reached(hit: Option<u64>) -> GrabState {
        match hit {
            Some(body) => GrabState::Hit(body),
            None => GrabState::Miss,
        }
    }

    /// The colour of the crosshair: green while the hand holds a body, red
    /// while it has closed on nothing, black while it is open.
    pub open spec fn spec_tint(self) -> Vector4 {
        let one = Scalar { bits: ONE_BITS };
        let o = Scalar { bits: 0 };
        match self {
            GrabState::Hit(_) => Vector4 { x: o, y: one, z: o, w: one },
            GrabState::Miss => Vector4 { x: one, y: o, z: o, w: one },
            GrabState::Not => Vector4 { x: o, y: o, z: o, w: one },
        }
    }

    /// What the hand does when the grab button is down or up.
    #[verifier::when_used_as_spec(spec_step)]
    pub fn step(self, grab: bool) -> (r: Grab)
        ensures
            r == self.spec_step(grab),
    {
        if grab {
            match self {
                GrabState::Not => Grab::Reach,
                _ => Grab::Keep,
            }
        } else {
            match self {
                GrabState::Hit(body) => Grab::Release(Some(body)),
                _ => Grab::Release(None),
            }
        }
    }

    /// The hand after it has reached and the ray has hit `hit`.
    #[verifier::when_used_as_spec(spec_reached)]
    pub fn reached(hit: Option<u64>) -> (r: GrabState)
        ensures
            r == GrabState::spec_reached(hit),
    {
        match hit {
            Some(body) => GrabState::Hit(body),
            None => GrabState::Miss,
        }
    }

    /// The colour of the crosshair.
    #[verifier::when_used_as_spec(spec_tint)]
    pub fn tint(self) -> (r: Vector4)
        ensures
            r == self.spec_tint(),
    {
        let one = Scalar::from_bits(ONE_BITS);
        let o = Scalar::zero();
        match self {
            GrabState::Hit(_) => Vector4 { x: o, y: one, z: o, w: one },
            GrabState::Miss => Vector4 { x: one, y: o, z: o, w: one },
            GrabState::Not => Vector4 { x: o, y: o, z: o, w: one },
        }
    }
}

impl Actor {
    /// Moves the hand by one step. `grab` tells whether the grab button is
    /// down. The answer tells what is to be done about it; after a
    /// `Reach` the hand is still open, and `reached` closes it.
    pub fn update(&mut self, grab: bool) -> (r: Grab)
        ensures
            r == old(self).grab_state.spec_step(grab),
            final(self).grab_state == (match r {
                Grab::Release(_) => GrabState::Not,
                _ => old(self).grab_state,
            }),
            final(self).move_thrust == old(self).move_thrust,
            final(self).look_torque == old(self).look_torque,
    {
        let r = self.grab_state.step(grab);
        match r {
            Grab::Release(_) => {
                self.grab_state = GrabState::Not;
            },
            _ => {},
        }
        r
    }

    /// Closes the hand on what the ray has hit.
    pub fn reached(&mut self, hit: Option<u64>)
        ensures
            final(self).grab_state == GrabState::spec_reached(hit),
            final(self).move_thrust == old(self).move_thrust,
            final(self).look_torque == old(self).look_torque,
    {
        self.grab_state = GrabState::reached(hit);
    }
}

} // verus!
