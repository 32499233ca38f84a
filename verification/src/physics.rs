//! Rigid bodies.
//!
//! A body is a record that the integrator and the solver read and write
//! at every step; the arithmetic of a step is theirs. What a body holds
//! when it is made, and what its mass means for its inverse mass, is stated
//! here.

use vstd::prelude::*;
use crate::ga::{Bivector4, Rotor4};
use crate::scalar::{Scalar, INFINITY_BITS};
use crate::vector::{Matrix4, Vector4};

verus! {

/// The encoding of 1.0.
pub const ONE_BITS: u32 = 0x3f80_0000;

/// After the solver has prepared a step it applies every constraint this
/// many times.
pub const APPLY_PASSES: usize = 4;

/// The encoding of -10.0: what gravity adds to the velocity along the y
/// axis in a unit of time.
pub const GRAVITY_BITS: u32 = 0xc120_0000;

/// A rigid body.
#[derive(Clone, Copy, Debug, PartialEq, Eq, Structural)]
pub struct RigidBody {
    pub position: Vector4,
    pub orientation: Rotor4,
    pub mass: Scalar,
    pub inverse_mass: Scalar,
    /// The moment of inertia, one number for all planes.
    pub inertia_tensor: Scalar,
    pub inverse_inertia_tensor: Scalar,
    /// How much of gravity the body feels.
    pub gravity: Scalar,
    pub velocity: Vector4,
    /// The force gathered for the next step.
    pub force: Vector4,
    /// The factor that the velocity keeps from one step to the next.
    pub linear_damping: Scalar,
    pub angular_velocity: Bivector4,
    /// The torque gathered for the next step.
    pub torque: Bivector4,
    /// The factor that the angular velocity keeps from one step to the
    /// next.
    pub angular_damping: Scalar,
}

/// The parts of a step of the world, in their order.
///
/// The velocities take up forces and damping first, since the solver must
/// see them as they will be. The solver is prepared once and then applied
/// a fixed number of times. The poses follow the velocities last.
#[derive(Clone, Copy, Debug, PartialEq, Eq, Structural)]
pub enum Phase {
    /// Every body's velocities take up damping, gravity and what force
    /// and torque have gathered, which are then cleared.
    Predict,
    /// Every joint and every contact is made ready.
    Prepare,
    /// Every joint and every contact is applied; so many passes are done.
    Apply(usize),
    /// Every body's pose follows its velocities.
    Advance,
    /// The step is over.
    Done,
}

/// A rotation followed by a translation.
#[derive(Clone, Copy, Debug, PartialEq, Eq, Structural)]
pub struct Affine4 {
    pub linear: Matrix4,
    pub translation: Vector4,
}

impl Phase {
    /// The part that comes after this one.
    pub open spec fn spec_next(self) -> Phase {
        match self {
            Phase::Predict => Phase::Prepare,
            Phase::Prepare => Phase::Apply(0),
            Phase::Apply(done) => if done + 1 < APPLY_PASSES {
                Phase::Apply((done + 1) as usize)
            } else {
                Phase::Advance
            },
            Phase::Advance => Phase::Done,
            Phase::Done => Phase::Done,
        }
    }

    /// The part after `n` more.
    pub open spec fn after(self, n: nat) -> Phase
        decreases n,
    {
        if n == 0 {
            self
        } else {
            self.spec_next().after((n - 1) as nat)
        }
    }

    /// The part with which a step begins.
    pub fn first() -> (r: Phase)
        ensures
            r == Phase::Predict,
    {
        Phase::Predict
    }

    /// The part that comes after this one.
    #[verifier::when_used_as_spec(spec_next)]
    pub fn next(self) -> (r: Phase)
        ensures
            r == self.spec_next(),
    {
        match self {
            Phase::Predict => Phase::Prepare,
            Phase::Prepare => Phase::Apply(0),
            Phase::Apply(done) => if done < APPLY_PASSES - 1 {
                Phase::Apply(done + 1)
            } else {
                Phase::Advance
            },
            Phase::Advance => Phase::Done,
            Phase::Done => Phase::Done,
        }
    }
}

/// A step is seven parts long: the velocities are predicted, the solver is
/// prepared once and applied four times, and the poses advance.
pub proof fn lemma_step()
    ensures
        Phase::Predict.after(1) == Phase::Prepare,
        Phase::Predict.after(2) == Phase::Apply(0),
        Phase::Predict.after(3) == Phase::Apply(1),
        Phase::Predict.after(4) == Phase::Apply(2),
        Phase::Predict.after(5) == Phase::Apply(3),
        Phase::Predict.after(6) == Phase::Advance,
        Phase::Predict.after(7) == Phase::Done,
{
    reveal_with_fuel(Phase::after, 8);
}

impl RigidBody {
    /// The body at rest at the origin, of mass one, under full gravity and
    /// without damping.
    pub open spec fn spec_default() -> RigidBody {
        let one = Scalar { bits: ONE_BITS };
        RigidBody {
            position: Vector4::spec_zeros(),
            orientation: Rotor4::spec_identity(),
            mass: one,
            inverse_mass: one,
            inertia_tensor: one,
            inverse_inertia_tensor: one,
            gravity: one,
            velocity: Vector4::spec_zeros(),
            force: Vector4::spec_zeros(),
            linear_damping: one,
            angular_velocity: Bivector4::spec_zero(),
            torque: Bivector4::spec_zero(),
            angular_damping: one,
        }
    }

    /// Whether nothing moves the body: its mass is infinite.
    pub open spec fn immovable(self) -> bool {
        self.mass.bits == INFINITY_BITS
    }

    /// The body with another mass. The inertia is the mass.
    ///
    /// `inverse` is one over the mass. For an infinite mass that is zero,
    /// whatever was handed in.
    pub open spec fn spec_with_mass(self, mass: Scalar, inverse: Scalar) -> RigidBody {
        let inverse = if mass.bits == INFINITY_BITS {
            Scalar { bits: 0 }
        } else {
            inverse
        };
        RigidBody {
            mass,
            inverse_mass: inverse,
            inertia_tensor: mass,
            inverse_inertia_tensor: inverse,
            ..self
        }
    }

    /// The body with another mass and its inverse; an infinite mass has the
    /// inverse zero.
    #[verifier::when_used_as_spec(spec_with_mass)]
    pub fn with_mass(self, mass: Scalar, inverse: Scalar) -> (r: RigidBody)
        ensures
            r == self.spec_with_mass(mass, inverse),
            r.immovable() ==> r.inverse_mass.bits == 0 && r.inverse_inertia_tensor.bits == 0,
    {
        let inverse = if mass.to_bits() == INFINITY_BITS {
            Scalar::zero()
        } else {
            inverse
        };
        RigidBody {
            mass,
            inverse_mass: inverse,
            inertia_tensor: mass,
            inverse_inertia_tensor: inverse,
            ..self
        }
    }
}

impl Default for RigidBody {
    fn default() -> (r: RigidBody)
        ensures
            r == RigidBody::spec_default(),
    {
        let one = Scalar::from_bits(ONE_BITS);
        RigidBody {
            position: Vector4::zeros(),
            orientation: Rotor4::identity(),
            mass: one,
            inverse_mass: one,
            inertia_tensor: one,
            inverse_inertia_tensor: one,
            gravity: one,
            velocity: Vector4::zeros(),
            force: Vector4::zeros(),
            linear_damping: one,
            angular_velocity: Bivector4::zero(),
            torque: Bivector4::zero(),
            angular_damping: one,
        }
    }
}

impl Affine4 {
    /// The transform that moves nothing.
    pub open spec fn spec_identity() -> Affine4 {
        let one = Scalar { bits: ONE_BITS };
        let o = Scalar { bits: 0 };
        Affine4 {
            linear: Matrix4 {
                c0: Vector4 { x: one, y: o, z: o, w: o },
                c1: Vector4 { x: o, y: one, z: o, w: o },
                c2: Vector4 { x: o, y: o, z: one, w: o },
                c3: Vector4 { x: o, y: o, z: o, w: one },
            },
            translation: Vector4::spec_zeros(),
        }
    }

    /// The transform that moves nothing.
    #[verifier::when_used_as_spec(spec_identity)]
    pub fn identity() -> (r: Affine4)
        ensures
            r == Affine4::spec_identity(),
    {
        let one = Scalar::from_bits(ONE_BITS);
        let o = Scalar::zero();
        Affine4 {
            linear: Matrix4 {
                c0: Vector4 { x: one, y: o, z: o, w: o },
                c1: Vector4 { x: o, y: one, z: o, w: o },
                c2: Vector4 { x: o, y: o, z: one, w: o },
                c3: Vector4 { x: o, y: o, z: o, w: one },
            },
            translation: Vector4::zeros(),
        }
    }

    /// The transform of a body at `position` with the rotation matrix
    /// `orientation`.
    pub fn from_po(position: Vector4, orientation: Matrix4) -> (r: Affine4)
        ensures
            r == (Affine4 { linear: orientation, translation: position }),
    {
        Affine4 { linear: orientation, translation: position }
    }
}

impl Default for Affine4 {
    fn default() -> (r: Affine4)
        ensures
            r == Affine4::spec_identity(),
    {
        Affine4::identity()
    }
}

} // verus!
