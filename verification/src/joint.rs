//! The ball joint: a point of one body pinned to a point of another.

use vstd::prelude::*;
use crate::ga::Bivector4;
use crate::vector::{Matrix4, Matrix4x6, Vector4};

verus! {

/// A ball joint between bodies `a` and `b`.
///
/// The anchors are fixed when the joint is made, each in its body's own
/// frame. The rest is the solver's: it fills the Jacobians, the effective
/// mass and the bias when it prepares a step, and accumulates the impulse
/// from step to step.
#[derive(Clone, Copy, Debug, PartialEq, Eq, Structural)]
pub struct Joint {
    pub a: u64,
    pub a_anchor: Vector4,
    pub a_jacobian: Matrix4x6,
    pub b: u64,
    pub b_anchor: Vector4,
    pub b_jacobian: Matrix4x6,
    pub effective_mass: Matrix4,
    pub bias: Vector4,
    pub impulse: Vector4,
}

impl Joint {
    /// The joint made ready for a step.
    ///
    /// The Jacobians are those of the two anchors as they are turned into
    /// the world's frame. The effective mass is the inverse of what the
    /// two bodies oppose to an impulse at the anchors. Where that has no
    /// inverse the joint sits the step out: its effective mass and bias
    /// are zero, so that applying it changes nothing.
    pub open spec fn prepared(
        self,
        a_world_anchor: Vector4,
        b_world_anchor: Vector4,
        effective_mass: Option<Matrix4>,
        bias: Vector4,
    ) -> Joint {
        Joint {
            a_jacobian: Bivector4::spec_dot_vector_matrix(a_world_anchor),
            b_jacobian: Bivector4::spec_dot_vector_matrix(b_world_anchor),
            effective_mass: match effective_mass {
                Some(m) => m,
                None => Matrix4::spec_zeros(),
            },
            bias: if effective_mass is Some {
                bias
            } else {
                Vector4::spec_zeros()
            },
            ..self
        }
    }

    /// Makes the joint ready for a step and tells whether it takes part
    /// in it. A joint that does not is neither warm-started nor applied.
    pub fn prepare(
        &mut self,
        a_world_anchor: Vector4,
        b_world_anchor: Vector4,
        effective_mass: Option<Matrix4>,
        bias: Vector4,
    ) -> (active: bool)
        ensures
            *final(self) == old(self).prepared(
                a_world_anchor,
                b_world_anchor,
                effective_mass,
                bias,
            ),
            active == effective_mass is Some,
    {
        self.a_jacobian = Bivector4::dot_vector_matrix(a_world_anchor);
        self.b_jacobian = Bivector4::dot_vector_matrix(b_world_anchor);
        match effective_mass {
            Some(m) => {
                self.effective_mass = m;
                self.bias = bias;
                true
            },
            None => {
                self.effective_mass = Matrix4::zeros();
                self.bias = Vector4::zeros();
                false
            },
        }
    }

    /// The joint that pins `a_anchor` on body `a` to `b_anchor` on body
    /// `b`, before the solver has seen it: everything else is zero.
    pub fn new(a: u64, a_anchor: Vector4, b: u64, b_anchor: Vector4) -> (r: Joint)
        ensures
            r == (Joint {
                a,
                a_anchor,
                a_jacobian: Matrix4x6::spec_zeros(),
                b,
                b_anchor,
                b_jacobian: Matrix4x6::spec_zeros(),
                effective_mass: Matrix4::spec_zeros(),
                bias: Vector4::spec_zeros(),
                impulse: Vector4::spec_zeros(),
            }),
    {
        Joint {
            a,
            a_anchor,
            a_jacobian: Matrix4x6::zeros(),
            b,
            b_anchor,
            b_jacobian: Matrix4x6::zeros(),
            effective_mass: Matrix4::zeros(),
            bias: Vector4::zeros(),
            impulse: Vector4::zeros(),
        }
    }
}

} // verus!
