//! The multivectors of four-dimensional space that a rigid body needs:
//! bivectors for what turns, rotors for how it is turned.
//!
//! Products of multivectors round and are the caller's. Here are the
//! values themselves and what is exact of them.

use vstd::prelude::*;
use crate::scalar::Scalar;
use crate::vector::{Matrix4x6, Vector4};

verus! {

/// The encoding of 1.0.
pub const ONE_BITS: u32 = 0x3f80_0000;

/// A bivector: one coefficient for each of the six planes that two axes
/// span. It stands for an angular velocity, a torque or a turn.
#[derive(Clone, Copy, Debug, PartialEq, Eq, Hash, Structural)]
pub struct Bivector4 {
    pub xy: Scalar,
    pub xz: Scalar,
    pub xw: Scalar,
    pub yz: Scalar,
    pub yw: Scalar,
    pub zw: Scalar,
}

/// A rotor: a scalar, a bivector and the coefficient of the one
/// four-volume. It stands for a rotation.
#[derive(Clone, Copy, Debug, PartialEq, Eq, Hash, Structural)]
pub struct Rotor4 {
    pub s: Scalar,
    pub b: Bivector4,
    pub xyzw: Scalar,
}

/// The rejection of a vector from a subspace: the part of the vector at a
/// right angle to the subspace.
///
/// `quotient` is what the formula of the rejection gives, a vector over
/// the squared size of the subspace, and `norm_squared` that squared
/// size. A subspace without size has no directions to reject from, and
/// the formula divides by zero: its rejection is taken to be zero.
pub open spec fn spec_rejection(quotient: Vector4, norm_squared: Scalar) -> Vector4 {
    if norm_squared.spec_num_eq(Scalar { bits: 0 }) {
        Vector4::spec_zeros()
    } else {
        quotient
    }
}

/// The rejection of a vector from a subspace, zero where the subspace has
/// no size.
#[verifier::when_used_as_spec(spec_rejection)]
pub fn rejection(quotient: Vector4, norm_squared: Scalar) -> (r: Vector4)
    ensures
        r == spec_rejection(quotient, norm_squared),
{
    if norm_squared.num_eq(Scalar::zero()) {
        Vector4::zeros()
    } else {
        quotient
    }
}

impl Bivector4 {
    /// The bivector of six positive zeros.
    pub open spec fn spec_zero() -> Bivector4 {
        let o = Scalar { bits: 0 };
        Bivector4 { xy: o, xz: o, xw: o, yz: o, yw: o, zw: o }
    }

    /// The matrix that takes the coefficients of a bivector to its inner
    /// product with `v`: where a body turns with the bivector as its
    /// angular velocity, the product is the velocity of the body's point
    /// at `v`.
    ///
    /// Every entry of the matrix is zero or a component of `v`, as it is
    /// or with its sign reversed.
    pub open spec fn spec_dot_vector_matrix(v: Vector4) -> Matrix4x6 {
        let o = Scalar { bits: 0 };
        Matrix4x6 {
            c0: Vector4 { x: v.y.spec_neg(), y: v.x, z: o, w: o },
            c1: Vector4 { x: v.z.spec_neg(), y: o, z: v.x, w: o },
            c2: Vector4 { x: v.w.spec_neg(), y: o, z: o, w: v.x },
            c3: Vector4 { x: o, y: v.z.spec_neg(), z: v.y, w: o },
            c4: Vector4 { x: o, y: v.w.spec_neg(), z: o, w: v.y },
            c5: Vector4 { x: o, y: o, z: v.w.spec_neg(), w: v.z },
        }
    }

    /// The bivector of six positive zeros.
    #[verifier::when_used_as_spec(spec_zero)]
    pub fn zero() -> (r: Bivector4)
        ensures
            r == Bivector4::spec_zero(),
    {
        let o = Scalar::zero();
        Bivector4 { xy: o, xz: o, xw: o, yz: o, yw: o, zw: o }
    }

    /// The Jacobian of the velocity at `v` by the angular velocity.
    #[verifier::when_used_as_spec(spec_dot_vector_matrix)]
    pub fn dot_vector_matrix(v: Vector4) -> (r: Matrix4x6)
        ensures
            r == Bivector4::spec_dot_vector_matrix(v),
    {
        let o = Scalar::zero();
        Matrix4x6 {
            c0: Vector4 { x: v.y.neg(), y: v.x, z: o, w: o },
            c1: Vector4 { x: v.z.neg(), y: o, z: v.x, w: o },
            c2: Vector4 { x: v.w.neg(), y: o, z: o, w: v.x },
            c3: Vector4 { x: o, y: v.z.neg(), z: v.y, w: o },
            c4: Vector4 { x: o, y: v.w.neg(), z: o, w: v.y },
            c5: Vector4 { x: o, y: o, z: v.w.neg(), w: v.z },
        }
    }
}

impl Rotor4 {
    /// The rotor that turns nothing: scalar part one, all else zero.
    pub open spec fn spec_identity() -> Rotor4 {
        Rotor4 { s: Scalar { bits: ONE_BITS }, b: Bivector4::spec_zero(), xyzw: Scalar { bits: 0 } }
    }

    /// The rotor that turns nothing.
    #[verifier::when_used_as_spec(spec_identity)]
    pub fn identity() -> (r: Rotor4)
        ensures
            r == Rotor4::spec_identity(),
    {
        Rotor4 { s: Scalar::from_bits(ONE_BITS), b: Bivector4::zero(), xyzw: Scalar::zero() }
    }

    /// The rotor of a turn, from what was measured of the bivector that
    /// gives the plane and angle of the turn.
    ///
    /// `angle` is the length of the bivector, `cosine` the cosine of that,
    /// and `scaled` the bivector scaled by the sine of the angle over the
    /// angle. A bivector without length has no such scale and turns
    /// nothing: its rotor has no bivector part.
    pub open spec fn spec_from_bivector(
        angle: Scalar,
        cosine: Scalar,
        scaled: Bivector4,
    ) -> Rotor4 {
        Rotor4 {
            s: cosine,
            b: if angle.spec_num_eq(Scalar { bits: 0 }) {
                Bivector4::spec_zero()
            } else {
                scaled
            },
            xyzw: Scalar { bits: 0 },
        }
    }

    /// The rotor of a turn, from what was measured of its bivector.
    #[verifier::when_used_as_spec(spec_from_bivector)]
    pub fn from_bivector(angle: Scalar, cosine: Scalar, scaled: Bivector4) -> (r: Rotor4)
        ensures
            r == Rotor4::spec_from_bivector(angle, cosine, scaled),
    {
        Rotor4 {
            s: cosine,
            b: if angle.num_eq(Scalar::zero()) {
                Bivector4::zero()
            } else {
                scaled
            },
            xyzw: Scalar::zero(),
        }
    }
}

} // verus!
