//! Vectors and matrices of four-dimensional space, as stored values.

use vstd::prelude::*;
use crate::scalar::Scalar;

verus! {

/// A vector of four-dimensional space: four numbers.
///
/// The derived `==` compares encodings component by component.
#[derive(Clone, Copy, Debug, PartialEq, Eq, Hash, Structural)]
pub struct Vector4 {
    pub x: Scalar,
    pub y: Scalar,
    pub z: Scalar,
    pub w: Scalar,
}

/// A vector of the plane of the screen.
#[derive(Clone, Copy, Debug, PartialEq, Eq, Hash, Structural)]
pub struct Vector2 {
    pub x: Scalar,
    pub y: Scalar,
}

/// A 4x4 matrix, held by its four columns.
#[derive(Clone, Copy, Debug, PartialEq, Eq, Hash, Structural)]
pub struct Matrix4 {
    pub c0: Vector4,
    pub c1: Vector4,
    pub c2: Vector4,
    pub c3: Vector4,
}

/// A matrix of four rows and six columns, held by its columns: the linear
/// map from the six coefficients of a bivector to a vector.
#[derive(Clone, Copy, Debug, PartialEq, Eq, Hash, Structural)]
pub struct Matrix4x6 {
    pub c0: Vector4,
    pub c1: Vector4,
    pub c2: Vector4,
    pub c3: Vector4,
    pub c4: Vector4,
    pub c5: Vector4,
}

impl Vector4 {
    /// The vector of four positive zeros.
    pub open spec fn spec_zeros() -> Vector4 {
        Vector4 {
            x: Scalar { bits: 0 },
            y: Scalar { bits: 0 },
            z: Scalar { bits: 0 },
            w: Scalar { bits: 0 },
        }
    }

    /// The vector of four positive zeros.
    #[verifier::when_used_as_spec(spec_zeros)]
    pub fn zeros() -> (r: Vector4)
        ensures
            r == Vector4::spec_zeros(),
    {
        Vector4::repeat(Scalar::zero())
    }

    /// The component on axis `i`, counted x, y, z, w.
    pub open spec fn at(self, i: int) -> Scalar {
        if i == 0 {
            self.x
        } else if i == 1 {
            self.y
        } else if i == 2 {
            self.z
        } else {
            self.w
        }
    }

    /// The vector with every component's sign reversed.
    pub open spec fn spec_neg(self) -> Vector4 {
        Vector4 {
            x: self.x.spec_neg(),
            y: self.y.spec_neg(),
            z: self.z.spec_neg(),
            w: self.w.spec_neg(),
        }
    }

    /// The vector of four components.
    pub fn new(x: Scalar, y: Scalar, z: Scalar, w: Scalar) -> (r: Vector4)
        ensures
            r == (Vector4 { x, y, z, w }),
    {
        Vector4 { x, y, z, w }
    }

    /// The vector whose four components are `s`.
    pub fn repeat(s: Scalar) -> (r: Vector4)
        ensures
            r == (Vector4 { x: s, y: s, z: s, w: s }),
    {
        Vector4 { x: s, y: s, z: s, w: s }
    }

    /// The encodings of the four components, which tell two vectors apart.
    pub fn words(&self) -> (r: [u32; 4])
        ensures
            r@ == seq![self.x.bits, self.y.bits, self.z.bits, self.w.bits],
    {
        let r = [self.x.bits, self.y.bits, self.z.bits, self.w.bits];
        assert(r@ =~= seq![self.x.bits, self.y.bits, self.z.bits, self.w.bits]);
        r
    }

    /// The vector with every component's sign reversed.
    #[verifier::when_used_as_spec(spec_neg)]
    pub fn neg(self) -> (r: Vector4)
        ensures
            r == self.spec_neg(),
    {
        Vector4 { x: self.x.neg(), y: self.y.neg(), z: self.z.neg(), w: self.w.neg() }
    }
}

impl Matrix4 {
    /// Column `i`.
    pub open spec fn col(self, i: int) -> Vector4 {
        if i == 0 {
            self.c0
        } else if i == 1 {
            self.c1
        } else if i == 2 {
            self.c2
        } else {
            self.c3
        }
    }

    /// The matrix of sixteen positive zeros.
    pub open spec fn spec_zeros() -> Matrix4 {
        Matrix4 {
            c0: Vector4::spec_zeros(),
            c1: Vector4::spec_zeros(),
            c2: Vector4::spec_zeros(),
            c3: Vector4::spec_zeros(),
        }
    }

    /// The matrix of four columns.
    pub fn from_columns(c0: Vector4, c1: Vector4, c2: Vector4, c3: Vector4) -> (r: Matrix4)
        ensures
            r == (Matrix4 { c0, c1, c2, c3 }),
    {
        Matrix4 { c0, c1, c2, c3 }
    }

    /// The matrix with rows and columns exchanged.
    pub open spec fn spec_transpose(self) -> Matrix4 {
        Matrix4 {
            c0: Vector4 { x: self.c0.x, y: self.c1.x, z: self.c2.x, w: self.c3.x },
            c1: Vector4 { x: self.c0.y, y: self.c1.y, z: self.c2.y, w: self.c3.y },
            c2: Vector4 { x: self.c0.z, y: self.c1.z, z: self.c2.z, w: self.c3.z },
            c3: Vector4 { x: self.c0.w, y: self.c1.w, z: self.c2.w, w: self.c3.w },
        }
    }

    /// The matrix of sixteen positive zeros.
    #[verifier::when_used_as_spec(spec_zeros)]
    pub fn zeros() -> (r: Matrix4)
        ensures
            r == Matrix4::spec_zeros(),
    {
        let z = Vector4::zeros();
        Matrix4 { c0: z, c1: z, c2: z, c3: z }
    }

    /// The matrix with rows and columns exchanged.
    #[verifier::when_used_as_spec(spec_transpose)]
    pub fn transpose(self) -> (r: Matrix4)
        ensures
            r == self.spec_transpose(),
    {
        Matrix4 {
            c0: Vector4 { x: self.c0.x, y: self.c1.x, z: self.c2.x, w: self.c3.x },
            c1: Vector4 { x: self.c0.y, y: self.c1.y, z: self.c2.y, w: self.c3.y },
            c2: Vector4 { x: self.c0.z, y: self.c1.z, z: self.c2.z, w: self.c3.z },
            c3: Vector4 { x: self.c0.w, y: self.c1.w, z: self.c2.w, w: self.c3.w },
        }
    }
}

/// Exchanging rows and columns twice gives the matrix back, and entry
/// `(i, j)` of the exchanged matrix is entry `(j, i)` of the matrix.
pub proof fn lemma_transpose(m: Matrix4, i: int, j: int)
    requires
        0 <= i < 4,
        0 <= j < 4,
    ensures
        m.spec_transpose().spec_transpose() == m,
        m.spec_transpose().col(j).at(i) == m.col(i).at(j),
{
}

impl Matrix4x6 {
    /// The matrix of twenty-four positive zeros.
    pub open spec fn spec_zeros() -> Matrix4x6 {
        Matrix4x6 {
            c0: Vector4::spec_zeros(),
            c1: Vector4::spec_zeros(),
            c2: Vector4::spec_zeros(),
            c3: Vector4::spec_zeros(),
            c4: Vector4::spec_zeros(),
            c5: Vector4::spec_zeros(),
        }
    }

    /// The matrix of twenty-four positive zeros.
    #[verifier::when_used_as_spec(spec_zeros)]
    pub fn zeros() -> (r: Matrix4x6)
        ensures
            r == Matrix4x6::spec_zeros(),
    {
        let z = Vector4::zeros();
        Matrix4x6 { c0: z, c1: z, c2: z, c3: z, c4: z, c5: z }
    }
}

} // verus!
