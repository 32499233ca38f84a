//! What the drawing of a scene is told about a body, a camera and a
//! sprite.

use vstd::prelude::*;
use crate::vector::{Matrix4, Vector2, Vector4};

verus! {

/// How a body is to be drawn.
#[derive(Clone, Copy, Debug, PartialEq, Eq, Structural)]
pub struct DrawState {
    /// The colour of the outline.
    pub outline: Vector4,
    /// Whether only the outline is drawn.
    pub hollow: bool,
}

/// A draw state as a shader takes it: the flag as a word, and three words
/// of padding.
#[derive(Clone, Copy, Debug, PartialEq, Eq)]
pub struct DrawStateUniforms {
    pub outline: Vector4,
    pub hollow: u32,
    pub padding: [u32; 3],
}

/// A picture on the screen.
#[derive(Clone, Copy, Debug, PartialEq, Eq, Structural)]
pub struct Sprite {
    pub scale: Vector2,
    pub position: Vector2,
    pub tint: Vector4,
}

impl DrawStateUniforms {
    /// The words of a draw state: the flag is one where it is set.
    pub fn from_draw_state(state: &DrawState) -> (r: DrawStateUniforms)
        ensures
            r.outline == state.outline,
            r.hollow == (if state.hollow {
                1u32
            } else {
                0u32
            }),
            r.padding@ == seq![0u32, 0u32, 0u32],
    {
        let padding: [u32; 3] = [0, 0, 0];
        assert(padding@ =~= seq![0u32, 0u32, 0u32]);
        DrawStateUniforms {
            outline: state.outline,
            hollow: if state.hollow {
                1
            } else {
                0
            },
            padding,
        }
    }
}

/// The view matrix of a camera with the rotation matrix `orientation`.
///
/// The camera looks along its third axis, the screen against it: the
/// third column changes its sign. The view undoes the rotation, and the
/// inverse of a rotation matrix is the matrix with rows and columns
/// exchanged.
pub open spec fn spec_view_from_orientation(orientation: Matrix4) -> Matrix4 {
    (Matrix4 { c2: orientation.c2.spec_neg(), ..orientation }).spec_transpose()
}

/// The view matrix of a camera with the rotation matrix `orientation`.
#[verifier::when_used_as_spec(spec_view_from_orientation)]
pub fn view_from_orientation(orientation: Matrix4) -> (r: Matrix4)
    ensures
        r == spec_view_from_orientation(orientation),
{
    let mut r = orientation;
    r.c2 = r.c2.neg();
    r.transpose()
}

} // verus!
