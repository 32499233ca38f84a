//! The portal of a penetration search between two convex hulls, and the
//! rules by which it is built and refined.
//!
//! The search works on the difference of the two hulls. From a centre
//! inside the difference it looks toward the origin through a portal of
//! four support points, and replaces points of the portal until the
//! origin lies behind it. The support points and every measurement are
//! the caller's; what follows from them is decided here.

use vstd::prelude::*;
use crate::scalar::{Scalar, INFINITY_BITS};
use crate::vector::Vector4;

verus! {

/// A new support point that moves the portal by less than this (as a
/// squared length) brings no progress.
pub const STALL_BITS: u32 = 0x3586_37bd;

/// Refining and improving a portal each take at most this many rounds.
pub const MAX_ROUNDS: usize = 10;

/// A support point of the difference of two hulls: the points of the two
/// hulls that it comes from, each in its hull's own frame, and their
/// difference in the world's frame.
#[derive(Clone, Copy, Debug, PartialEq, Eq, Structural)]
pub struct Vertex {
    pub a_local: Vector4,
    pub b_local: Vector4,
    pub minkowski: Vector4,
}

/// A centre and the four support points through which it sees the origin.
#[derive(Clone, Copy, Debug, PartialEq, Eq, Structural)]
pub struct Portal {
    pub center: Vector4,
    pub v0: Vertex,
    pub v1: Vertex,
    pub v2: Vertex,
    pub v3: Vertex,
}

/// What a round of refining does after it has measured.
#[derive(Clone, Copy, Debug, PartialEq, Eq, Structural)]
pub enum Refinement {
    /// The origin lies behind the portal: the hulls overlap.
    Enclosed,
    /// The search cannot go on: no overlap is reported.
    Failed,
    /// The new support point is to replace a point of the portal.
    Replace,
}

/// Whether a support point found in some direction lies on the far side of
/// the origin in that direction, given its dot product with the direction.
pub open spec fn spec_reaches_origin(progress: Scalar) -> bool {
    !progress.spec_lt(Scalar { bits: 0 })
}

/// A direction at a right angle to `v`, made of the components of `v`
/// alone.
pub open spec fn spec_orthogonal(v: Vector4) -> Vector4 {
    Vector4 { x: v.y.spec_neg(), y: v.x, z: v.w.spec_neg(), w: v.z }
}

/// Where to look for the next point of a portal: along the rejection of
/// the way to the origin from what was found so far, or, where that has no
/// length because the origin lies in what was found, at a right angle to
/// the mean offset of the found points from the centre.
pub open spec fn spec_search_direction(
    rejection: Vector4,
    norm_squared: Scalar,
    mean_offset: Vector4,
) -> Vector4 {
    if norm_squared.spec_num_eq(Scalar { bits: 0 }) {
        spec_orthogonal(mean_offset)
    } else {
        rejection
    }
}

/// What round `round` of refining does. `behind` is the dot product of the
/// portal's outward direction with a point of the portal, `progress` that
/// of the new support point with the direction it was sought in, `gain`
/// the squared distance by which the new point lies off the portal.
pub open spec fn spec_refinement(
    behind: Scalar,
    progress: Scalar,
    gain: Scalar,
    round: usize,
) -> Refinement {
    if (Scalar { bits: 0 }).spec_le(behind) {
        Refinement::Enclosed
    } else if !spec_reaches_origin(progress) || gain.spec_lt(Scalar { bits: STALL_BITS }) || round
        + 1 >= MAX_ROUNDS {
        Refinement::Failed
    } else {
        Refinement::Replace
    }
}

/// Whether the four coordinates of the origin, taken in the frame of a
/// candidate portal, put it inside: none of them is negative.
pub open spec fn encloses(coordinates: Option<Vector4>) -> bool {
    match coordinates {
        Some(c) => {
            let zero = Scalar { bits: 0 };
            zero.spec_le(c.x) && zero.spec_le(c.y) && zero.spec_le(c.z) && zero.spec_le(c.w)
        },
        None => false,
    }
}

/// Whether candidate `i` is the first that encloses the origin.
pub open spec fn first_enclosing(candidates: Seq<Option<Vector4>>, i: int) -> bool {
    &&& 0 <= i < candidates.len()
    &&& encloses(candidates[i])
    &&& forall|j: int| 0 <= j < i ==> !encloses(#[trigger] candidates[j])
}

impl Portal {
    /// Point `i` of the portal.
    pub open spec fn vertex(self, i: int) -> Vertex {
        if i == 0 {
            self.v0
        } else if i == 1 {
            self.v1
        } else if i == 2 {
            self.v2
        } else {
            self.v3
        }
    }

    /// The portal with `vertex` in place of point `i`.
    pub open spec fn with_vertex(self, i: int, vertex: Vertex) -> Portal {
        if i == 0 {
            Portal { v0: vertex, ..self }
        } else if i == 1 {
            Portal { v1: vertex, ..self }
        } else if i == 2 {
            Portal { v2: vertex, ..self }
        } else {
            Portal { v3: vertex, ..self }
        }
    }

    /// The portal of a centre and four support points.
    pub fn new(center: Vector4, v0: Vertex, v1: Vertex, v2: Vertex, v3: Vertex) -> (r: Portal)
        ensures
            r == (Portal { center, v0, v1, v2, v3 }),
    {
        Portal { center, v0, v1, v2, v3 }
    }

    /// Point `i` of the portal.
    pub fn get(&self, i: usize) -> (r: Vertex)
        requires
            i < 4,
        ensures
            r == self.vertex(i as int),
    {
        if i == 0 {
            self.v0
        } else if i == 1 {
            self.v1
        } else if i == 2 {
            self.v2
        } else {
            self.v3
        }
    }

    /// The three points that stay when point `i` is replaced, in the order
    /// in which they follow it round the portal.
    pub fn others(&self, i: usize) -> (r: (Vertex, Vertex, Vertex))
        requires
            i < 4,
        ensures
            r.0 == self.vertex((i + 1) % 4),
            r.1 == self.vertex((i + 2) % 4),
            r.2 == self.vertex((i + 3) % 4),
    {
        (self.get((i + 1) % 4), self.get((i + 2) % 4), self.get((i + 3) % 4))
    }

    /// Takes a new support point into the portal.
    ///
    /// `candidates[i]` holds the coordinates of the origin in the frame
    /// that the centre spans with the new point and `others(i)`, or
    /// nothing where these span no frame. The new point replaces the first
    /// point `i` whose candidate encloses the origin, and the answer is
    /// whether there was one; without one the portal stays as it was.
    pub fn refine(&mut self, new_vertex: Vertex, candidates: &Vec<Option<Vector4>>) -> (replaced:
        bool)
        requires
            candidates.len() == 4,
        ensures
            replaced ==> exists|i: int|
                first_enclosing(candidates@, i) && *final(self) == old(self).with_vertex(
                    i,
                    new_vertex,
                ),
            !replaced ==> *final(self) == *old(self) && forall|j: int|
                0 <= j < 4 ==> !encloses(#[trigger] candidates[j]),
    {
        let zero = Scalar::zero();
        let mut i: usize = 0;
        while i < 4
            invariant
                i <= 4,
                candidates.len() == 4,
                zero.bits == 0,
                *self == *old(self),
                forall|j: int| 0 <= j < i ==> !encloses(#[trigger] candidates[j]),
            decreases 4 - i,
        {
            let inside = match candidates[i] {
                Some(c) => zero.le(c.x) && zero.le(c.y) && zero.le(c.z) && zero.le(c.w),
                None => false,
            };
            if inside {
                if i == 0 {
                    self.v0 = new_vertex;
                } else if i == 1 {
                    self.v1 = new_vertex;
                } else if i == 2 {
                    self.v2 = new_vertex;
                } else {
                    self.v3 = new_vertex;
                }
                assert(first_enclosing(candidates@, i as int));
                return true;
            }
            i += 1;
        }
        false
    }
}

/// Whether a support point lies on the far side of the origin in the
/// direction it was sought in; a search that finds one on the near side
/// has no portal to build.
#[verifier::when_used_as_spec(spec_reaches_origin)]
pub fn reaches_origin(progress: Scalar) -> (r: bool)
    ensures
        r == spec_reaches_origin(progress),
{
    !progress.lt(Scalar::zero())
}

/// A direction at a right angle to `v`.
#[verifier::when_used_as_spec(spec_orthogonal)]
pub fn orthogonal(v: Vector4) -> (r: Vector4)
    ensures
        r == spec_orthogonal(v),
{
    Vector4 { x: v.y.neg(), y: v.x, z: v.w.neg(), w: v.z }
}

/// The direction in which to seek the next point of a portal.
#[verifier::when_used_as_spec(spec_search_direction)]
pub fn search_direction(rejection: Vector4, norm_squared: Scalar, mean_offset: Vector4) -> (r:
    Vector4)
    ensures
        r == spec_search_direction(rejection, norm_squared, mean_offset),
{
    if norm_squared.num_eq(Scalar::zero()) {
        orthogonal(mean_offset)
    } else {
        rejection
    }
}

/// Decides a round of refining a portal.
///
/// Once the origin lies behind the portal the hulls overlap. Before that
/// the search fails where the new support point does not reach the
/// origin, where it moves the portal by less than the stall tolerance, and
/// in the last round. Otherwise the new point goes into the portal.
#[verifier::when_used_as_spec(spec_refinement)]
pub fn refinement(behind: Scalar, progress: Scalar, gain: Scalar, round: usize) -> (r: Refinement)
    ensures
        r == spec_refinement(behind, progress, gain, round),
{
    if Scalar::zero().le(behind) {
        Refinement::Enclosed
    } else if !reaches_origin(progress) || gain.lt(Scalar::from_bits(STALL_BITS)) || round
        >= MAX_ROUNDS - 1 {
        Refinement::Failed
    } else {
        Refinement::Replace
    }
}

/// Whether a search has found an overlap worth a contact: its depth is a
/// number above zero and below infinity. A search that ends on a portal
/// without size, or on one through the origin, has found none.
pub open spec fn spec_overlaps(depth: Scalar) -> bool {
    (Scalar { bits: 0 }).spec_lt(depth) && depth.spec_lt(Scalar { bits: INFINITY_BITS })
}

/// Whether a search has found an overlap worth a contact.
#[verifier::when_used_as_spec(spec_overlaps)]
pub fn overlaps(depth: Scalar) -> (r: bool)
    ensures
        r == spec_overlaps(depth),
{
    Scalar::zero().lt(depth) && depth.lt(Scalar::from_bits(INFINITY_BITS))
}

/// The shares that the four points of a portal have in the contact that
/// the portal stands for.
///
/// `coordinates` are the coordinates of the origin in the frame that the
/// centre spans with the points of the portal, `total` is their sum, and
/// `shares` are the coordinates over their sum. Where the frame holds the
/// origin and the sum is above zero, these are the shares; there the
/// line from the centre through the origin meets the portal. Otherwise the
/// first point has it all.
pub open spec fn spec_contact_shares(
    coordinates: Option<Vector4>,
    total: Scalar,
    shares: Vector4,
) -> Vector4 {
    if encloses(coordinates) && (Scalar { bits: 0 }).spec_lt(total) {
        shares
    } else {
        Vector4 {
            x: Scalar { bits: 0x3f80_0000 },
            y: Scalar { bits: 0 },
            z: Scalar { bits: 0 },
            w: Scalar { bits: 0 },
        }
    }
}

/// The shares that the four points of a portal have in its contact.
#[verifier::when_used_as_spec(spec_contact_shares)]
pub fn contact_shares(coordinates: Option<Vector4>, total: Scalar, shares: Vector4) -> (r: Vector4)
    ensures
        r == spec_contact_shares(coordinates, total, shares),
{
    let zero = Scalar::zero();
    let inside = match coordinates {
        Some(c) => zero.le(c.x) && zero.le(c.y) && zero.le(c.z) && zero.le(c.w),
        None => false,
    };
    if inside && zero.lt(total) {
        shares
    } else {
        Vector4 { x: Scalar::from_bits(0x3f80_0000), y: zero, z: zero, w: zero }
    }
}

/// Whether round `round` of improving a portal, the rounds counted from
/// zero, takes its new support point, which lies off the portal by the
/// squared distance `gain`: it does while there are rounds left and the
/// gain is not below the stall tolerance.
pub open spec fn spec_improvement(gain: Scalar, round: usize) -> bool {
    round < MAX_ROUNDS && !gain.spec_lt(Scalar { bits: STALL_BITS })
}

/// Whether improving a portal goes on in round `round`.
#[verifier::when_used_as_spec(spec_improvement)]
pub fn improvement(gain: Scalar, round: usize) -> (go_on: bool)
    ensures
        go_on == spec_improvement(gain, round),
{
    round < MAX_ROUNDS && !gain.lt(Scalar::from_bits(STALL_BITS))
}

/// Refining ends within its rounds, and so does improving: the last round
/// of refining never takes a new point, and no round after the last of
/// improving does.
pub proof fn lemma_rounds_end(behind: Scalar, progress: Scalar, gain: Scalar, round: usize)
    requires
        round + 1 >= MAX_ROUNDS,
    ensures
        spec_refinement(behind, progress, gain, round) != Refinement::Replace,
        round >= MAX_ROUNDS ==> !spec_improvement(gain, round),
{
}

} // verus!
