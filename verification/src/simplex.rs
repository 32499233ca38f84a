//! The simplex of a ray cast against a convex hull, and the rules by which
//! it grows, shrinks and ends the search.
//!
//! A search walks a simplex of up to five points toward the ray. The
//! measurements along the way (dot products, rejections, their lengths)
//! are the caller's; what follows from them is decided here.

use vstd::prelude::*;
use crate::scalar::Scalar;
use crate::vector::Vector4;

verus! {

/// Below this squared length a separating vector counts as zero: the ray
/// has reached the hull.
pub const TOUCH_BITS: u32 = 0x3727_c5ac;

/// A ray is taken to leave the hull behind only where its direction has a
/// dot product with the separating vector that is not above this (the
/// negative of the touch tolerance).
pub const RETREAT_BITS: u32 = 0xb727_c5ac;

/// A search gives up after this many rounds.
pub const MAX_ROUNDS: usize = 32;

/// The simplex of a search. The last point of a variant is the newest.
#[derive(Clone, Copy, Debug, PartialEq, Eq, Structural)]
pub enum Simplex {
    Empty,
    Point(Vector4),
    Line(Vector4, Vector4),
    Triangle(Vector4, Vector4, Vector4),
    Tetrahedron(Vector4, Vector4, Vector4, Vector4),
    Fivecell(Vector4, Vector4, Vector4, Vector4, Vector4),
    /// The simplex encloses the ray's current point.
    Complete,
}

/// What one round of a ray cast does after it has measured.
#[derive(Clone, Copy, Debug, PartialEq, Eq, Structural)]
pub enum RayStep {
    /// The ray touches the hull at the current distance.
    Hit,
    /// The ray cannot reach the hull, or has not reached it within the
    /// rounds of a cast.
    Miss,
    /// The hull lies further along the ray: move the ray's point up to the
    /// supporting plane, then go on.
    Advance,
    /// Go on from the current point.
    Stay,
}

impl Simplex {
    /// The points of the simplex, oldest first.
    pub open spec fn points(self) -> Seq<Vector4> {
        match self {
            Simplex::Empty => seq![],
            Simplex::Point(a) => seq![a],
            Simplex::Line(a, b) => seq![a, b],
            Simplex::Triangle(a, b, c) => seq![a, b, c],
            Simplex::Tetrahedron(a, b, c, d) => seq![a, b, c, d],
            Simplex::Fivecell(a, b, c, d, e) => seq![a, b, c, d, e],
            Simplex::Complete => seq![],
        }
    }

    /// The simplex of the given points; none stands for `Empty`.
    pub open spec fn of(points: Seq<Vector4>) -> Simplex
        recommends
            points.len() <= 5,
    {
        if points.len() == 0 {
            Simplex::Empty
        } else if points.len() == 1 {
            Simplex::Point(points[0])
        } else if points.len() == 2 {
            Simplex::Line(points[0], points[1])
        } else if points.len() == 3 {
            Simplex::Triangle(points[0], points[1], points[2])
        } else if points.len() == 4 {
            Simplex::Tetrahedron(points[0], points[1], points[2], points[3])
        } else {
            Simplex::Fivecell(points[0], points[1], points[2], points[3], points[4])
        }
    }

    /// The simplex with `point` as its newest point; a five-cell and a
    /// complete simplex take no more.
    pub open spec fn with_point(self, point: Vector4) -> Simplex {
        match self {
            Simplex::Fivecell(..) | Simplex::Complete => self,
            _ => Simplex::of(self.points().push(point)),
        }
    }

    /// How many faces the classification tests: one opposite each point,
    /// none of a single point.
    pub open spec fn face_count(self) -> nat {
        if self.points().len() >= 2 {
            self.points().len()
        } else {
            0
        }
    }

    /// Which point the face tested in place `k` leaves out, as an index
    /// into `points()`. The newest point is left out last. Before it a
    /// triangle leaves out its points from the oldest on, the others from
    /// the second newest back.
    pub open spec fn omitted(self, k: int) -> int {
        let n = self.points().len() as int;
        if k == n - 1 {
            n - 1
        } else if n == 3 {
            k
        } else {
            n - 2 - k
        }
    }

    /// The face tested in place `k`, its points in the order in which the
    /// tests of the face read them.
    pub open spec fn face(self, k: int) -> Simplex {
        match self {
            Simplex::Line(b, a) => if k == 0 {
                Simplex::Point(a)
            } else {
                Simplex::Point(b)
            },
            Simplex::Triangle(c, b, a) => if k == 0 {
                Simplex::Line(b, a)
            } else if k == 1 {
                Simplex::Line(c, a)
            } else {
                Simplex::Line(b, c)
            },
            Simplex::Tetrahedron(d, c, b, a) => if k == 0 {
                Simplex::Triangle(d, c, a)
            } else if k == 1 {
                Simplex::Triangle(d, b, a)
            } else if k == 2 {
                Simplex::Triangle(c, b, a)
            } else {
                Simplex::Triangle(b, c, d)
            },
            Simplex::Fivecell(e, d, c, b, a) => if k == 0 {
                Simplex::Tetrahedron(c, d, e, a)
            } else if k == 1 {
                Simplex::Tetrahedron(b, d, e, a)
            } else if k == 2 {
                Simplex::Tetrahedron(b, c, e, a)
            } else if k == 3 {
                Simplex::Tetrahedron(b, c, d, a)
            } else {
                Simplex::Tetrahedron(b, c, d, e)
            },
            _ => self,
        }
    }

    /// Whether `tests[k]` is the first test that is negative.
    pub open spec fn first_negative(tests: Seq<Scalar>, k: int) -> bool {
        &&& 0 <= k < tests.len()
        &&& tests[k].spec_lt(Scalar { bits: 0 })
        &&& forall|j: int| 0 <= j < k ==> !(#[trigger] tests[j]).spec_lt(Scalar { bits: 0 })
    }

    /// Where the search stands once no face test is negative.
    ///
    /// A point at the origin, a five-cell, and a line, triangle or
    /// tetrahedron from which the origin has no distance are complete.
    /// Otherwise the simplex stays and the search goes on toward
    /// `direction`. An empty or complete simplex stays, with no direction.
    pub open spec fn spec_settle(self, direction: Vector4, norm_squared: Scalar) -> (
        Simplex,
        Option<Vector4>,
    ) {
        let zero = Scalar { bits: 0 };
        match self {
            Simplex::Empty | Simplex::Complete => (self, None),
            Simplex::Point(_) => if norm_squared.spec_num_eq(zero) {
                (Simplex::Complete, None)
            } else {
                (self, Some(direction))
            },
            Simplex::Fivecell(..) => (Simplex::Complete, None),
            _ => if zero.spec_lt(norm_squared) {
                (self, Some(direction))
            } else {
                (Simplex::Complete, None)
            },
        }
    }

    /// The simplex after a new support point was offered: the point is
    /// taken where it adds a dimension, that is where its rejection from
    /// the simplex has a length. An empty simplex takes any point.
    pub open spec fn spec_expand(self, point: Vector4, norm_squared: Scalar) -> Simplex {
        match self {
            Simplex::Empty => Simplex::Point(point),
            Simplex::Fivecell(..) | Simplex::Complete => self,
            _ => if (Scalar { bits: 0 }).spec_lt(norm_squared) {
                self.with_point(point)
            } else {
                self
            },
        }
    }

    /// Adds `point` as the newest point of the simplex.
    pub fn add_point(self, point: Vector4) -> (r: Simplex)
        ensures
            r == self.with_point(point),
            self.points().len() < 5 && self != Simplex::Complete ==> r.points()
                == self.points().push(point),
    {
        let r = match self {
            Simplex::Empty => Simplex::Point(point),
            Simplex::Point(a) => Simplex::Line(a, point),
            Simplex::Line(a, b) => Simplex::Triangle(a, b, point),
            Simplex::Triangle(a, b, c) => Simplex::Tetrahedron(a, b, c, point),
            Simplex::Tetrahedron(a, b, c, d) => Simplex::Fivecell(a, b, c, d, point),
            _ => self,
        };
        assert(self.points().len() < 5 && self != Simplex::Complete ==> r.points()
            =~= self.points().push(point));
        r
    }

    /// Offers a new support point to the simplex. `norm_squared` is the
    /// squared length of the point's rejection from the simplex (of its
    /// offset from the point, for a simplex of one point).
    pub fn expand(self, point: Vector4, norm_squared: Scalar) -> (r: Simplex)
        ensures
            r == self.spec_expand(point, norm_squared),
    {
        match self {
            Simplex::Empty => self.add_point(point),
            Simplex::Fivecell(..) | Simplex::Complete => self,
            _ => if Scalar::zero().lt(norm_squared) {
                self.add_point(point)
            } else {
                self
            },
        }
    }

    /// The number of faces that `descend` expects a test for.
    pub fn faces(&self) -> (r: usize)
        ensures
            r == self.face_count(),
    {
        match self {
            Simplex::Line(..) => 2,
            Simplex::Triangle(..) => 3,
            Simplex::Tetrahedron(..) => 4,
            Simplex::Fivecell(..) => 5,
            _ => 0,
        }
    }

    /// Classifies the origin against the faces of the simplex.
    ///
    /// `tests[k]` measures on which side of face `k` the origin lies:
    /// negative means beyond it. The search descends into the face of the
    /// first negative test; with none, the origin is over the simplex
    /// itself and `settle` decides.
    pub fn descend(&self, tests: &Vec<Scalar>) -> (r: Option<Simplex>)
        requires
            tests.len() == self.face_count(),
        ensures
            match r {
                Some(f) => exists|k: int|
                    Simplex::first_negative(tests@, k) && f == self.face(k) && f.points().len()
                        + 1 == self.points().len(),
                None => forall|j: int|
                    0 <= j < tests.len() ==> !(#[trigger] tests[j]).spec_lt(Scalar { bits: 0 }),
            },
    {
        let mut k: usize = 0;
        while k < tests.len()
            invariant
                k <= tests.len(),
                tests.len() == self.face_count(),
                forall|j: int| 0 <= j < k ==> !(#[trigger] tests[j]).spec_lt(Scalar { bits: 0 }),
            decreases tests.len() - k,
        {
            if tests[k].lt(Scalar::zero()) {
                assert(Simplex::first_negative(tests@, k as int));
                return Some(self.face_at(k));
            }
            k += 1;
        }
        None
    }

    /// The face tested in place `k`.
    pub fn face_at(&self, k: usize) -> (r: Simplex)
        requires
            k < self.face_count(),
        ensures
            r == self.face(k as int),
            r.points().len() + 1 == self.points().len(),
    {
        match *self {
            Simplex::Line(b, a) => if k == 0 {
                Simplex::Point(a)
            } else {
                Simplex::Point(b)
            },
            Simplex::Triangle(c, b, a) => if k == 0 {
                Simplex::Line(b, a)
            } else if k == 1 {
                Simplex::Line(c, a)
            } else {
                Simplex::Line(b, c)
            },
            Simplex::Tetrahedron(d, c, b, a) => if k == 0 {
                Simplex::Triangle(d, c, a)
            } else if k == 1 {
                Simplex::Triangle(d, b, a)
            } else if k == 2 {
                Simplex::Triangle(c, b, a)
            } else {
                Simplex::Triangle(b, c, d)
            },
            Simplex::Fivecell(e, d, c, b, a) => if k == 0 {
                Simplex::Tetrahedron(c, d, e, a)
            } else if k == 1 {
                Simplex::Tetrahedron(b, d, e, a)
            } else if k == 2 {
                Simplex::Tetrahedron(b, c, e, a)
            } else if k == 3 {
                Simplex::Tetrahedron(b, c, d, a)
            } else {
                Simplex::Tetrahedron(b, c, d, e)
            },
            _ => *self,
        }
    }

    /// Ends the classification once no face test is negative.
    ///
    /// For a single point `direction` is the way from the point to the
    /// origin and `norm_squared` the point's squared length; for a line,
    /// triangle or tetrahedron they are the rejection of that way from the
    /// simplex and its squared length. Neither is read for the others.
    pub fn settle(self, direction: Vector4, norm_squared: Scalar) -> (r: (
        Simplex,
        Option<Vector4>,
    ))
        ensures
            r == self.spec_settle(direction, norm_squared),
    {
        match self {
            Simplex::Empty | Simplex::Complete => (self, None),
            Simplex::Point(_) => if norm_squared.num_eq(Scalar::zero()) {
                (Simplex::Complete, None)
            } else {
                (self, Some(direction))
            },
            Simplex::Fivecell(..) => (Simplex::Complete, None),
            _ => if Scalar::zero().lt(norm_squared) {
                (self, Some(direction))
            } else {
                (Simplex::Complete, None)
            },
        }
    }
}

/// What a round of the ray cast does, from three measurements: the squared
/// length of the separating vector, its dot product with the way from the
/// support point to the ray's point, and its dot product with the ray's
/// direction.
pub open spec fn spec_ray_step(norm_squared: Scalar, toward: Scalar, along: Scalar) -> RayStep {
    if norm_squared.spec_lt(Scalar { bits: TOUCH_BITS }) {
        RayStep::Hit
    } else if (Scalar { bits: 0 }).spec_lt(toward) {
        if (Scalar { bits: RETREAT_BITS }).spec_lt(along) {
            RayStep::Miss
        } else {
            RayStep::Advance
        }
    } else {
        RayStep::Stay
    }
}

/// Decides a round of the ray cast.
///
/// The ray has hit once the separating vector is as good as zero. Where
/// the support point lies ahead of the ray's point along the separating
/// vector, the ray must advance; it cannot where its direction does not
/// oppose that vector, and then it misses.
pub fn ray_step(norm_squared: Scalar, toward: Scalar, along: Scalar) -> (r: RayStep)
    ensures
        r == spec_ray_step(norm_squared, toward, along),
{
    if norm_squared.lt(Scalar::from_bits(TOUCH_BITS)) {
        RayStep::Hit
    } else if Scalar::zero().lt(toward) {
        if Scalar::from_bits(RETREAT_BITS).lt(along) {
            RayStep::Miss
        } else {
            RayStep::Advance
        }
    } else {
        RayStep::Stay
    }
}

/// What round `round` of a ray cast does, the rounds counted from zero:
/// what the measurements call for while there are rounds left, and a miss
/// once they are used up.
pub open spec fn spec_ray_round(
    round: usize,
    norm_squared: Scalar,
    toward: Scalar,
    along: Scalar,
) -> RayStep {
    if round >= MAX_ROUNDS {
        RayStep::Miss
    } else {
        spec_ray_step(norm_squared, toward, along)
    }
}

/// Decides round `round` of a ray cast, the rounds counted from zero. A
/// cast that has not hit within its rounds misses.
#[verifier::when_used_as_spec(spec_ray_round)]
pub fn ray_round(round: usize, norm_squared: Scalar, toward: Scalar, along: Scalar) -> (r: RayStep)
    ensures
        r == spec_ray_round(round, norm_squared, toward, along),
{
    if round >= MAX_ROUNDS {
        RayStep::Miss
    } else {
        ray_step(norm_squared, toward, along)
    }
}

/// Every face is the simplex without one of its points: face `k` leaves
/// out the point `omitted(k)` and holds each of the others once.
pub proof fn lemma_face_omits_one(s: Simplex, k: int)
    requires
        0 <= k < s.face_count(),
    ensures
        s.face(k).points().len() + 1 == s.points().len(),
        0 <= s.omitted(k) < s.points().len(),
        s.face(k).points().to_multiset().insert(s.points()[s.omitted(k)])
            == s.points().to_multiset(),
{
    let f = s.face(k).points();
    let p = s.points();
    let x = p[s.omitted(k)];
    broadcast use vstd::seq_lib::group_to_multiset_ensures;
    assert(p.to_multiset() =~= f.to_multiset().insert(x)) by {
        lemma_multiset_of(p);
        lemma_multiset_of(f);
    }
}

/// The multiset of a short sequence, point by point.
proof fn lemma_multiset_of(s: Seq<Vector4>)
    requires
        s.len() <= 5,
    ensures
        s.len() == 0 ==> s.to_multiset() == vstd::multiset::Multiset::<Vector4>::empty(),
        s.len() == 1 ==> s.to_multiset() == vstd::multiset::Multiset::<Vector4>::empty().insert(
            s[0],
        ),
        s.len() == 2 ==> s.to_multiset() == vstd::multiset::Multiset::<Vector4>::empty().insert(
            s[0],
        ).insert(s[1]),
        s.len() == 3 ==> s.to_multiset() == vstd::multiset::Multiset::<Vector4>::empty().insert(
            s[0],
        ).insert(s[1]).insert(s[2]),
        s.len() == 4 ==> s.to_multiset() == vstd::multiset::Multiset::<Vector4>::empty().insert(
            s[0],
        ).insert(s[1]).insert(s[2]).insert(s[3]),
        s.len() == 5 ==> s.to_multiset() == vstd::multiset::Multiset::<Vector4>::empty().insert(
            s[0],
        ).insert(s[1]).insert(s[2]).insert(s[3]).insert(s[4]),
    decreases s.len(),
{
    broadcast use vstd::seq_lib::group_to_multiset_ensures;
    if s.len() > 0 {
        lemma_multiset_of(s.drop_last());
        assert(s =~= s.drop_last().push(s.last()));
    }
}

} // verus!
