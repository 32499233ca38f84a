//! Convex hulls as colliders, and the choices that a ray cast over many
//! bodies comes down to.
//!
//! A hull is the set of its support points. Lengths and dot products are
//! measured by the caller; which point supports a direction, which hit is
//! the nearest and which pairs of bodies are worth a closer look is
//! decided here.

use vstd::prelude::*;
use itertools::Itertools;
use crate::mesh::Mesh4;
use crate::scalar::{Scalar, INFINITY_BITS};
use crate::vector::Vector4;

verus! {

/// A convex hull: its support points, each once, and the radius of a ball
/// round the origin of its frame that holds them all.
#[derive(Clone, Debug)]
pub struct Collider {
    radius: Scalar,
    hull: Vec<Vector4>,
}

/// The points of `points` without repetitions: each where it first
/// occurs.
pub open spec fn first_occurrences(points: Seq<Vector4>) -> Seq<Vector4>
    decreases points.len(),
{
    if points.len() == 0 {
        seq![]
    } else {
        let before = first_occurrences(points.drop_last());
        if before.contains(points.last()) {
            before
        } else {
            before.push(points.last())
        }
    }
}

/// The largest of zero and the first `n` lengths, a NaN counting for
/// nothing.
pub open spec fn largest(lengths: Seq<Scalar>, n: nat) -> Scalar
    decreases n,
{
    if n == 0 {
        Scalar { bits: 0 }
    } else {
        largest(lengths, (n - 1) as nat).spec_max(lengths[n - 1])
    }
}

/// The place of the best of the first `n` scores: the place of the last
/// score that is at least as high as every score before it. A score that
/// is a NaN is never better than the best so far, and in the first place
/// it is never bettered.
pub open spec fn best(scores: Seq<Scalar>, n: nat) -> int
    decreases n,
{
    if n <= 1 {
        0
    } else {
        let before = best(scores, (n - 1) as nat);
        if scores[before].spec_le(scores[n - 1]) {
            n - 1
        } else {
            before
        }
    }
}

/// Whether hit `k` is the nearest: it lies at a distance below infinity,
/// no hit lies nearer, and every hit as near comes later.
pub open spec fn nearest_hit(hits: Seq<(u64, Option<Scalar>)>, k: int) -> bool {
    &&& 0 <= k < hits.len()
    &&& hits[k].1 is Some
    &&& hits[k].1->0.spec_lt(Scalar { bits: INFINITY_BITS })
    &&& forall|j: int|
        0 <= j < hits.len() && (#[trigger] hits[j]).1 is Some ==> !hits[j].1->0.spec_lt(
            hits[k].1->0,
        )
    &&& forall|j: int|
        0 <= j < k && (#[trigger] hits[j]).1 is Some ==> !hits[j].1->0.spec_le(hits[k].1->0)
}

/// The place of the pair `(i, j)` among the pairs of `n` things, counted
/// by their first thing, then by their second.
pub open spec fn pair_rank(n: int, i: int, j: int) -> int {
    i * (2 * n - i - 1) / 2 + (j - i - 1)
}

/// All the ways to take two of the numbers below `count`, by itertools'
/// `combinations`.
///
/// Trusted: every row holds two numbers, the smaller first, and the rows
/// stand in the order of their first number, then of their second.
#[verifier::external_body]
fn combinations_of_two(count: usize) -> (rows: Vec<Vec<usize>>)
    ensures
        2 * rows@.len() == count * (count - 1),
        forall|k: int| 0 <= k < rows@.len() ==> (#[trigger] rows@[k])@.len() == 2,
        forall|i: int, j: int|
            0 <= i < j < count ==> 0 <= #[trigger] pair_rank(count as int, i, j) < rows@.len()
                && rows@[pair_rank(count as int, i, j)]@ == seq![i as usize, j as usize],
{
    (0..count).combinations(2).collect()
}

/// The points without repetitions, by itertools' `unique_by` with the
/// encoding of a point as its key.
///
/// Trusted: the result holds each point of `points` once, in the order in
/// which the points first occur.
#[verifier::external_body]
fn unique_points(points: &Vec<Vector4>) -> (r: Vec<Vector4>)
    ensures
        r@ == first_occurrences(points@),
{
    points.iter().unique_by(|v| v.words()).cloned().collect()
}

impl Collider {
    /// The radius of the collider.
    pub closed spec fn spec_radius(&self) -> Scalar {
        self.radius
    }

    /// The support points of the collider.
    pub closed spec fn spec_hull(&self) -> &Vec<Vector4> {
        &self.hull
    }

    /// The hull of a mesh. `lengths` holds the length of each vertex of
    /// the mesh, as a vector from the origin, in the order of the vertices.
    ///
    /// The hull keeps each vertex once, where it first occurs. The radius
    /// is the greatest length.
    pub fn from_mesh4(mesh: &Mesh4, lengths: &Vec<Scalar>) -> (r: Collider)
        requires
            lengths@.len() == mesh.vertices()@.len(),
        ensures
            r.hull()@ == first_occurrences(mesh.vertices()@),
            r.radius() == largest(lengths@, lengths@.len()),
    {
        let mut radius = Scalar::zero();
        let mut i: usize = 0;
        while i < lengths.len()
            invariant
                i <= lengths.len(),
                radius == largest(lengths@, i as nat),
            decreases lengths.len() - i,
        {
            radius = radius.max(lengths[i]);
            i += 1;
        }
        Collider { radius, hull: unique_points(mesh.vertices()) }
    }

    /// The radius of a ball round the origin that holds the hull.
    #[verifier::when_used_as_spec(spec_radius)]
    pub fn radius(&self) -> (r: Scalar)
        ensures
            r == self.spec_radius(),
    {
        self.radius
    }

    /// The support points.
    #[verifier::when_used_as_spec(spec_hull)]
    pub fn hull(&self) -> (r: &Vec<Vector4>)
        ensures
            r == self.spec_hull(),
    {
        &self.hull
    }

    /// The support point of the hull in some direction. `scores` holds the
    /// dot product of each point of the hull with the direction.
    ///
    /// The answer is a point of the hull whose score no other exceeds; of
    /// several such it is the last.
    pub fn support(&self, scores: &Vec<Scalar>) -> (r: Vector4)
        requires
            self.hull()@.len() > 0,
            scores@.len() == self.hull()@.len(),
        ensures
            r == self.hull()@[best(scores@, scores@.len())],
            0 <= best(scores@, scores@.len()) < self.hull()@.len(),
            (forall|k: int| 0 <= k < scores@.len() ==> !(#[trigger] scores@[k]).is_nan())
                ==> forall|k: int|
                0 <= k < scores@.len() ==> {
                    &&& (#[trigger] scores@[k]).spec_le(scores@[best(scores@, scores@.len())])
                    &&& k > best(scores@, scores@.len()) ==> scores@[k].spec_lt(
                        scores@[best(scores@, scores@.len())],
                    )
                },
    {
        let n = scores.len();
        let mut at: usize = 0;
        let mut k: usize = 1;
        while k < n
            invariant
                1 <= k <= n,
                n == scores@.len(),
                at < k,
                at == best(scores@, k as nat),
            decreases n - k,
        {
            if scores[at].le(scores[k]) {
                at = k;
            }
            k += 1;
        }
        proof {
            lemma_best(scores@, n as nat);
        }
        self.hull[at]
    }
}

/// Whether two bodies are near enough to be tested for overlap: the
/// distance of their centres is below their reach, the sum of their
/// radii.
pub fn in_reach(distance: Scalar, reach: Scalar) -> (r: bool)
    ensures
        r == distance.spec_lt(reach),
{
    distance.lt(reach)
}

/// The pairs of bodies that a collision pass looks at, where the bodies
/// are counted from zero: every two of them once, the earlier body first,
/// in the order of the earlier body, then of the later.
pub fn body_pairs(count: usize) -> (pairs: Vec<(usize, usize)>)
    ensures
        2 * pairs@.len() == count * (count - 1),
        forall|i: int, j: int|
            0 <= i < j < count ==> 0 <= #[trigger] pair_rank(count as int, i, j) < pairs@.len()
                && pairs@[pair_rank(count as int, i, j)] == (i as usize, j as usize),
{
    let rows = combinations_of_two(count);
    let mut pairs: Vec<(usize, usize)> = Vec::new();
    let mut k: usize = 0;
    while k < rows.len()
        invariant
            k <= rows.len(),
            pairs@.len() == k,
            forall|r: int| 0 <= r < rows@.len() ==> (#[trigger] rows@[r])@.len() == 2,
            forall|r: int| 0 <= r < k ==> (#[trigger] pairs@[r]) == (rows@[r]@[0], rows@[r]@[1]),
        decreases rows.len() - k,
    {
        let row = &rows[k];
        pairs.push((row[0], row[1]));
        k += 1;
    }
    assert forall|i: int, j: int| 0 <= i < j < count implies 0 <= #[trigger] pair_rank(
        count as int,
        i,
        j,
    ) < pairs@.len() && pairs@[pair_rank(count as int, i, j)] == (i as usize, j as usize) by {
        let r = pair_rank(count as int, i, j);
        assert(rows@[r]@ == seq![i as usize, j as usize]);
        assert(rows@[r]@[0] == i);
        assert(rows@[r]@[1] == j);
    }
    pairs
}

/// The nearest of the hits of a ray. Each entry names a body and tells at
/// which distance the ray hits it, if it does.
///
/// The answer is the body hit at the least distance, the first of several
/// hit at that distance; nothing where no body is hit at a distance below
/// infinity.
pub fn cast_ray(hits: &Vec<(u64, Option<Scalar>)>) -> (r: Option<(u64, Scalar)>)
    ensures
        match r {
            Some((body, t)) => exists|k: int| #[trigger]
                nearest_hit(hits@, k) && hits@[k] == (body, Some(t)),
            None => forall|j: int|
                0 <= j < hits@.len() && (#[trigger] hits@[j]).1 is Some ==> !hits@[j].1->0.spec_lt(
                    Scalar { bits: INFINITY_BITS },
                ),
        },
{
    let infinity = Scalar::from_bits(INFINITY_BITS);
    let mut nearest: Option<u64> = None;
    let mut nearest_distance = infinity;
    let ghost mut at: int = 0;
    let mut i: usize = 0;
    while i < hits.len()
        invariant
            i <= hits.len(),
            infinity.bits == INFINITY_BITS,
            forall|j: int|
                0 <= j < i && (#[trigger] hits@[j]).1 is Some ==> !hits@[j].1->0.spec_lt(
                    nearest_distance,
                ),
            nearest is None ==> nearest_distance == infinity,
            nearest is Some ==> {
                &&& 0 <= at < i
                &&& hits@[at] == (nearest->0, Some(nearest_distance))
                &&& nearest_distance.spec_lt(infinity)
                &&& forall|j: int|
                    0 <= j < at && (#[trigger] hits@[j]).1 is Some ==> !hits@[j].1->0.spec_le(
                        nearest_distance,
                    )
            },
        decreases hits.len() - i,
    {
        let (body, hit) = hits[i];
        if let Some(t) = hit {
            if t.lt(nearest_distance) {
                proof {
                    assert forall|j: int|
                        0 <= j < i && (#[trigger] hits@[j]).1 is Some implies !hits@[j].1->0.spec_le(
                        t,
                    ) by {
                        assert(!hits@[j].1->0.spec_lt(nearest_distance));
                    }
                    at = i as int;
                }
                nearest = Some(body);
                nearest_distance = t;
            }
        }
        i += 1;
    }
    match nearest {
        Some(body) => {
            assert(nearest_hit(hits@, at));
            Some((body, nearest_distance))
        },
        None => None,
    }
}

/// Where no score is a NaN, the best score is a highest one, and the last
/// of the highest.
pub proof fn lemma_best(scores: Seq<Scalar>, n: nat)
    requires
        0 < n <= scores.len(),
    ensures
        0 <= best(scores, n) < n,
        (forall|k: int| 0 <= k < n ==> !(#[trigger] scores[k]).is_nan()) ==> forall|k: int|
            0 <= k < n ==> {
                &&& (#[trigger] scores[k]).spec_le(scores[best(scores, n)])
                &&& k > best(scores, n) ==> scores[k].spec_lt(scores[best(scores, n)])
            },
    decreases n,
{
    if n > 1 {
        lemma_best(scores, (n - 1) as nat);
    }
}

/// Where no length is a NaN, the largest is zero or one of the lengths,
/// and none of the lengths exceeds it.
pub proof fn lemma_largest(lengths: Seq<Scalar>, n: nat)
    requires
        n <= lengths.len(),
        forall|k: int| 0 <= k < n ==> !(#[trigger] lengths[k]).is_nan(),
    ensures
        !largest(lengths, n).is_nan(),
        (Scalar { bits: 0 }).spec_le(largest(lengths, n)),
        forall|k: int| 0 <= k < n ==> (#[trigger] lengths[k]).spec_le(largest(lengths, n)),
        largest(lengths, n).bits == 0 || exists|k: int|
            0 <= k < n && lengths[k] == largest(lengths, n),
    decreases n,
{
    if n > 0 {
        lemma_largest(lengths, (n - 1) as nat);
        let before = largest(lengths, (n - 1) as nat);
        let now = largest(lengths, n);
        if now == before {
            if before.bits != 0 {
                let k = choose|k: int| 0 <= k < n - 1 && lengths[k] == before;
                assert(lengths[k] == now);
            }
        } else {
            assert(lengths[n - 1] == now);
        }
    }
}

/// The hull of a set of points holds every point of the set, holds no
/// other, and holds none twice.
pub proof fn lemma_first_occurrences(points: Seq<Vector4>)
    ensures
        first_occurrences(points).no_duplicates(),
        forall|p: Vector4|
            #![trigger points.contains(p)]
            #![trigger first_occurrences(points).contains(p)]
            first_occurrences(points).contains(p) <==> points.contains(p),
        first_occurrences(points).len() <= points.len(),
    decreases points.len(),
{
    if points.len() > 0 {
        let front = points.drop_last();
        let before = first_occurrences(front);
        let now = first_occurrences(points);
        lemma_first_occurrences(front);
        assert forall|p: Vector4| now.contains(p) <==> points.contains(p) by {
            assert(before.contains(p) <==> front.contains(p));
            if now.contains(p) {
                let i = choose|i: int| 0 <= i < now.len() && now[i] == p;
                if i < before.len() {
                    assert(before[i] == p);
                    assert(before.contains(p));
                    let j = choose|j: int| 0 <= j < front.len() && front[j] == p;
                    assert(points[j] == p);
                } else {
                    assert(points[points.len() - 1] == p);
                }
            }
            if points.contains(p) {
                let j = choose|j: int| 0 <= j < points.len() && points[j] == p;
                if j < front.len() {
                    assert(front[j] == p);
                    assert(before.contains(p));
                    let i = choose|i: int| 0 <= i < before.len() && before[i] == p;
                    assert(now[i] == p);
                } else if !before.contains(p) {
                    assert(now[now.len() - 1] == p);
                } else {
                    let i = choose|i: int| 0 <= i < before.len() && before[i] == p;
                    assert(now[i] == p);
                }
            }
        }
    }
}

} // verus!
