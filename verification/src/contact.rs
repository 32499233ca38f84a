//! Contacts between two bodies and the manifold that keeps them from step
//! to step.
//!
//! A contact is a record: anchors, a frame, and what the solver has
//! accumulated. Where the anchors lie in the world and how far apart they
//! are is measured by the caller; when a contact holds, which contacts a
//! manifold keeps and which one it gives up is decided here.

use vstd::prelude::*;
use crate::scalar::{Scalar, INFINITY_BITS};
use crate::vector::{Matrix4, Vector4};

verus! {

/// An anchor that has slid this far along the contact's tangents has left
/// the contact.
pub const DRIFT_BITS: u32 = 0x3c23_d70a;

/// The encoding of 0.00000001, the square of 0.0001: two contacts of a
/// manifold whose anchors lie no further apart than 0.0001, that is whose
/// squared distance is no more than this, are one contact.
pub const MERGE_BITS: u32 = 0x322b_cc77;

/// The encoding of 0.3: a contact takes up no more impulse along a
/// tangent than this share of its impulse along the normal.
pub const FRICTION_BITS: u32 = 0x3e99_999a;

/// The encoding of 0.1: the share of the closing speed that a contact
/// gives back.
pub const RESTITUTION_BITS: u32 = 0x3dcc_cccd;

/// The encoding of 0.1: the share of the overlap that a step corrects.
pub const BIAS_FACTOR_BITS: u32 = 0x3dcc_cccd;

/// The encoding of 0.001: the overlap that is left uncorrected.
pub const DEPTH_SLOP_BITS: u32 = 0x3a83_126f;

/// The encoding of 0.1: the closing speed below which nothing is given
/// back.
pub const REBOUND_SLOP_BITS: u32 = 0x3dcc_cccd;

/// A manifold keeps at most this many contacts.
pub const MAX_CONTACTS: usize = 6;

/// A possible contact as the search for an overlap reports it: an anchor
/// on each body, in the body's own frame, and the normal in the world's
/// frame, whose length is how deep the bodies overlap.
#[derive(Clone, Copy, Debug, PartialEq, Eq, Structural)]
pub struct ContactPoint {
    pub a_local: Vector4,
    pub b_local: Vector4,
    pub normal: Vector4,
}

/// Where the anchors of a contact lie for the current poses of the two
/// bodies, and how far they have moved.
#[derive(Clone, Copy, Debug, PartialEq, Eq, Structural)]
pub struct Placement {
    /// The anchor on body a, turned into the world's frame.
    pub a_world_space_anchor: Vector4,
    /// The anchor on body a, as a point of the world.
    pub a_world_space: Vector4,
    /// The anchor on body b, turned into the world's frame.
    pub b_world_space_anchor: Vector4,
    /// The anchor on body b, as a point of the world.
    pub b_world_space: Vector4,
    /// How far the anchor on b lies beyond the anchor on a along the
    /// contact's normal.
    pub separation: Scalar,
    /// How far the anchor on a has slid along the tangents since the
    /// contact was made.
    pub a_drift: Scalar,
    /// How far the anchor on b has slid along the tangents since the
    /// contact was made.
    pub b_drift: Scalar,
}

/// The squared distances between two contacts of one manifold, taken at
/// their anchors on body a and at their anchors on body b.
#[derive(Clone, Copy, Debug, PartialEq, Eq, Structural)]
pub struct Gap {
    pub a: Scalar,
    pub b: Scalar,
}

/// A contact of two bodies at one point.
#[derive(Clone, Copy, Debug, PartialEq, Eq, Structural)]
pub struct Contact {
    pub valid: bool,
    pub a_local: Vector4,
    pub a_world_space: Vector4,
    pub a_world_space_anchor: Vector4,
    pub a_world_space_original: Vector4,
    pub b_local: Vector4,
    pub b_world_space: Vector4,
    pub b_world_space_anchor: Vector4,
    pub b_world_space_original: Vector4,
    pub depth: Scalar,
    pub bias: Scalar,
    /// The normal and three tangents, one in each column.
    pub basis: Matrix4,
    /// The impulse accumulated along each axis of the basis.
    pub impulse: Vector4,
    pub effective_masses: Vector4,
}

/// The frame of a contact with unit normal `n`: the normal and three
/// directions at right angles to it and to each other, each made of the
/// components of the normal alone.
pub open spec fn contact_basis(n: Vector4) -> Matrix4 {
    Matrix4 {
        c0: n,
        c1: Vector4 { x: n.y.spec_neg(), y: n.x, z: n.w.spec_neg(), w: n.z },
        c2: Vector4 { x: n.z, y: n.w.spec_neg(), z: n.x.spec_neg(), w: n.y },
        c3: Vector4 { x: n.w, y: n.z, z: n.y.spec_neg(), w: n.x.spec_neg() },
    }
}

impl Placement {
    /// Whether a contact placed so still holds: the anchors have not
    /// parted along the normal in the wrong sense, and neither has slid as
    /// far as the drift tolerance.
    pub open spec fn holds(self) -> bool {
        let limit = Scalar { bits: DRIFT_BITS };
        (Scalar { bits: 0 }).spec_lt(self.separation) && self.a_drift.spec_lt(limit)
            && self.b_drift.spec_lt(limit)
    }
}

impl Gap {
    /// Whether the two contacts lie within the merge distance of each
    /// other at the anchors on either body.
    pub open spec fn spec_near(self) -> bool {
        let limit = Scalar { bits: MERGE_BITS };
        self.a.spec_le(limit) || self.b.spec_le(limit)
    }

    /// The smaller of the two distances.
    pub open spec fn spec_nearest(self) -> Scalar {
        self.a.spec_min(self.b)
    }

    /// Whether the two contacts lie within the merge distance of each other.
    #[verifier::when_used_as_spec(spec_near)]
    pub fn near(self) -> (r: bool)
        ensures
            r == self.spec_near(),
    {
        let limit = Scalar::from_bits(MERGE_BITS);
        self.a.le(limit) || self.b.le(limit)
    }

    /// The smaller of the two distances.
    #[verifier::when_used_as_spec(spec_nearest)]
    pub fn nearest(self) -> (r: Scalar)
        ensures
            r == self.spec_nearest(),
    {
        self.a.min(self.b)
    }
}

/// The part of a number that is above zero: the number itself if it is
/// positive, zero if it is negative or no number.
pub open spec fn spec_positive_part(x: Scalar) -> Scalar {
    x.spec_max(Scalar { bits: 0 })
}

/// The number nearest to `x` whose size is no more than `limit`; `x`
/// itself where it is no number.
pub open spec fn spec_within(x: Scalar, limit: Scalar) -> Scalar {
    if x.spec_lt(limit.spec_neg()) {
        limit.spec_neg()
    } else if limit.spec_lt(x) {
        limit
    } else {
        x
    }
}

/// The part of a number that is above zero. A contact pushes and never
/// pulls: this is what is left of an impulse along its normal, of an
/// overlap beyond the slop, and of a closing speed beyond the slop.
#[verifier::when_used_as_spec(spec_positive_part)]
pub fn positive_part(x: Scalar) -> (r: Scalar)
    ensures
        r == spec_positive_part(x),
        !r.is_nan(),
        (Scalar { bits: 0 }).spec_le(r),
{
    x.max(Scalar::zero())
}

/// What is left of an impulse along a tangent when friction can hold no
/// more than `limit` either way.
#[verifier::when_used_as_spec(spec_within)]
pub fn within(x: Scalar, limit: Scalar) -> (r: Scalar)
    requires
        (Scalar { bits: 0 }).spec_le(limit),
    ensures
        r == spec_within(x, limit),
        !x.is_nan() ==> limit.spec_neg().spec_le(r) && r.spec_le(limit),
{
    let floor = limit.neg();
    if x.lt(floor) {
        floor
    } else if limit.lt(x) {
        limit
    } else {
        x
    }
}

/// The effective mass of a contact along one axis of its frame.
///
/// `opposed` is what the two bodies oppose to an impulse along the axis,
/// the sum of their inverse masses and of what their inverse inertias
/// make of it, and `reciprocal` is one over that. Where the bodies oppose
/// nothing, or nothing that is a number below infinity, no impulse moves
/// them: the effective mass is zero, and the contact sits the step out
/// along this axis.
pub open spec fn spec_effective_mass(opposed: Scalar, reciprocal: Scalar) -> Scalar {
    if (Scalar { bits: 0 }).spec_lt(opposed) && opposed.spec_lt(Scalar { bits: INFINITY_BITS }) {
        reciprocal
    } else {
        Scalar { bits: 0 }
    }
}

/// The effective mass of a contact along one axis of its frame.
#[verifier::when_used_as_spec(spec_effective_mass)]
pub fn effective_mass(opposed: Scalar, reciprocal: Scalar) -> (r: Scalar)
    ensures
        r == spec_effective_mass(opposed, reciprocal),
{
    if Scalar::zero().lt(opposed) && opposed.lt(Scalar::from_bits(INFINITY_BITS)) {
        reciprocal
    } else {
        Scalar::zero()
    }
}

/// Two contacts are one exactly where the smaller of their two squared
/// distances is no more than the square of the merge distance.
pub proof fn lemma_near(gap: Gap)
    ensures
        gap.spec_near() <==> gap.spec_nearest().spec_le(Scalar { bits: MERGE_BITS }),
{
}

/// What was limited once is not changed by limiting it again.
pub proof fn lemma_limits_settle(x: Scalar, limit: Scalar)
    requires
        (Scalar { bits: 0 }).spec_le(limit),
    ensures
        spec_positive_part(spec_positive_part(x)) == spec_positive_part(x),
        spec_within(spec_within(x, limit), limit) == spec_within(x, limit),
{
}

impl Contact {
    /// The contact after its anchors were placed anew.
    ///
    /// The first placement fixes where the anchors started. Every later
    /// one either holds, and then gives the contact its depth, or makes
    /// the contact invalid.
    pub open spec fn placed(self, first: bool, at: Placement) -> Contact {
        let moved = Contact {
            a_world_space_anchor: at.a_world_space_anchor,
            a_world_space: at.a_world_space,
            b_world_space_anchor: at.b_world_space_anchor,
            b_world_space: at.b_world_space,
            ..self
        };
        if first {
            Contact {
                a_world_space_original: at.a_world_space,
                b_world_space_original: at.b_world_space,
                ..moved
            }
        } else if at.holds() {
            Contact { depth: at.separation, ..moved }
        } else {
            Contact { valid: false, ..moved }
        }
    }

    /// The contact that a contact point becomes.
    pub open spec fn made(
        contact_point: ContactPoint,
        unit_normal: Vector4,
        depth: Scalar,
        at: Placement,
    ) -> Contact {
        let zero = Scalar { bits: 0 };
        let origin = Vector4 { x: zero, y: zero, z: zero, w: zero };
        Contact {
            valid: true,
            a_local: contact_point.a_local,
            a_world_space: at.a_world_space,
            a_world_space_anchor: at.a_world_space_anchor,
            a_world_space_original: at.a_world_space,
            b_local: contact_point.b_local,
            b_world_space: at.b_world_space,
            b_world_space_anchor: at.b_world_space_anchor,
            b_world_space_original: at.b_world_space,
            depth,
            bias: zero,
            basis: contact_basis(unit_normal),
            impulse: origin,
            effective_masses: origin,
        }
    }

    /// Makes a contact of a contact point.
    ///
    /// `unit_normal` is the point's normal scaled to length one and
    /// `depth` the length it had; `at` places the two anchors for the
    /// current poses. The contact is valid, starts where it is placed, and
    /// has no impulse yet.
    pub fn from_contact_point(
        contact_point: ContactPoint,
        unit_normal: Vector4,
        depth: Scalar,
        at: &Placement,
    ) -> (r: Contact)
        ensures
            r == Contact::made(contact_point, unit_normal, depth, *at),
    {
        let n = unit_normal;
        let zero = Scalar::zero();
        let origin = Vector4::repeat(zero);
        let mut new = Contact {
            valid: true,
            a_local: contact_point.a_local,
            a_world_space: origin,
            a_world_space_anchor: origin,
            a_world_space_original: origin,
            b_local: contact_point.b_local,
            b_world_space: origin,
            b_world_space_anchor: origin,
            b_world_space_original: origin,
            depth,
            bias: zero,
            basis: Matrix4 {
                c0: n,
                c1: Vector4 { x: n.y.neg(), y: n.x, z: n.w.neg(), w: n.z },
                c2: Vector4 { x: n.z, y: n.w.neg(), z: n.x.neg(), w: n.y },
                c3: Vector4 { x: n.w, y: n.z, z: n.y.neg(), w: n.x.neg() },
            },
            impulse: origin,
            effective_masses: origin,
        };
        new.update(true, at);
        new
    }

    /// Places the anchors of the contact for the current poses of the two
    /// bodies and decides whether the contact still holds.
    pub fn update(&mut self, first: bool, at: &Placement)
        ensures
            *final(self) == old(self).placed(first, *at),
    {
        self.a_world_space_anchor = at.a_world_space_anchor;
        self.a_world_space = at.a_world_space;
        self.b_world_space_anchor = at.b_world_space_anchor;
        self.b_world_space = at.b_world_space;
        let limit = Scalar::from_bits(DRIFT_BITS);
        if first {
            self.a_world_space_original = self.a_world_space;
            self.b_world_space_original = self.b_world_space;
        } else if Scalar::zero().lt(at.separation) && at.a_drift.lt(limit) && at.b_drift.lt(limit) {
            self.depth = at.separation;
        } else {
            self.valid = false;
        }
    }
}

/// The contacts of one pair of bodies, kept from step to step: at most six.
#[derive(Debug)]
pub struct Arbiter {
    contacts: Vec<Contact>,
}

/// The contacts after each was placed anew: contact `i` at `placements[i]`.
pub open spec fn placed_all(contacts: Seq<Contact>, placements: Seq<Placement>) -> Seq<Contact> {
    Seq::new(contacts.len(), |i: int| contacts[i].placed(false, placements[i]))
}

/// Which of the first `n` contacts are valid, in rising order.
pub open spec fn holding(contacts: Seq<Contact>, n: nat) -> Seq<int>
    decreases n,
{
    if n == 0 {
        seq![]
    } else {
        let before = holding(contacts, (n - 1) as nat);
        if contacts[n - 1].valid {
            before.push(n - 1)
        } else {
            before
        }
    }
}

/// The entries of `pool` that `picks` names, in the order of `picks`.
pub open spec fn picked<T>(pool: Seq<T>, picks: Seq<int>) -> Seq<T> {
    Seq::new(picks.len(), |i: int| pool[picks[i]])
}

/// A table of gaps, row by row.
pub open spec fn rows(gaps: Seq<Vec<Gap>>) -> Seq<Seq<Gap>> {
    Seq::new(gaps.len(), |i: int| gaps[i]@)
}

/// Whether `gaps` is a table of `n` rows of `n` gaps.
pub open spec fn square(gaps: Seq<Seq<Gap>>, n: nat) -> bool {
    &&& gaps.len() == n
    &&& forall|i: int| 0 <= i < n ==> (#[trigger] gaps[i]).len() == n
}

/// The distance between contacts `i` and `j`: the smaller of the two that
/// the table holds for them.
pub open spec fn distance(gaps: Seq<Seq<Gap>>, i: int, j: int) -> Scalar {
    gaps[i][j].spec_nearest()
}

/// Whether the pair `(p, q)` comes before the pair `(i, j)` when pairs are
/// counted by their first contact, then by their second.
pub open spec fn earlier(p: int, q: int, i: int, j: int) -> bool {
    p < i || (p == i && q < j)
}

/// Whether `(i, j)` is the nearest pair among `n` contacts: its distance
/// is a number below infinity, no pair is nearer, and every pair that is
/// as near comes later.
pub open spec fn nearest_pair(gaps: Seq<Seq<Gap>>, n: int, i: int, j: int) -> bool {
    &&& 0 <= i < j < n
    &&& distance(gaps, i, j).spec_lt(Scalar { bits: INFINITY_BITS })
    &&& forall|p: int, q: int|
        0 <= p < q < n ==> !(#[trigger] distance(gaps, p, q)).spec_lt(distance(gaps, i, j))
    &&& forall|p: int, q: int|
        0 <= p < q < n && earlier(p, q, i, j) ==> !(#[trigger] distance(gaps, p, q)).spec_le(
            distance(gaps, i, j),
        )
}

/// Which of the two contacts of a pair a full manifold gives up: the
/// shallower; the first where neither is deeper than the other.
pub open spec fn shallower(contacts: Seq<Contact>, i: int, j: int) -> int {
    if contacts[j].depth.spec_lt(contacts[i].depth) {
        j
    } else {
        i
    }
}

/// Whether `v` is the contact that a full manifold gives up: the shallower
/// of its nearest pair, or the first contact where no pair has a distance
/// below infinity.
pub open spec fn yields(contacts: Seq<Contact>, gaps: Seq<Seq<Gap>>, v: int) -> bool {
    let n = contacts.len() as int;
    ||| exists|i: int, j: int| #[trigger]
        nearest_pair(gaps, n, i, j) && v == shallower(contacts, i, j)
    ||| {
        &&& v == 0
        &&& forall|p: int, q: int|
            0 <= p < q < n ==> !(#[trigger] distance(gaps, p, q)).spec_lt(
                Scalar { bits: INFINITY_BITS },
            )
    }
}

/// Whether one of the first `m` contacts lies within the merge distance of
/// contact `m`.
pub open spec fn crowded(gaps: Seq<Seq<Gap>>, m: int) -> bool {
    exists|i: int| 0 <= i < m && (#[trigger] gaps[i])[m].spec_near()
}

/// Whether `after` is what a manifold of the contacts `before` holds once
/// `contact` was offered to it. `gaps` tells the distances among `before`
/// and, in its last row and column, to `contact`.
///
/// A contact within the merge distance of one that is there is not
/// taken. Any other is, and where that makes seven the manifold gives one
/// up.
pub open spec fn offered(
    before: Seq<Contact>,
    contact: Contact,
    gaps: Seq<Seq<Gap>>,
    after: Seq<Contact>,
) -> bool {
    let grown = before.push(contact);
    if crowded(gaps, before.len() as int) {
        after == before
    } else if grown.len() <= MAX_CONTACTS {
        after == grown
    } else {
        exists|v: int|
            0 <= v < grown.len() && #[trigger] yields(grown, gaps, v) && after == grown.remove(v)
    }
}

/// The part of the table `gaps` that `picks` names: entry `(i, j)` is the
/// gap between contacts `picks[i]` and `picks[j]`.
pub open spec fn selected(gaps: Seq<Seq<Gap>>, picks: Seq<int>) -> Seq<Seq<Gap>> {
    Seq::new(picks.len(), |i: int| Seq::new(picks.len(), |j: int| gaps[picks[i]][picks[j]]))
}

/// Whether `after` is what a manifold of the contacts `before` holds once
/// it was brought up to date and `contact` was offered to it.
///
/// The contacts are placed anew and those that no longer hold are
/// dropped; then the new contact is offered to those that stayed, with the
/// part of the table of gaps that is theirs and its own.
pub open spec fn updated(
    before: Seq<Contact>,
    placements: Seq<Placement>,
    contact: Contact,
    gaps: Seq<Seq<Gap>>,
    after: Seq<Contact>,
) -> bool {
    let all = placed_all(before, placements);
    let stay = holding(all, before.len());
    offered(picked(all, stay), contact, selected(gaps, stay.push(before.len() as int)), after)
}

impl View for Arbiter {
    type V = Seq<Contact>;

    closed spec fn view(&self) -> Seq<Contact> {
        self.contacts@
    }
}

impl Arbiter {
    #[verifier::type_invariant]
    spec fn bounded(self) -> bool {
        self.contacts.len() <= MAX_CONTACTS
    }

    /// A manifold of one contact.
    pub fn new(contact: Contact) -> (r: Arbiter)
        ensures
            r@ == seq![contact],
    {
        let mut contacts: Vec<Contact> = Vec::new();
        contacts.push(contact);
        Arbiter { contacts }
    }

    /// The number of contacts, which is never above six.
    pub fn len(&self) -> (r: usize)
        ensures
            r == self@.len(),
            r <= MAX_CONTACTS,
    {
        proof {
            use_type_invariant(self);
        }
        self.contacts.len()
    }

    /// Contact `i`.
    pub fn get(&self, i: usize) -> (r: Contact)
        requires
            i < self@.len(),
        ensures
            r == self@[i as int],
    {
        self.contacts[i]
    }

    /// Puts `contact` in place of contact `i`.
    pub fn set(&mut self, i: usize, contact: Contact)
        requires
            i < old(self)@.len(),
        ensures
            final(self)@ == old(self)@.update(i as int, contact),
    {
        proof {
            use_type_invariant(&*self);
        }
        self.contacts[i] = contact;
    }

    /// Places every contact anew and drops those that no longer hold.
    ///
    /// The answer tells which contacts stayed, by the places they had
    /// before the call.
    pub fn refresh(&mut self, placements: &Vec<Placement>) -> (kept: Vec<usize>)
        requires
            placements@.len() == old(self)@.len(),
        ensures
            kept@.map_values(|k: usize| k as int) == holding(
                placed_all(old(self)@, placements@),
                old(self)@.len(),
            ),
            final(self)@ == picked(
                placed_all(old(self)@, placements@),
                holding(placed_all(old(self)@, placements@), old(self)@.len()),
            ),
            final(self)@.len() <= old(self)@.len(),
            forall|i: int| 0 <= i < kept@.len() ==> (#[trigger] kept@[i]) < old(self)@.len(),
    {
        proof {
            use_type_invariant(&*self);
        }
        let n = self.contacts.len();
        let ghost all = placed_all(self@, placements@);
        let mut kept: Vec<usize> = Vec::new();
        let mut contacts: Vec<Contact> = Vec::new();
        let mut i: usize = 0;
        while i < n
            invariant
                i <= n,
                n == self.contacts.len(),
                n == placements.len(),
                all == placed_all(self.contacts@, placements@),
                kept@.map_values(|k: usize| k as int) == holding(all, i as nat),
                contacts@ == picked(all, holding(all, i as nat)),
                kept@.len() <= i,
                forall|k: int| 0 <= k < kept@.len() ==> (#[trigger] kept@[k]) < n,
            decreases n - i,
        {
            let mut contact = self.contacts[i];
            contact.update(false, &placements[i]);
            assert(contact == all[i as int]);
            if contact.valid {
                kept.push(i);
                contacts.push(contact);
            }
            i += 1;
            assert(kept@.map_values(|k: usize| k as int) =~= holding(all, i as nat));
            assert(contacts@ =~= picked(all, holding(all, i as nat)));
        }
        self.contacts = contacts;
        kept
    }

    /// Offers a new contact to the manifold.
    ///
    /// `gaps` is the table of the distances among the contacts that are
    /// there, with one more row and column for the new one.
    pub fn offer(&mut self, contact: Contact, gaps: &Vec<Vec<Gap>>)
        requires
            square(rows(gaps@), old(self)@.len() + 1),
        ensures
            offered(old(self)@, contact, rows(gaps@), final(self)@),
            crowded(rows(gaps@), old(self)@.len() as int) ==> final(self)@ == old(self)@,
            final(self)@.len() <= MAX_CONTACTS,
    {
        proof {
            use_type_invariant(&*self);
        }
        let m = self.contacts.len();
        let mut near = false;
        let mut i: usize = 0;
        while i < m
            invariant
                i <= m,
                m == self.contacts.len(),
                square(rows(gaps@), (m + 1) as nat),
                near == exists|k: int|
                    0 <= k < i && (#[trigger] rows(gaps@)[k])[m as int].spec_near(),
            decreases m - i,
        {
            assert(rows(gaps@)[i as int] == gaps@[i as int]@);
            if gaps[i][m].near() {
                near = true;
            }
            i += 1;
        }
        if near {
            return ;
        }
        let mut contacts: Vec<Contact> = Vec::new();
        std::mem::swap(&mut contacts, &mut self.contacts);
        contacts.push(contact);
        if contacts.len() > MAX_CONTACTS {
            let v = nearest_loser(&contacts, gaps);
            contacts.remove(v);
        }
        self.contacts = contacts;
    }

    /// Brings the manifold up to date with the poses of the two bodies and
    /// offers it a new contact.
    ///
    /// `placements` places the contacts that are there; those that no
    /// longer hold are dropped. `gaps` is the table of the distances among
    /// the contacts as placed, with one more row and column for the new
    /// one. The new contact is taken unless one that stayed lies within
    /// the merge distance of it, and a manifold that would hold seven
    /// gives up the shallower contact of its nearest pair.
    pub fn update(&mut self, contact: Contact, placements: &Vec<Placement>, gaps: &Vec<Vec<Gap>>)
        requires
            placements@.len() == old(self)@.len(),
            square(rows(gaps@), old(self)@.len() + 1),
        ensures
            updated(old(self)@, placements@, contact, rows(gaps@), final(self)@),
            final(self)@.len() <= MAX_CONTACTS,
            (exists|i: int|
                0 <= i < old(self)@.len() && old(self)@[i].placed(false, placements@[i]).valid && (
                #[trigger] rows(gaps@)[i])[old(self)@.len() as int].spec_near())
                ==> final(self)@.len() <= old(self)@.len(),
    {
        let n = self.len();
        let ghost all = placed_all(self@, placements@);
        let ghost stay = holding(all, self@.len());
        let mut picks = self.refresh(placements);
        picks.push(n);
        assert(picks@.map_values(|k: usize| k as int) =~= stay.push(n as int));
        let sub = compact(gaps, &picks);
        proof {
            if exists|i: int|
                0 <= i < n && all[i].valid && (#[trigger] rows(gaps@)[i])[n as int].spec_near() {
                let i = choose|i: int|
                    0 <= i < n && all[i].valid && (#[trigger] rows(gaps@)[i])[n as int].spec_near();
                lemma_holding(all, n as nat);
                let p = choose|p: int| 0 <= p < stay.len() && stay[p] == i;
                assert(rows(sub@)[p][stay.len() as int] == rows(gaps@)[i][n as int]);
                assert(crowded(rows(sub@), stay.len() as int));
            }
        }
        self.offer(contact, &sub);
    }
}

/// The part of a table of gaps that `picks` names.
fn compact(gaps: &Vec<Vec<Gap>>, picks: &Vec<usize>) -> (sub: Vec<Vec<Gap>>)
    requires
        square(rows(gaps@), gaps@.len()),
        forall|i: int| 0 <= i < picks@.len() ==> (#[trigger] picks@[i]) < gaps@.len(),
    ensures
        rows(sub@) == selected(rows(gaps@), picks@.map_values(|k: usize| k as int)),
        square(rows(sub@), picks@.len()),
{
    let ghost names = picks@.map_values(|k: usize| k as int);
    let mut sub: Vec<Vec<Gap>> = Vec::new();
    let mut i: usize = 0;
    while i < picks.len()
        invariant
            i <= picks.len(),
            square(rows(gaps@), gaps@.len()),
            forall|k: int| 0 <= k < picks@.len() ==> (#[trigger] picks@[k]) < gaps@.len(),
            names == picks@.map_values(|k: usize| k as int),
            sub@.len() == i,
            forall|r: int|
                0 <= r < i ==> (#[trigger] sub@[r])@ == selected(rows(gaps@), names)[r],
        decreases picks.len() - i,
    {
        let mut row: Vec<Gap> = Vec::new();
        let mut j: usize = 0;
        while j < picks.len()
            invariant
                j <= picks.len(),
                i < picks.len(),
                square(rows(gaps@), gaps@.len()),
                forall|k: int| 0 <= k < picks@.len() ==> (#[trigger] picks@[k]) < gaps@.len(),
                names == picks@.map_values(|k: usize| k as int),
                row@.len() == j,
                forall|c: int|
                    0 <= c < j ==> (#[trigger] row@[c]) == rows(gaps@)[names[i as int]][names[c]],
            decreases picks.len() - j,
        {
            assert(picks@[i as int] < gaps@.len());
            assert(picks@[j as int] < gaps@.len());
            assert(rows(gaps@)[picks@[i as int] as int].len() == gaps@.len());
            row.push(gaps[picks[i]][picks[j]]);
            j += 1;
        }
        assert(row@ =~= selected(rows(gaps@), names)[i as int]);
        sub.push(row);
        i += 1;
    }
    assert(rows(sub@) =~= selected(rows(gaps@), names));
    sub
}

/// The contact that a manifold with one contact too many gives up.
fn nearest_loser(contacts: &Vec<Contact>, gaps: &Vec<Vec<Gap>>) -> (v: usize)
    requires
        contacts@.len() > 0,
        square(rows(gaps@), contacts@.len()),
    ensures
        v < contacts@.len(),
        yields(contacts@, rows(gaps@), v as int),
{
    let n = contacts.len();
    let ghost table = rows(gaps@);
    let infinity = Scalar::from_bits(INFINITY_BITS);
    let mut best = infinity;
    let mut victim: usize = 0;
    let ghost mut found = false;
    let ghost mut bi: int = 0;
    let ghost mut bj: int = 0;
    let mut i: usize = 0;
    while i < n
        invariant
            i <= n,
            n == contacts@.len(),
            n > 0,
            square(table, n as nat),
            table == rows(gaps@),
            infinity.bits == INFINITY_BITS,
            victim < n,
            !found ==> best == infinity && victim == 0,
            forall|p: int, q: int|
                0 <= p < q < n && p < i ==> !(#[trigger] distance(table, p, q)).spec_lt(best),
            found ==> {
                &&& 0 <= bi < bj < n
                &&& bi < i
                &&& best == distance(table, bi, bj)
                &&& best.spec_lt(infinity)
                &&& victim == shallower(contacts@, bi, bj)
                &&& forall|p: int, q: int|
                    0 <= p < q < n && earlier(p, q, bi, bj) ==> !(#[trigger] distance(
                        table,
                        p,
                        q,
                    )).spec_le(best)
            },
        decreases n - i,
    {
        let mut j: usize = i + 1;
        while j < n
            invariant
                i < n,
                i + 1 <= j <= n,
                n == contacts@.len(),
                square(table, n as nat),
            table == rows(gaps@),
                infinity.bits == INFINITY_BITS,
                victim < n,
                !found ==> best == infinity && victim == 0,
                forall|p: int, q: int|
                    0 <= p < q < n && earlier(p, q, i as int, j as int) ==> !(
                    #[trigger] distance(table, p, q)).spec_lt(best),
                found ==> {
                    &&& 0 <= bi < bj < n
                    &&& earlier(bi, bj, i as int, j as int)
                    &&& best == distance(table, bi, bj)
                    &&& best.spec_lt(infinity)
                    &&& victim == shallower(contacts@, bi, bj)
                    &&& forall|p: int, q: int|
                        0 <= p < q < n && earlier(p, q, bi, bj) ==> !(#[trigger] distance(
                            table,
                            p,
                            q,
                        )).spec_le(best)
                },
            decreases n - j,
        {
            assert(table[i as int] == gaps@[i as int]@);
            let d = gaps[i][j].nearest();
            assert(d == distance(table, i as int, j as int));
            if d.lt(best) {
                proof {
                    assert forall|p: int, q: int|
                        0 <= p < q < n && earlier(p, q, i as int, j as int) implies !(
                    #[trigger] distance(table, p, q)).spec_le(d) by {
                        assert(!distance(table, p, q).spec_lt(best));
                    }
                    found = true;
                    bi = i as int;
                    bj = j as int;
                }
                best = d;
                if contacts[j].depth.lt(contacts[i].depth) {
                    victim = j;
                } else {
                    victim = i;
                }
            }
            j += 1;
        }
        i += 1;
    }
    proof {
        if found {
            assert(nearest_pair(table, n as int, bi, bj));
        }
    }
    victim
}

/// `holding` lists exactly the valid contacts among the first `n`, each
/// once and in rising order.
pub proof fn lemma_holding(contacts: Seq<Contact>, n: nat)
    ensures
        holding(contacts, n).len() <= n,
        forall|p: int|
            0 <= p < holding(contacts, n).len() ==> 0 <= (#[trigger] holding(contacts, n)[p]) < n
                && contacts[holding(contacts, n)[p]].valid,
        forall|p: int, q: int|
            0 <= p < q < holding(contacts, n).len() ==> holding(contacts, n)[p] < holding(
                contacts,
                n,
            )[q],
        forall|i: int|
            0 <= i < n && (#[trigger] contacts[i]).valid ==> exists|p: int|
                0 <= p < holding(contacts, n).len() && holding(contacts, n)[p] == i,
    decreases n,
{
    if n > 0 {
        let before = holding(contacts, (n - 1) as nat);
        let now = holding(contacts, n);
        lemma_holding(contacts, (n - 1) as nat);
        assert forall|i: int| 0 <= i < n && (#[trigger] contacts[i]).valid implies exists|p: int|
            0 <= p < now.len() && now[p] == i by {
            if i < n - 1 {
                let p = choose|p: int| 0 <= p < before.len() && before[p] == i;
                assert(now[p] == i);
            } else {
                assert(now[now.len() - 1] == i);
            }
        }
    }
}

/// A manifold of at most six contacts holds at most six after any update,
/// and no more than it held where the new contact lies within the merge
/// distance of a contact that stayed.
pub proof fn lemma_update_bounded(
    before: Seq<Contact>,
    placements: Seq<Placement>,
    contact: Contact,
    gaps: Seq<Seq<Gap>>,
    after: Seq<Contact>,
)
    requires
        before.len() <= MAX_CONTACTS,
        updated(before, placements, contact, gaps, after),
    ensures
        after.len() <= MAX_CONTACTS,
        (exists|i: int|
            0 <= i < before.len() && before[i].placed(false, placements[i]).valid && (
            #[trigger] gaps[i])[before.len() as int].spec_near()) ==> after.len() <= before.len(),
{
    let n = before.len();
    let all = placed_all(before, placements);
    let stay = holding(all, n);
    let sub = selected(gaps, stay.push(n as int));
    lemma_holding(all, n);
    if exists|i: int| 0 <= i < n && all[i].valid && (#[trigger] gaps[i])[n as int].spec_near() {
        let i = choose|i: int|
            0 <= i < n && all[i].valid && (#[trigger] gaps[i])[n as int].spec_near();
        let p = choose|p: int| 0 <= p < stay.len() && stay[p] == i;
        assert(sub[p][stay.len() as int] == gaps[i][n as int]);
        assert(crowded(sub, stay.len() as int));
    }
}

/// A manifold has at most one nearest pair, so the contact that it gives
/// up is determined.
pub proof fn lemma_nearest_pair_unique(gaps: Seq<Seq<Gap>>, n: int, i: int, j: int, k: int, l: int)
    requires
        nearest_pair(gaps, n, i, j),
        nearest_pair(gaps, n, k, l),
    ensures
        i == k,
        j == l,
{
    if earlier(i, j, k, l) {
        assert(!distance(gaps, i, j).spec_le(distance(gaps, k, l)));
        assert(!distance(gaps, k, l).spec_lt(distance(gaps, i, j)));
    } else if earlier(k, l, i, j) {
        assert(!distance(gaps, k, l).spec_le(distance(gaps, i, j)));
        assert(!distance(gaps, i, j).spec_lt(distance(gaps, k, l)));
    }
}

} // verus!
