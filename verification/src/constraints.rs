//! The constraints of a scene: the joints and the contact manifolds, each
//! kept under the ordered pair of bodies that it binds.

use vstd::prelude::*;
use vstd::std_specs::hash::EntrySpecFns;
use vstd::std_specs::hash::OccupiedEntrySpecFns;
use vstd::std_specs::iter::IteratorSpec;
use std::collections::hash_map::Entry;
use std::collections::HashMap;
use crate::contact::{rows, square, updated, Arbiter, Contact, Gap, Placement};
use crate::joint::Joint;

verus! {

/// The joints and manifolds of a scene.
pub struct Constraints {
    joints: HashMap<u128, Joint>,
    arbiters: HashMap<u128, Arbiter>,
}

/// What the collision pass found for a pair of bodies that overlap: the
/// contact of deepest overlap, and the measurements that bring the pair's
/// manifold up to date, if it has one.
pub struct Touch {
    pub contact: Contact,
    /// Where the contacts of the manifold lie now, one entry for each.
    pub placements: Vec<Placement>,
    /// The distances among the contacts of the manifold as they lie now,
    /// with a last row and column for the new contact.
    pub gaps: Vec<Vec<Gap>>,
}

/// How the overlap of a pair of bodies stands after a collision pass.
#[derive(Clone, Copy, Debug, PartialEq, Eq, Structural)]
pub enum Overlap {
    /// The bodies overlap and did not before: the pair has a new manifold.
    Began,
    /// The bodies overlap as before: the pair's manifold is up to date.
    Continued,
    /// The bodies overlapped and no longer do: the manifold is gone.
    Ended,
    /// The bodies do not overlap and did not before.
    Apart,
}

/// The key under which an ordered pair of bodies is kept: the two
/// identifiers side by side in one word.
pub open spec fn pair_key(pair: (u64, u64)) -> u128 {
    (pair.0 as int * 0x1_0000_0000_0000_0000 + pair.1 as int) as u128
}

/// The pair of bodies that is kept under a key.
pub open spec fn key_pair(key: u128) -> (u64, u64) {
    ((key as int / 0x1_0000_0000_0000_0000) as u64, (key as int % 0x1_0000_0000_0000_0000) as u64)
}

/// No two pairs share a key, and every key is that of its pair.
pub proof fn lemma_pair_key(pair: (u64, u64), key: u128)
    ensures
        key_pair(pair_key(pair)) == pair,
        pair_key(key_pair(key)) == key,
{
}

/// Every other pair has another key.
proof fn lemma_keys_differ(pair: (u64, u64))
    ensures
        forall|other: (u64, u64)| other != pair ==> #[trigger] pair_key(other) != pair_key(pair),
{
    assert forall|other: (u64, u64)| other != pair implies #[trigger] pair_key(other) != pair_key(
        pair,
    ) by {
        lemma_pair_key(other, 0);
        lemma_pair_key(pair, 0);
    }
}

impl Overlap {
    /// By how much the number of overlapping pairs has changed.
    pub open spec fn spec_delta(self) -> i32 {
        match self {
            Overlap::Began => 1i32,
            Overlap::Ended => -1i32,
            _ => 0i32,
        }
    }

    /// By how much the number of overlapping pairs has changed.
    #[verifier::when_used_as_spec(spec_delta)]
    pub fn delta(self) -> (r: i32)
        ensures
            r == self.spec_delta(),
    {
        match self {
            Overlap::Began => 1,
            Overlap::Ended => -1,
            _ => 0,
        }
    }
}

fn key_of(a: u64, b: u64) -> (key: u128)
    ensures
        key == pair_key((a, b)),
{
    (a as u128) * 0x1_0000_0000_0000_0000u128 + (b as u128)
}

fn pair_of(key: u128) -> (pair: (u64, u64))
    ensures
        pair == key_pair(key),
{
    ((key / 0x1_0000_0000_0000_0000u128) as u64, (key % 0x1_0000_0000_0000_0000u128) as u64)
}

/// The pairs of the keys of a map.
fn pairs_of<V>(map: &HashMap<u128, V>) -> (r: Vec<(u64, u64)>)
    ensures
        r@.no_duplicates(),
        forall|pair: (u64, u64)| r@.contains(pair) <==> map@.contains_key(pair_key(pair)),
{
    broadcast use vstd::std_specs::hash::group_hash_axioms;

    let mut r: Vec<(u64, u64)> = Vec::new();
    let ghost keys = map.keys().remaining().unref();
    for key in it: map.keys()
        invariant
            it.seq().unref() == keys,
            r@.len() == it.index(),
            forall|i: int| 0 <= i < r@.len() ==> (#[trigger] r@[i]) == key_pair(keys[i]),
    {
        r.push(pair_of(*key));
    }
    assert(r@.no_duplicates()) by {
        assert forall|i: int, j: int| 0 <= i < r@.len() && 0 <= j < r@.len() && i != j implies r@[i]
            != r@[j] by {
            lemma_pair_key((0, 0), keys[i]);
            lemma_pair_key((0, 0), keys[j]);
        }
    }
    assert forall|pair: (u64, u64)| r@.contains(pair) <==> map@.contains_key(pair_key(pair)) by {
        lemma_pair_key(pair, 0);
        if r@.contains(pair) {
            let i = choose|i: int| 0 <= i < r@.len() && r@[i] == pair;
            lemma_pair_key(pair, keys[i]);
            assert(keys.to_set().contains(keys[i]));
        }
        if map@.contains_key(pair_key(pair)) {
            assert(keys.to_set().contains(pair_key(pair)));
            let i = choose|i: int| 0 <= i < keys.len() && keys[i] == pair_key(pair);
            assert(r@[i] == pair);
        }
    }
    r
}

impl Constraints {
    /// The joints, by the pairs of bodies that they bind.
    pub closed spec fn joints(&self) -> Map<(u64, u64), Joint> {
        Map::new(
            |pair: (u64, u64)| self.joints@.contains_key(pair_key(pair)),
            |pair: (u64, u64)| self.joints@[pair_key(pair)],
        )
    }

    /// The contacts of the manifolds, by the pairs of bodies that they
    /// lie between.
    pub closed spec fn arbiters(&self) -> Map<(u64, u64), Seq<Contact>> {
        Map::new(
            |pair: (u64, u64)| self.arbiters@.contains_key(pair_key(pair)),
            |pair: (u64, u64)| self.arbiters@[pair_key(pair)]@,
        )
    }

    /// No joints and no manifolds.
    pub fn new() -> (r: Constraints)
        ensures
            r.joints() == Map::<(u64, u64), Joint>::empty(),
            r.arbiters() == Map::<(u64, u64), Seq<Contact>>::empty(),
    {
        broadcast use vstd::std_specs::hash::group_hash_axioms;

        let r = Constraints { joints: HashMap::new(), arbiters: HashMap::new() };
        assert(r.joints() =~= Map::<(u64, u64), Joint>::empty());
        assert(r.arbiters() =~= Map::<(u64, u64), Seq<Contact>>::empty());
        r
    }

    /// Puts a joint between `a` and `b` and hands back the joint that was
    /// there, if there was one.
    pub fn add_joint(&mut self, a: u64, b: u64, joint: Joint) -> (r: Option<Joint>)
        ensures
            final(self).joints() == old(self).joints().insert((a, b), joint),
            final(self).arbiters() == old(self).arbiters(),
            r == old(self).joints().get((a, b)),
    {
        broadcast use vstd::std_specs::hash::group_hash_axioms;

        let r = self.joints.insert(key_of(a, b), joint);
        proof {
            lemma_keys_differ((a, b));
            assert(self.joints() =~= old(self).joints().insert((a, b), joint));
            assert(self.arbiters() =~= old(self).arbiters());
        }
        r
    }

    /// Takes the joint between `a` and `b` away and hands it back, if
    /// there was one.
    pub fn remove_joint(&mut self, a: u64, b: u64) -> (r: Option<Joint>)
        ensures
            final(self).joints() == old(self).joints().remove((a, b)),
            final(self).arbiters() == old(self).arbiters(),
            r == old(self).joints().get((a, b)),
    {
        broadcast use vstd::std_specs::hash::group_hash_axioms;

        let key = key_of(a, b);
        let r = self.joints.remove(&key);
        proof {
            lemma_keys_differ((a, b));
            assert(self.joints() =~= old(self).joints().remove((a, b)));
            assert(self.arbiters() =~= old(self).arbiters());
        }
        r
    }

    /// The joint between `a` and `b`, for the solver to work on.
    pub fn get_joint(&mut self, a: u64, b: u64) -> (r: Option<&mut Joint>)
        ensures
            r is Some <==> old(self).joints().contains_key((a, b)),
            r is Some ==> *r->0 == old(self).joints()[(a, b)],
            r is Some ==> final(self).joints() =~= old(self).joints().insert((a, b), *final(r->0)),
            r is None ==> final(self).joints() =~= old(self).joints(),
            final(self).arbiters() =~= old(self).arbiters(),
    {
        broadcast use vstd::std_specs::hash::group_hash_axioms;

        proof {
            lemma_keys_differ((a, b));
        }
        match self.joints.entry(key_of(a, b)) {
            Entry::Occupied(e) => Some(e.into_mut()),
            Entry::Vacant(_) => None,
        }
    }

    /// The pairs of bodies that have a joint, each once, in no particular
    /// order.
    pub fn joint_pairs(&self) -> (r: Vec<(u64, u64)>)
        ensures
            r@.no_duplicates(),
            r@.to_set() == self.joints().dom(),
    {
        let r = pairs_of(&self.joints);
        assert(r@.to_set() =~= self.joints().dom());
        r
    }

    /// Puts a manifold between `a` and `b` and hands back the manifold
    /// that was there, if there was one.
    pub fn add_arbiter(&mut self, a: u64, b: u64, arbiter: Arbiter) -> (r: Option<Arbiter>)
        ensures
            final(self).arbiters() == old(self).arbiters().insert((a, b), arbiter@),
            final(self).joints() == old(self).joints(),
            r is Some <==> old(self).arbiters().contains_key((a, b)),
            r is Some ==> r->0@ == old(self).arbiters()[(a, b)],
    {
        broadcast use vstd::std_specs::hash::group_hash_axioms;

        let r = self.arbiters.insert(key_of(a, b), arbiter);
        proof {
            lemma_keys_differ((a, b));
            assert(self.arbiters() =~= old(self).arbiters().insert((a, b), arbiter@));
            assert(self.joints() =~= old(self).joints());
        }
        r
    }

    /// The manifold between `a` and `b`, for the solver to work on.
    pub fn get_arbiter(&mut self, a: u64, b: u64) -> (r: Option<&mut Arbiter>)
        ensures
            r is Some <==> old(self).arbiters().contains_key((a, b)),
            r is Some ==> r->0@ == old(self).arbiters()[(a, b)],
            r is Some ==> final(self).arbiters() =~= old(self).arbiters().insert(
                (a, b),
                final(r->0)@,
            ),
            r is None ==> final(self).arbiters() =~= old(self).arbiters(),
            final(self).joints() =~= old(self).joints(),
    {
        broadcast use vstd::std_specs::hash::group_hash_axioms;

        proof {
            lemma_keys_differ((a, b));
        }
        match self.arbiters.entry(key_of(a, b)) {
            Entry::Occupied(e) => Some(e.into_mut()),
            Entry::Vacant(_) => None,
        }
    }

    /// Takes the manifold between `a` and `b` away and hands it back, if
    /// there was one.
    pub fn remove_arbiter(&mut self, a: u64, b: u64) -> (r: Option<Arbiter>)
        ensures
            final(self).arbiters() == old(self).arbiters().remove((a, b)),
            final(self).joints() == old(self).joints(),
            r is Some <==> old(self).arbiters().contains_key((a, b)),
            r is Some ==> r->0@ == old(self).arbiters()[(a, b)],
    {
        broadcast use vstd::std_specs::hash::group_hash_axioms;

        let key = key_of(a, b);
        let r = self.arbiters.remove(&key);
        proof {
            lemma_keys_differ((a, b));
            assert(self.arbiters() =~= old(self).arbiters().remove((a, b)));
            assert(self.joints() =~= old(self).joints());
        }
        r
    }

    /// The pairs of bodies that have a manifold, each once, in no
    /// particular order.
    pub fn arbiter_pairs(&self) -> (r: Vec<(u64, u64)>)
        ensures
            r@.no_duplicates(),
            r@.to_set() == self.arbiters().dom(),
    {
        let r = pairs_of(&self.arbiters);
        assert(r@.to_set() =~= self.arbiters().dom());
        r
    }

    /// Whether `after` are the manifolds that a collision pass leaves when
    /// it finds `found` for the pair `pair` and the manifolds were `before`.
    ///
    /// A pair found to overlap gets a manifold of the one contact if it
    /// had none, and has its manifold brought up to date if it had one. A
    /// pair found apart loses its manifold. No other pair is touched.
    pub open spec fn collided(
        before: Map<(u64, u64), Seq<Contact>>,
        pair: (u64, u64),
        found: Option<Touch>,
        after: Map<(u64, u64), Seq<Contact>>,
    ) -> bool {
        match found {
            Some(touch) => if before.contains_key(pair) {
                &&& after.contains_key(pair)
                &&& after == before.insert(pair, after[pair])
                &&& updated(
                    before[pair],
                    touch.placements@,
                    touch.contact,
                    rows(touch.gaps@),
                    after[pair],
                )
            } else {
                after == before.insert(pair, seq![touch.contact])
            },
            None => after == before.remove(pair),
        }
    }

    /// How the overlap of a pair stands after a collision pass that found
    /// it to overlap or not, when it had a manifold or not.
    pub open spec fn overlap(found: bool, had: bool) -> Overlap {
        if found {
            if had {
                Overlap::Continued
            } else {
                Overlap::Began
            }
        } else {
            if had {
                Overlap::Ended
            } else {
                Overlap::Apart
            }
        }
    }

    /// Records what a collision pass found for the bodies `a` and `b`:
    /// a touch if they overlap, nothing if they do not.
    ///
    /// The measurements of a touch must fit the manifold that the pair
    /// has, if it has one: a placement for each contact, and a table of
    /// gaps with one row and column more than there are contacts.
    pub fn do_collision(&mut self, a: u64, b: u64, found: Option<Touch>) -> (r: Overlap)
        requires
            found is Some && old(self).arbiters().contains_key((a, b)) ==> {
                &&& found->0.placements@.len() == old(self).arbiters()[(a, b)].len()
                &&& square(rows(found->0.gaps@), old(self).arbiters()[(a, b)].len() + 1)
            },
        ensures
            Constraints::collided(old(self).arbiters(), (a, b), found, final(self).arbiters()),
            r == Constraints::overlap(found is Some, old(self).arbiters().contains_key((a, b))),
            final(self).joints() == old(self).joints(),
    {
        broadcast use vstd::std_specs::hash::group_hash_axioms;

        proof {
            lemma_keys_differ((a, b));
        }
        let key = key_of(a, b);
        match found {
            Some(touch) => {
                if self.arbiters.contains_key(&key) {
                    match self.get_arbiter(a, b) {
                        Some(arbiter) => {
                            arbiter.update(touch.contact, &touch.placements, &touch.gaps);
                        },
                        None => {},
                    }
                    Overlap::Continued
                } else {
                    self.arbiters.insert(key, Arbiter::new(touch.contact));
                    assert(self.arbiters() =~= old(self).arbiters().insert(
                        (a, b),
                        seq![touch.contact],
                    ));
                    assert(self.joints() =~= old(self).joints());
                    Overlap::Began
                }
            },
            None => {
                let had = self.arbiters.remove(&key);
                assert(self.arbiters() =~= old(self).arbiters().remove((a, b)));
                assert(self.joints() =~= old(self).joints());
                match had {
                    Some(_) => Overlap::Ended,
                    None => Overlap::Apart,
                }
            },
        }
    }
}

} // verus!
