use rigid4d::constraints::{Constraints, Overlap, Touch};
use rigid4d::contact::{Arbiter, Contact, ContactPoint, Gap, Placement};
use rigid4d::joint::Joint;
use rigid4d::scalar::Scalar;
use rigid4d::vector::{Matrix4, Matrix4x6, Vector4};

fn s(x: f32) -> Scalar {
    Scalar::from_bits(x.to_bits())
}

fn v(x: f32, y: f32, z: f32, w: f32) -> Vector4 {
    Vector4::new(s(x), s(y), s(z), s(w))
}

fn placement(k: f32, separation: f32) -> Placement {
    Placement {
        a_world_space_anchor: v(k, 0.0, 0.0, 1.0),
        a_world_space: v(k, 0.0, 0.0, 2.0),
        b_world_space_anchor: v(k, 0.0, 0.0, 3.0),
        b_world_space: v(k, 0.0, 0.0, 4.0),
        separation: s(separation),
        a_drift: s(0.0),
        b_drift: s(0.0),
    }
}

fn contact(k: f32) -> Contact {
    let point = ContactPoint {
        a_local: v(k, 1.0, 0.0, 0.0),
        b_local: v(k, 2.0, 0.0, 0.0),
        normal: v(0.0, 0.5, 0.0, 0.0),
    };
    Contact::from_contact_point(point, v(0.0, 1.0, 0.0, 0.0), s(0.5), &placement(k, 0.0))
}

fn joint(k: f32) -> Joint {
    Joint::new(1, v(k, 0.0, 0.0, 0.0), 2, v(0.0, k, 0.0, 0.0))
}

fn touch(k: f32, n: usize) -> Touch {
    Touch {
        contact: contact(k),
        placements: (0..n).map(|i| placement(i as f32, 0.25)).collect(),
        gaps: vec![vec![Gap { a: s(1.0), b: s(1.0) }; n + 1]; n + 1],
    }
}

fn sorted(mut pairs: Vec<(u64, u64)>) -> Vec<(u64, u64)> {
    pairs.sort();
    pairs
}

#[test]
fn a_new_joint_is_all_zero_but_for_its_anchors() {
    let j = Joint::new(3, v(1.0, 2.0, 3.0, 4.0), 9, v(5.0, 6.0, 7.0, 8.0));
    assert_eq!(j.a, 3);
    assert_eq!(j.b, 9);
    assert_eq!(j.a_anchor, v(1.0, 2.0, 3.0, 4.0));
    assert_eq!(j.b_anchor, v(5.0, 6.0, 7.0, 8.0));
    assert_eq!(j.a_jacobian, Matrix4x6::zeros());
    assert_eq!(j.b_jacobian, Matrix4x6::zeros());
    assert_eq!(j.effective_mass, Matrix4::zeros());
    assert_eq!(j.bias, v(0.0, 0.0, 0.0, 0.0));
    assert_eq!(j.impulse, v(0.0, 0.0, 0.0, 0.0));
}

#[test]
fn joints_are_kept_by_ordered_pairs() {
    let mut c = Constraints::new();
    assert_eq!(c.add_joint(1, 2, joint(1.0)), None);
    assert_eq!(c.add_joint(2, 1, joint(2.0)), None);
    assert_eq!(c.add_joint(1, 2, joint(3.0)), Some(joint(1.0)));
    assert_eq!(sorted(c.joint_pairs()), vec![(1, 2), (2, 1)]);
    assert_eq!(c.remove_joint(2, 1), Some(joint(2.0)));
    assert_eq!(c.remove_joint(2, 1), None);
    assert_eq!(c.remove_joint(1, 2), Some(joint(3.0)));
    assert_eq!(c.joint_pairs(), vec![]);
}

#[test]
fn pairs_with_large_identifiers_stay_apart() {
    let mut c = Constraints::new();
    let big = u64::MAX;
    assert_eq!(c.add_joint(big, 0, joint(1.0)), None);
    assert_eq!(c.add_joint(0, big, joint(2.0)), None);
    assert_eq!(c.add_joint(big, big, joint(3.0)), None);
    assert_eq!(c.add_joint(big - 1, big, joint(4.0)), None);
    assert_eq!(c.add_joint(0, 0, joint(5.0)), None);
    assert_eq!(
        sorted(c.joint_pairs()),
        vec![(0, 0), (0, big), (big - 1, big), (big, 0), (big, big)]
    );
    assert_eq!(c.remove_joint(0, big), Some(joint(2.0)));
    assert_eq!(c.remove_joint(big, 0), Some(joint(1.0)));
}

#[test]
fn a_joint_can_be_worked_on_in_place() {
    let mut c = Constraints::new();
    c.add_joint(1, 2, joint(1.0));
    assert!(c.get_joint(2, 1).is_none());
    match c.get_joint(1, 2) {
        Some(j) => j.impulse = v(1.0, 1.0, 1.0, 1.0),
        None => panic!("the joint is there"),
    }
    let mut expected = joint(1.0);
    expected.impulse = v(1.0, 1.0, 1.0, 1.0);
    assert_eq!(c.remove_joint(1, 2), Some(expected));
}

#[test]
fn manifolds_are_kept_by_ordered_pairs() {
    let mut c = Constraints::new();
    assert!(c.add_arbiter(1, 2, Arbiter::new(contact(1.0))).is_none());
    assert!(c.add_arbiter(2, 1, Arbiter::new(contact(2.0))).is_none());
    let old = c.add_arbiter(1, 2, Arbiter::new(contact(3.0)));
    assert_eq!(old.map(|a| a.get(0)), Some(contact(1.0)));
    assert_eq!(sorted(c.arbiter_pairs()), vec![(1, 2), (2, 1)]);
    assert!(c.get_arbiter(3, 4).is_none());
    assert_eq!(c.get_arbiter(2, 1).map(|a| a.get(0)), Some(contact(2.0)));
    assert_eq!(c.remove_arbiter(1, 2).map(|a| a.get(0)), Some(contact(3.0)));
    assert!(c.remove_arbiter(1, 2).is_none());
    assert_eq!(c.arbiter_pairs(), vec![(2, 1)]);
    assert_eq!(c.joint_pairs(), vec![]);
}

#[test]
fn a_manifold_can_be_worked_on_in_place() {
    let mut c = Constraints::new();
    c.add_arbiter(1, 2, Arbiter::new(contact(1.0)));
    match c.get_arbiter(1, 2) {
        Some(a) => a.set(0, contact(5.0)),
        None => panic!("the manifold is there"),
    }
    assert_eq!(c.get_arbiter(1, 2).map(|a| a.get(0)), Some(contact(5.0)));
}

#[test]
fn an_overlap_that_begins_makes_a_manifold() {
    let mut c = Constraints::new();
    let r = c.do_collision(1, 2, Some(touch(1.0, 0)));
    assert_eq!(r, Overlap::Began);
    assert_eq!(r.delta(), 1);
    assert_eq!(c.arbiter_pairs(), vec![(1, 2)]);
    let a = c.get_arbiter(1, 2).unwrap();
    assert_eq!(a.len(), 1);
    assert_eq!(a.get(0), contact(1.0));
}

#[test]
fn an_overlap_that_continues_brings_the_manifold_up_to_date() {
    let mut c = Constraints::new();
    c.do_collision(1, 2, Some(touch(1.0, 0)));
    let r = c.do_collision(1, 2, Some(touch(2.0, 1)));
    assert_eq!(r, Overlap::Continued);
    assert_eq!(r.delta(), 0);
    let a = c.get_arbiter(1, 2).unwrap();
    assert_eq!(a.len(), 2);
    let mut first = contact(1.0);
    first.update(false, &placement(0.0, 0.25));
    assert_eq!(a.get(0), first);
    assert_eq!(a.get(1), contact(2.0));
}

#[test]
fn an_overlap_that_ends_takes_the_manifold_away() {
    let mut c = Constraints::new();
    c.do_collision(1, 2, Some(touch(1.0, 0)));
    c.do_collision(2, 1, Some(touch(2.0, 0)));
    let r = c.do_collision(1, 2, None);
    assert_eq!(r, Overlap::Ended);
    assert_eq!(r.delta(), -1);
    assert_eq!(c.arbiter_pairs(), vec![(2, 1)]);
}

#[test]
fn bodies_that_stay_apart_change_nothing() {
    let mut c = Constraints::new();
    c.do_collision(2, 1, Some(touch(2.0, 0)));
    let r = c.do_collision(1, 2, None);
    assert_eq!(r, Overlap::Apart);
    assert_eq!(r.delta(), 0);
    assert_eq!(c.arbiter_pairs(), vec![(2, 1)]);
}

#[test]
fn the_deltas_of_a_pass_count_the_overlapping_pairs() {
    let mut c = Constraints::new();
    let mut count = 0;
    count += c.do_collision(1, 2, Some(touch(1.0, 0))).delta();
    count += c.do_collision(1, 3, Some(touch(1.0, 0))).delta();
    count += c.do_collision(2, 3, None).delta();
    assert_eq!(count, 2);
    count += c.do_collision(1, 2, Some(touch(2.0, 1))).delta();
    count += c.do_collision(1, 3, None).delta();
    count += c.do_collision(2, 3, Some(touch(1.0, 0))).delta();
    assert_eq!(count, 2);
    assert_eq!(sorted(c.arbiter_pairs()), vec![(1, 2), (2, 3)]);
}

#[test]
fn a_singular_joint_sits_the_step_out() {
    let mut j = joint(1.0);
    j.impulse = v(1.0, 2.0, 3.0, 4.0);
    let active = j.prepare(v(1.0, 2.0, 3.0, 4.0), v(0.5, 0.0, 0.0, 0.0), None, v(9.0, 9.0, 9.0, 9.0));
    assert!(!active);
    assert_eq!(j.effective_mass, Matrix4::zeros());
    assert_eq!(j.bias, v(0.0, 0.0, 0.0, 0.0));
    assert_eq!(j.impulse, v(1.0, 2.0, 3.0, 4.0));
}

#[test]
fn a_prepared_joint_holds_its_jacobians_and_effective_mass() {
    let mut j = joint(1.0);
    let m = Matrix4::from_columns(
        v(1.0, 0.0, 0.0, 0.0),
        v(0.0, 2.0, 0.0, 0.0),
        v(0.0, 0.0, 3.0, 0.0),
        v(0.0, 0.0, 0.0, 4.0),
    );
    let active = j.prepare(v(1.0, 2.0, 3.0, 4.0), v(0.5, 0.0, 0.0, 0.0), Some(m), v(9.0, 8.0, 7.0, 6.0));
    assert!(active);
    assert_eq!(j.effective_mass, m);
    assert_eq!(j.bias, v(9.0, 8.0, 7.0, 6.0));
    assert_eq!(j.a_jacobian.c0, v(-2.0, 1.0, 0.0, 0.0));
    assert_eq!(j.a_jacobian.c5, v(0.0, 0.0, -4.0, 3.0));
    assert_eq!(j.b_jacobian.c0, v(-0.0, 0.5, 0.0, 0.0));
    assert_eq!(j.a_anchor, v(1.0, 0.0, 0.0, 0.0));
}
