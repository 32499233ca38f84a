use rigid4d::contact::{
    effective_mass, positive_part, within, Arbiter, Contact, ContactPoint, Gap, Placement, BIAS_FACTOR_BITS,
    DEPTH_SLOP_BITS, DRIFT_BITS, FRICTION_BITS, MAX_CONTACTS, MERGE_BITS, REBOUND_SLOP_BITS,
    RESTITUTION_BITS,
};
use rigid4d::scalar::Scalar;
use rigid4d::vector::{Matrix4, Vector4};

fn s(x: f32) -> Scalar {
    Scalar::from_bits(x.to_bits())
}

fn v(x: f32, y: f32, z: f32, w: f32) -> Vector4 {
    Vector4::new(s(x), s(y), s(z), s(w))
}

fn placement(k: f32, separation: f32, a_drift: f32, b_drift: f32) -> Placement {
    Placement {
        a_world_space_anchor: v(k, 0.0, 0.0, 1.0),
        a_world_space: v(k, 0.0, 0.0, 2.0),
        b_world_space_anchor: v(k, 0.0, 0.0, 3.0),
        b_world_space: v(k, 0.0, 0.0, 4.0),
        separation: s(separation),
        a_drift: s(a_drift),
        b_drift: s(b_drift),
    }
}

fn contact(k: f32, depth: f32) -> Contact {
    let point = ContactPoint {
        a_local: v(k, 1.0, 0.0, 0.0),
        b_local: v(k, 2.0, 0.0, 0.0),
        normal: v(0.0, depth, 0.0, 0.0),
    };
    Contact::from_contact_point(point, v(0.0, 1.0, 0.0, 0.0), s(depth), &placement(k, 0.0, 0.0, 0.0))
}

fn far() -> Gap {
    Gap { a: s(1.0), b: s(1.0) }
}

fn table(n: usize) -> Vec<Vec<Gap>> {
    vec![vec![far(); n]; n]
}

fn holding(k: f32) -> Placement {
    placement(k, 0.5, 0.001, 0.001)
}

fn arbiter_of(contacts: &[Contact]) -> Arbiter {
    let mut arbiter = Arbiter::new(contacts[0]);
    for (i, c) in contacts.iter().enumerate().skip(1) {
        arbiter.offer(*c, &table(i + 1));
    }
    assert_eq!(arbiter.len(), contacts.len());
    arbiter
}

fn contacts_of(arbiter: &Arbiter) -> Vec<Contact> {
    (0..arbiter.len()).map(|i| arbiter.get(i)).collect()
}

#[test]
fn constants_are_what_they_encode() {
    assert_eq!(DRIFT_BITS, 0.01f32.to_bits());
    assert_eq!(MERGE_BITS, 0.00000001f32.to_bits());
    assert_eq!(FRICTION_BITS, 0.3f32.to_bits());
    assert_eq!(RESTITUTION_BITS, 0.1f32.to_bits());
    assert_eq!(BIAS_FACTOR_BITS, 0.1f32.to_bits());
    assert_eq!(DEPTH_SLOP_BITS, 0.001f32.to_bits());
    assert_eq!(REBOUND_SLOP_BITS, 0.1f32.to_bits());
    assert_eq!(MAX_CONTACTS, 6);
}

#[test]
fn a_new_contact_is_valid_and_starts_where_it_is_placed() {
    let point = ContactPoint {
        a_local: v(1.0, 2.0, 3.0, 4.0),
        b_local: v(5.0, 6.0, 7.0, 8.0),
        normal: v(0.0, 0.0, 0.5, 0.0),
    };
    let at = placement(9.0, 0.0, 0.0, 0.0);
    let c = Contact::from_contact_point(point, v(0.0, 0.0, 1.0, 0.0), s(0.5), &at);
    assert!(c.valid);
    assert_eq!(c.a_local, v(1.0, 2.0, 3.0, 4.0));
    assert_eq!(c.b_local, v(5.0, 6.0, 7.0, 8.0));
    assert_eq!(c.a_world_space_anchor, at.a_world_space_anchor);
    assert_eq!(c.a_world_space, at.a_world_space);
    assert_eq!(c.a_world_space_original, at.a_world_space);
    assert_eq!(c.b_world_space_anchor, at.b_world_space_anchor);
    assert_eq!(c.b_world_space, at.b_world_space);
    assert_eq!(c.b_world_space_original, at.b_world_space);
    assert_eq!(c.depth, s(0.5));
    assert_eq!(c.bias, s(0.0));
    assert_eq!(c.impulse, v(0.0, 0.0, 0.0, 0.0));
    assert_eq!(c.effective_masses, v(0.0, 0.0, 0.0, 0.0));
}

#[test]
fn the_basis_is_made_of_the_components_of_the_normal() {
    let point = ContactPoint {
        a_local: v(0.0, 0.0, 0.0, 0.0),
        b_local: v(0.0, 0.0, 0.0, 0.0),
        normal: v(1.0, 2.0, 3.0, 4.0),
    };
    let n = v(0.1, 0.2, 0.3, 0.4);
    let c = Contact::from_contact_point(point, n, s(1.0), &placement(0.0, 0.0, 0.0, 0.0));
    assert_eq!(
        c.basis,
        Matrix4::from_columns(
            v(0.1, 0.2, 0.3, 0.4),
            v(-0.2, 0.1, -0.4, 0.3),
            v(0.3, -0.4, -0.1, 0.2),
            v(0.4, 0.3, -0.2, -0.1),
        )
    );
}

#[test]
fn a_contact_that_holds_takes_its_depth_from_the_separation() {
    let mut c = contact(1.0, 0.25);
    let original = c.a_world_space_original;
    c.update(false, &placement(2.0, 0.125, 0.009, 0.0));
    assert!(c.valid);
    assert_eq!(c.depth, s(0.125));
    assert_eq!(c.a_world_space, v(2.0, 0.0, 0.0, 2.0));
    assert_eq!(c.b_world_space_anchor, v(2.0, 0.0, 0.0, 3.0));
    assert_eq!(c.a_world_space_original, original);
}

#[test]
fn a_contact_that_has_parted_is_invalid() {
    let mut c = contact(1.0, 0.25);
    c.update(false, &placement(1.0, 0.0, 0.0, 0.0));
    assert!(!c.valid);
    assert_eq!(c.depth, s(0.25));
    let mut c = contact(1.0, 0.25);
    c.update(false, &placement(1.0, -0.5, 0.0, 0.0));
    assert!(!c.valid);
    let mut c = contact(1.0, 0.25);
    c.update(false, &placement(1.0, f32::NAN, 0.0, 0.0));
    assert!(!c.valid);
}

#[test]
fn a_contact_that_has_slid_is_invalid() {
    let mut c = contact(1.0, 0.25);
    c.update(false, &placement(1.0, 0.5, 0.01, 0.0));
    assert!(!c.valid);
    let mut c = contact(1.0, 0.25);
    c.update(false, &placement(1.0, 0.5, 0.0, 0.02));
    assert!(!c.valid);
    let mut c = contact(1.0, 0.25);
    c.update(false, &placement(1.0, 0.5, 0.0, f32::NAN));
    assert!(!c.valid);
}

#[test]
fn the_first_placement_fixes_the_start_and_never_invalidates() {
    let mut c = contact(1.0, 0.25);
    c.update(true, &placement(5.0, -1.0, 9.0, 9.0));
    assert!(c.valid);
    assert_eq!(c.depth, s(0.25));
    assert_eq!(c.a_world_space_original, v(5.0, 0.0, 0.0, 2.0));
    assert_eq!(c.b_world_space_original, v(5.0, 0.0, 0.0, 4.0));
}

#[test]
fn gaps_are_near_within_the_merge_distance_at_either_anchor() {
    assert!(Gap { a: s(0.00000001), b: s(1.0) }.near());
    assert!(Gap { a: s(1.0), b: s(0.000000005) }.near());
    assert!(Gap { a: s(0.0), b: s(f32::NAN) }.near());
    assert!(!Gap { a: s(0.000000011), b: s(1.0) }.near());
    // A squared distance of 0.00005 is a distance of 0.007: too far.
    assert!(!Gap { a: s(0.00005), b: s(0.0001) }.near());
    assert!(!Gap { a: s(f32::NAN), b: s(f32::NAN) }.near());
    assert_eq!(Gap { a: s(0.5), b: s(0.25) }.nearest(), s(0.25));
    assert_eq!(Gap { a: s(f32::NAN), b: s(0.25) }.nearest(), s(0.25));
    assert_eq!(Gap { a: s(0.5), b: s(f32::NAN) }.nearest(), s(0.5));
}

#[test]
fn positive_part_is_never_negative() {
    assert_eq!(positive_part(s(2.5)), s(2.5));
    assert_eq!(positive_part(s(-2.5)), s(0.0));
    assert_eq!(positive_part(s(f32::NAN)), s(0.0));
    assert_eq!(positive_part(s(f32::NEG_INFINITY)), s(0.0));
    assert_eq!(positive_part(s(0.0)), s(0.0));
}

#[test]
fn within_clamps_to_the_limit_either_way() {
    assert_eq!(within(s(0.2), s(0.3)), s(0.2));
    assert_eq!(within(s(0.4), s(0.3)), s(0.3));
    assert_eq!(within(s(-0.4), s(0.3)), s(-0.3));
    assert_eq!(within(s(-0.3), s(0.3)), s(-0.3));
    assert_eq!(within(s(5.0), s(0.0)), s(0.0));
    assert_eq!(within(s(-5.0), s(0.0)), s(-0.0));
    assert!(f32::from_bits(within(s(f32::NAN), s(0.3)).to_bits()).is_nan());
    for x in [0.2f32, 0.4, -0.4, 7.0, -0.0] {
        assert_eq!(within(s(x), s(0.3)), s(x.clamp(-0.3, 0.3)));
    }
}

#[test]
fn a_new_manifold_holds_its_one_contact() {
    let c = contact(1.0, 0.25);
    let arbiter = Arbiter::new(c);
    assert_eq!(arbiter.len(), 1);
    assert_eq!(arbiter.get(0), c);
}

#[test]
fn set_replaces_one_contact() {
    let mut arbiter = arbiter_of(&[contact(1.0, 0.1), contact(2.0, 0.2), contact(3.0, 0.3)]);
    arbiter.set(1, contact(9.0, 0.9));
    assert_eq!(contacts_of(&arbiter), vec![contact(1.0, 0.1), contact(9.0, 0.9), contact(3.0, 0.3)]);
}

#[test]
fn refresh_drops_the_contacts_that_no_longer_hold() {
    let mut arbiter = arbiter_of(&[contact(1.0, 0.1), contact(2.0, 0.2), contact(3.0, 0.3)]);
    let kept = arbiter.refresh(&vec![holding(1.0), placement(2.0, -1.0, 0.0, 0.0), holding(3.0)]);
    assert_eq!(kept, vec![0, 2]);
    assert_eq!(arbiter.len(), 2);
    let mut first = contact(1.0, 0.1);
    first.update(false, &holding(1.0));
    let mut third = contact(3.0, 0.3);
    third.update(false, &holding(3.0));
    assert_eq!(contacts_of(&arbiter), vec![first, third]);
    assert_eq!(arbiter.get(0).depth, s(0.5));
}

#[test]
fn refresh_may_leave_nothing() {
    let mut arbiter = arbiter_of(&[contact(1.0, 0.1), contact(2.0, 0.2)]);
    let kept = arbiter.refresh(&vec![placement(1.0, 0.0, 0.0, 0.0), placement(2.0, 1.0, 1.0, 0.0)]);
    assert_eq!(kept, Vec::<usize>::new());
    assert_eq!(arbiter.len(), 0);
}

#[test]
fn offer_takes_a_contact_that_is_far_from_the_others() {
    let mut arbiter = arbiter_of(&[contact(1.0, 0.1), contact(2.0, 0.2)]);
    arbiter.offer(contact(3.0, 0.3), &table(3));
    assert_eq!(contacts_of(&arbiter), vec![contact(1.0, 0.1), contact(2.0, 0.2), contact(3.0, 0.3)]);
}

#[test]
fn offer_drops_a_contact_within_the_merge_distance() {
    let mut arbiter = arbiter_of(&[contact(1.0, 0.1), contact(2.0, 0.2)]);
    let mut gaps = table(3);
    gaps[1][2] = Gap { a: s(1.0), b: s(0.00000001) };
    arbiter.offer(contact(3.0, 0.3), &gaps);
    assert_eq!(contacts_of(&arbiter), vec![contact(1.0, 0.1), contact(2.0, 0.2)]);
}

#[test]
fn offer_takes_a_contact_just_beyond_the_merge_distance() {
    let mut arbiter = arbiter_of(&[contact(1.0, 0.1), contact(2.0, 0.2)]);
    let mut gaps = table(3);
    gaps[0][2] = Gap { a: s(0.00005), b: s(0.00005) };
    gaps[1][2] = Gap { a: s(0.000000011), b: s(0.0001) };
    arbiter.offer(contact(3.0, 0.3), &gaps);
    assert_eq!(contacts_of(&arbiter), vec![contact(1.0, 0.1), contact(2.0, 0.2), contact(3.0, 0.3)]);
}

#[test]
fn offer_reads_the_column_of_the_new_contact_only() {
    let mut arbiter = arbiter_of(&[contact(1.0, 0.1), contact(2.0, 0.2)]);
    let mut gaps = table(3);
    // Near each other, and the row of the new contact, do not count.
    gaps[0][1] = Gap { a: s(0.0), b: s(0.0) };
    gaps[2][0] = Gap { a: s(0.0), b: s(0.0) };
    arbiter.offer(contact(3.0, 0.3), &gaps);
    assert_eq!(arbiter.len(), 3);
}

#[test]
fn a_seventh_contact_makes_the_manifold_give_up_the_shallower_of_the_nearest_pair() {
    let six: Vec<Contact> = (0..6).map(|k| contact(k as f32, 0.1 * (k + 1) as f32)).collect();
    let mut arbiter = arbiter_of(&six);
    let mut gaps = table(7);
    gaps[2][4] = Gap { a: s(0.5), b: s(0.75) };
    gaps[1][5] = Gap { a: s(0.9), b: s(0.25) };
    let seventh = contact(6.0, 0.05);
    arbiter.offer(seventh, &gaps);
    assert_eq!(arbiter.len(), 6);
    // The nearest pair is 1 and 5; contact 1 is the shallower.
    let mut expected = six.clone();
    expected.push(seventh);
    expected.remove(1);
    assert_eq!(contacts_of(&arbiter), expected);
}

#[test]
fn the_first_of_two_contacts_of_one_depth_is_given_up() {
    let six: Vec<Contact> = (0..6).map(|k| contact(k as f32, 0.5)).collect();
    let mut arbiter = arbiter_of(&six);
    let mut gaps = table(7);
    gaps[3][6] = Gap { a: s(0.5), b: s(0.5) };
    let seventh = contact(6.0, 0.5);
    arbiter.offer(seventh, &gaps);
    let mut expected = six.clone();
    expected.push(seventh);
    expected.remove(3);
    assert_eq!(contacts_of(&arbiter), expected);
}

#[test]
fn the_deeper_new_contact_pushes_out_its_neighbour() {
    let six: Vec<Contact> = (0..6).map(|k| contact(k as f32, 0.5)).collect();
    let mut arbiter = arbiter_of(&six);
    let mut gaps = table(7);
    gaps[3][6] = Gap { a: s(0.5), b: s(0.5) };
    let seventh = contact(6.0, 0.75);
    arbiter.offer(seventh, &gaps);
    let mut expected = six.clone();
    expected.push(seventh);
    expected.remove(3);
    assert_eq!(contacts_of(&arbiter), expected);
    // And the shallower new contact goes itself.
    let mut arbiter = arbiter_of(&six);
    let shallow = contact(6.0, 0.25);
    arbiter.offer(shallow, &gaps);
    assert_eq!(contacts_of(&arbiter), six);
}

#[test]
fn of_pairs_equally_near_the_first_counts() {
    let six: Vec<Contact> = (0..6).map(|k| contact(k as f32, 0.1 * (k + 1) as f32)).collect();
    let mut arbiter = arbiter_of(&six);
    let mut gaps = table(7);
    gaps[2][3] = Gap { a: s(0.5), b: s(0.5) };
    gaps[0][4] = Gap { a: s(0.5), b: s(0.5) };
    let seventh = contact(6.0, 0.05);
    arbiter.offer(seventh, &gaps);
    let mut expected = six.clone();
    expected.push(seventh);
    expected.remove(0);
    assert_eq!(contacts_of(&arbiter), expected);
}

#[test]
fn without_a_nearest_pair_the_first_contact_is_given_up() {
    let six: Vec<Contact> = (0..6).map(|k| contact(k as f32, 0.5)).collect();
    let mut arbiter = arbiter_of(&six);
    let gaps = vec![vec![Gap { a: s(f32::INFINITY), b: s(f32::NAN) }; 7]; 7];
    let seventh = contact(6.0, 0.5);
    arbiter.offer(seventh, &gaps);
    let mut expected = six.clone();
    expected.push(seventh);
    expected.remove(0);
    assert_eq!(contacts_of(&arbiter), expected);
}

#[test]
fn update_refreshes_then_offers_with_the_gaps_of_those_that_stayed() {
    let three = [contact(1.0, 0.1), contact(2.0, 0.2), contact(3.0, 0.3)];
    let mut arbiter = arbiter_of(&three);
    let placements = vec![holding(1.0), placement(2.0, -1.0, 0.0, 0.0), holding(3.0)];
    let mut gaps = table(4);
    // The contact that drops out is near the new one: that does not count.
    gaps[1][3] = Gap { a: s(0.0), b: s(0.0) };
    let new = contact(4.0, 0.4);
    arbiter.update(new, &placements, &gaps);
    let mut first = three[0];
    first.update(false, &holding(1.0));
    let mut third = three[2];
    third.update(false, &holding(3.0));
    assert_eq!(contacts_of(&arbiter), vec![first, third, new]);
}

#[test]
fn update_merges_with_a_contact_that_stayed() {
    let three = [contact(1.0, 0.1), contact(2.0, 0.2), contact(3.0, 0.3)];
    let mut arbiter = arbiter_of(&three);
    let placements = vec![holding(1.0), holding(2.0), holding(3.0)];
    let mut gaps = table(4);
    gaps[2][3] = Gap { a: s(0.000000001), b: s(4.0) };
    arbiter.update(contact(4.0, 0.4), &placements, &gaps);
    assert_eq!(arbiter.len(), 3);
}

#[test]
fn a_manifold_never_holds_more_than_six() {
    let mut arbiter = Arbiter::new(contact(0.0, 0.5));
    for k in 1..40 {
        let n = arbiter.len();
        let placements: Vec<Placement> = (0..n).map(|i| holding(i as f32)).collect();
        let mut gaps = table(n + 1);
        for i in 0..n {
            for j in 0..=n {
                let d = 0.01 + ((i * 7 + j * 13 + k) % 11) as f32;
                gaps[i][j] = Gap { a: s(d), b: s(d + 1.0) };
            }
        }
        arbiter.update(contact(k as f32, 0.5 + (k % 3) as f32), &placements, &gaps);
        assert!(arbiter.len() <= 6);
        if k >= 5 {
            assert_eq!(arbiter.len(), 6);
        }
    }
}

#[test]
fn bodies_that_oppose_nothing_have_no_effective_mass() {
    assert_eq!(effective_mass(s(2.0), s(0.5)), s(0.5));
    assert_eq!(effective_mass(s(0.0), s(f32::INFINITY)), s(0.0));
    assert_eq!(effective_mass(s(-0.0), s(f32::NEG_INFINITY)), s(0.0));
    assert_eq!(effective_mass(s(f32::INFINITY), s(0.0)), s(0.0));
    assert_eq!(effective_mass(s(f32::NAN), s(f32::NAN)), s(0.0));
    assert_eq!(effective_mass(s(-1.0), s(-1.0)), s(0.0));
}
