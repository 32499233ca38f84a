use rigid4d::portal::{
    contact_shares, improvement, orthogonal, overlaps, reaches_origin, refinement,
    search_direction, Portal,
    Refinement, Vertex, MAX_ROUNDS, STALL_BITS,
};
use rigid4d::scalar::Scalar;
use rigid4d::vector::Vector4;

fn s(x: f32) -> Scalar {
    Scalar::from_bits(x.to_bits())
}

fn v(x: f32, y: f32, z: f32, w: f32) -> Vector4 {
    Vector4::new(s(x), s(y), s(z), s(w))
}

fn vertex(k: f32) -> Vertex {
    Vertex { a_local: v(k, 0.0, 0.0, 0.0), b_local: v(0.0, k, 0.0, 0.0), minkowski: v(k, -k, 0.0, 0.0) }
}

fn portal() -> Portal {
    Portal::new(v(9.0, 9.0, 9.0, 9.0), vertex(0.0), vertex(1.0), vertex(2.0), vertex(3.0))
}

#[test]
fn stall_tolerance_is_one_millionth() {
    assert_eq!(STALL_BITS, 0.000001f32.to_bits());
    assert_eq!(MAX_ROUNDS, 10);
}

#[test]
fn a_support_point_on_the_near_side_does_not_reach() {
    assert!(reaches_origin(s(0.0)));
    assert!(reaches_origin(s(2.5)));
    assert!(!reaches_origin(s(-0.001)));
    assert!(reaches_origin(s(f32::NAN)));
}

#[test]
fn orthogonal_swaps_components_in_pairs() {
    assert_eq!(orthogonal(v(1.0, 2.0, 3.0, 4.0)), v(-2.0, 1.0, -4.0, 3.0));
}

#[test]
fn search_direction_falls_back_when_the_rejection_has_no_length() {
    let rejection = v(0.5, 0.0, 0.0, 0.0);
    let mean = v(1.0, 2.0, 3.0, 4.0);
    assert_eq!(search_direction(rejection, s(0.25), mean), rejection);
    assert_eq!(search_direction(v(0.0, 0.0, 0.0, 0.0), s(0.0), mean), v(-2.0, 1.0, -4.0, 3.0));
    assert_eq!(search_direction(rejection, s(-0.0), mean), v(-2.0, 1.0, -4.0, 3.0));
}

#[test]
fn refinement_ends_once_the_origin_is_behind_the_portal() {
    assert_eq!(refinement(s(0.0), s(-1.0), s(0.0), 9), Refinement::Enclosed);
    assert_eq!(refinement(s(3.0), s(1.0), s(1.0), 0), Refinement::Enclosed);
}

#[test]
fn refinement_fails_without_progress() {
    assert_eq!(refinement(s(-1.0), s(-0.5), s(1.0), 0), Refinement::Failed);
    assert_eq!(refinement(s(-1.0), s(0.5), s(0.0000009), 0), Refinement::Failed);
    assert_eq!(refinement(s(-1.0), s(0.5), s(1.0), 9), Refinement::Failed);
}

#[test]
fn refinement_replaces_while_there_is_progress() {
    assert_eq!(refinement(s(-1.0), s(0.5), s(1.0), 0), Refinement::Replace);
    assert_eq!(refinement(s(-1.0), s(0.0), s(0.000001), 8), Refinement::Replace);
    assert_eq!(refinement(s(f32::NAN), s(0.5), s(1.0), 3), Refinement::Replace);
}

#[test]
fn improving_stops_below_the_stall_tolerance() {
    assert!(improvement(s(0.000001), 0));
    assert!(improvement(s(1.0), 4));
    assert!(!improvement(s(0.0000009), 0));
    assert!(improvement(s(f32::NAN), 9));
}

#[test]
fn others_follow_round_the_portal() {
    let p = portal();
    assert_eq!(p.others(0), (vertex(1.0), vertex(2.0), vertex(3.0)));
    assert_eq!(p.others(1), (vertex(2.0), vertex(3.0), vertex(0.0)));
    assert_eq!(p.others(2), (vertex(3.0), vertex(0.0), vertex(1.0)));
    assert_eq!(p.others(3), (vertex(0.0), vertex(1.0), vertex(2.0)));
    assert_eq!(p.get(2), vertex(2.0));
}

#[test]
fn refine_replaces_the_first_point_whose_frame_holds_the_origin() {
    let mut p = portal();
    let candidates = vec![
        Some(v(1.0, -0.5, 1.0, 1.0)),
        None,
        Some(v(0.0, 0.5, 0.0, 2.0)),
        Some(v(1.0, 1.0, 1.0, 1.0)),
    ];
    assert!(p.refine(vertex(7.0), &candidates));
    assert_eq!(
        p,
        Portal::new(v(9.0, 9.0, 9.0, 9.0), vertex(0.0), vertex(1.0), vertex(7.0), vertex(3.0))
    );
}

#[test]
fn refine_leaves_the_portal_when_no_frame_holds_the_origin() {
    let mut p = portal();
    let candidates = vec![
        Some(v(1.0, -0.5, 1.0, 1.0)),
        None,
        Some(v(f32::NAN, 0.5, 0.0, 2.0)),
        Some(v(1.0, 1.0, 1.0, -0.000001)),
    ];
    assert!(!p.refine(vertex(7.0), &candidates));
    assert_eq!(p, portal());
}

#[test]
fn refine_counts_negative_zero_as_inside() {
    let mut p = portal();
    let candidates = vec![Some(v(-0.0, 0.0, 0.0, 0.0)), None, None, None];
    assert!(p.refine(vertex(7.0), &candidates));
    assert_eq!(p.v0, vertex(7.0));
}

#[test]
fn an_overlap_has_a_depth_above_zero_and_below_infinity() {
    assert!(overlaps(s(0.1)));
    assert!(overlaps(s(1.0e-45)));
    assert!(!overlaps(s(0.0)));
    assert!(!overlaps(s(-0.1)));
    assert!(!overlaps(s(f32::INFINITY)));
    assert!(!overlaps(s(f32::NAN)));
}

#[test]
fn the_points_of_a_portal_share_in_the_contact_by_the_coordinates_of_the_origin() {
    let shares = v(0.1, 0.2, 0.3, 0.4);
    let first = v(1.0, 0.0, 0.0, 0.0);
    assert_eq!(contact_shares(Some(v(1.0, 2.0, 3.0, 4.0)), s(10.0), shares), shares);
    assert_eq!(contact_shares(Some(v(1.0, -2.0, 3.0, 4.0)), s(6.0), shares), first);
    assert_eq!(contact_shares(Some(v(0.0, 0.0, 0.0, 0.0)), s(0.0), shares), first);
    assert_eq!(contact_shares(None, s(1.0), shares), first);
    assert_eq!(contact_shares(Some(v(1.0, 2.0, 3.0, 4.0)), s(f32::NAN), shares), first);
}

#[test]
fn improving_stops_after_ten_rounds() {
    assert!(improvement(s(1.0), 9));
    assert!(!improvement(s(1.0), 10));
    assert!(!improvement(s(1.0), 11));
    assert!(!improvement(s(f32::INFINITY), usize::MAX));
}
