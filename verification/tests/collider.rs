use rigid4d::collider::{body_pairs, cast_ray, in_reach, Collider};
use rigid4d::mesh::Mesh4;
use rigid4d::scalar::Scalar;
use rigid4d::vector::Vector4;

fn s(x: f32) -> Scalar {
    Scalar::from_bits(x.to_bits())
}

fn f(x: Scalar) -> f32 {
    f32::from_bits(x.to_bits())
}

fn v(x: f32, y: f32, z: f32, w: f32) -> Vector4 {
    Vector4::new(s(x), s(y), s(z), s(w))
}

fn lengths(mesh: &Mesh4) -> Vec<Scalar> {
    mesh.vertices()
        .iter()
        .map(|p| s((f(p.x) * f(p.x) + f(p.y) * f(p.y) + f(p.z) * f(p.z) + f(p.w) * f(p.w)).sqrt()))
        .collect()
}

fn dots(collider: &Collider, d: [f32; 4]) -> Vec<Scalar> {
    collider
        .hull()
        .iter()
        .map(|p| s(f(p.x) * d[0] + f(p.y) * d[1] + f(p.z) * d[2] + f(p.w) * d[3]))
        .collect()
}

fn cube() -> Collider {
    let mesh = Mesh4::cube();
    Collider::from_mesh4(&mesh, &lengths(&mesh))
}

#[test]
fn the_hull_of_the_cube_has_sixteen_corners() {
    let collider = cube();
    assert_eq!(collider.hull().len(), 16);
    for (i, p) in collider.hull().iter().enumerate() {
        for q in &collider.hull()[..i] {
            assert_ne!(p, q);
        }
        for c in [p.x, p.y, p.z, p.w] {
            assert_eq!(f(c).abs(), 0.5);
        }
    }
}

#[test]
fn the_hull_keeps_the_vertices_in_the_order_of_their_first_occurrence() {
    let mesh = Mesh4::cube();
    let collider = cube();
    let mut expected: Vec<Vector4> = Vec::new();
    for p in mesh.vertices() {
        if !expected.contains(p) {
            expected.push(*p);
        }
    }
    assert_eq!(collider.hull(), &expected);
    assert_eq!(collider.hull()[0], v(0.5, -0.5, -0.5, -0.5));
    assert_eq!(collider.hull()[8], v(-0.5, -0.5, -0.5, -0.5));
}

#[test]
fn the_radius_of_the_cube_is_one() {
    assert_eq!(cube().radius(), s(1.0));
}

#[test]
fn the_radius_is_the_greatest_length_and_ignores_nan() {
    let mesh = Mesh4::cube();
    let mut lengths = vec![s(0.5); 64];
    lengths[7] = s(f32::NAN);
    lengths[20] = s(2.5);
    lengths[63] = s(1.0);
    let c = Collider::from_mesh4(&mesh, &lengths);
    assert_eq!(c.radius(), s(2.5));
    let c = Collider::from_mesh4(&mesh, &vec![s(f32::NAN); 64]);
    assert_eq!(c.radius(), s(0.0));
    let c = Collider::from_mesh4(&mesh, &vec![s(-1.0); 64]);
    assert_eq!(c.radius(), s(0.0));
}

#[test]
fn support_is_a_vertex_that_no_other_beats() {
    let collider = cube();
    let directions = [
        [1.0, 0.0, 0.0, 0.0],
        [1.0, 2.0, 3.0, 4.0],
        [-1.0, 2.0, -3.0, 4.0],
        [0.25, -0.5, 0.125, -4.0],
        [0.0, 0.0, 0.0, 0.0],
        [0.0, 1.0, 0.0, -1.0],
    ];
    for d in directions {
        let scores = dots(&collider, d);
        let best = collider.support(&scores);
        assert!(collider.hull().contains(&best));
        let best_dot = f(best.x) * d[0] + f(best.y) * d[1] + f(best.z) * d[2] + f(best.w) * d[3];
        for score in &scores {
            assert!(best_dot >= f(*score));
        }
    }
}

#[test]
fn support_picks_the_corner_in_the_direction() {
    let collider = cube();
    let scores = dots(&collider, [1.0, 2.0, 3.0, 4.0]);
    assert_eq!(collider.support(&scores), v(0.5, 0.5, 0.5, 0.5));
    let scores = dots(&collider, [-1.0, 2.0, -3.0, 4.0]);
    assert_eq!(collider.support(&scores), v(-0.5, 0.5, -0.5, 0.5));
}

#[test]
fn of_equal_scores_the_last_supports() {
    let collider = cube();
    let mut scores = vec![s(0.0); 16];
    assert_eq!(collider.support(&scores), collider.hull()[15]);
    scores[3] = s(2.0);
    scores[7] = s(2.0);
    scores[12] = s(1.0);
    assert_eq!(collider.support(&scores), collider.hull()[7]);
}

#[test]
fn a_score_that_is_no_number_never_wins_but_in_the_first_place() {
    let collider = cube();
    let mut scores = vec![s(1.0); 16];
    scores[15] = s(f32::NAN);
    assert_eq!(collider.support(&scores), collider.hull()[14]);
    scores[0] = s(f32::NAN);
    assert_eq!(collider.support(&scores), collider.hull()[0]);
}

#[test]
fn support_agrees_with_max_by() {
    let collider = cube();
    let lists: Vec<Vec<f32>> = vec![
        (0..16).map(|k| ((k * 7) % 5) as f32).collect(),
        (0..16).map(|k| -(((k * 3) % 4) as f32)).collect(),
        (0..16).map(|k| if k % 6 == 5 { f32::NAN } else { (k % 3) as f32 }).collect(),
    ];
    for list in lists {
        let expected = collider
            .hull()
            .iter()
            .zip(list.iter())
            .max_by(|x, y| x.1.partial_cmp(y.1).unwrap_or(std::cmp::Ordering::Greater))
            .unwrap()
            .0;
        let scores: Vec<Scalar> = list.iter().map(|x| s(*x)).collect();
        assert_eq!(&collider.support(&scores), expected);
    }
}

#[test]
fn bodies_are_in_reach_below_the_sum_of_their_radii() {
    assert!(in_reach(s(1.9), s(2.0)));
    assert!(!in_reach(s(2.0), s(2.0)));
    assert!(!in_reach(s(2.5), s(2.0)));
    assert!(!in_reach(s(f32::NAN), s(2.0)));
}

#[test]
fn the_nearest_hit_wins() {
    let hits = vec![(7, Some(s(3.0))), (8, None), (9, Some(s(1.5))), (10, Some(s(2.0)))];
    assert_eq!(cast_ray(&hits), Some((9, s(1.5))));
}

#[test]
fn of_hits_equally_near_the_first_wins() {
    let hits = vec![(7, Some(s(3.0))), (8, Some(s(1.5))), (9, Some(s(1.5)))];
    assert_eq!(cast_ray(&hits), Some((8, s(1.5))));
}

#[test]
fn no_hit_gives_nothing() {
    assert_eq!(cast_ray(&vec![]), None);
    assert_eq!(cast_ray(&vec![(7, None), (8, None)]), None);
    assert_eq!(cast_ray(&vec![(7, Some(s(f32::INFINITY))), (8, Some(s(f32::NAN)))]), None);
}

#[test]
fn a_hit_behind_the_origin_of_the_ray_still_counts() {
    let hits = vec![(7, Some(s(3.0))), (8, Some(s(-1.0)))];
    assert_eq!(cast_ray(&hits), Some((8, s(-1.0))));
}

#[test]
fn every_two_bodies_are_paired_once_in_order() {
    assert_eq!(body_pairs(0), vec![]);
    assert_eq!(body_pairs(1), vec![]);
    assert_eq!(body_pairs(2), vec![(0, 1)]);
    assert_eq!(body_pairs(4), vec![(0, 1), (0, 2), (0, 3), (1, 2), (1, 3), (2, 3)]);
    let pairs = body_pairs(9);
    assert_eq!(pairs.len(), 36);
    for i in 0..9 {
        for j in i + 1..9 {
            assert_eq!(pairs[i * (2 * 9 - i - 1) / 2 + (j - i - 1)], (i, j));
        }
    }
}
