use pathtracer::scalar::Scalar;
use pathtracer::utils::{random, random_range};
use pathtracer::vec3::{
    cross, dot, into_hemisphere, is_accepted, random_unit_hemisphere, random_unit_vector, reflect,
    refract, unit_from_candidates, Vec3,
};

fn s(x: f32) -> Scalar {
    Scalar::from_bits(x.to_bits())
}

fn f(x: Scalar) -> f32 {
    f32::from_bits(x.to_bits())
}

fn v(x: f32, y: f32, z: f32) -> Vec3 {
    Vec3::from_point(s(x), s(y), s(z))
}

fn parts(a: Vec3) -> (f32, f32, f32) {
    (f(a.x), f(a.y), f(a.z))
}

#[test]
fn new_is_the_zero_vector() {
    assert_eq!(parts(Vec3::new()), (0.0, 0.0, 0.0));
}

#[test]
fn componentwise_arithmetic() {
    let a = v(1.0, 2.0, 3.0);
    let b = v(0.5, -4.0, 8.0);
    assert_eq!(parts(a.add(b)), (1.5, -2.0, 11.0));
    assert_eq!(parts(a.sub(b)), (0.5, 6.0, -5.0));
    assert_eq!(parts(a.neg()), (-1.0, -2.0, -3.0));
    assert_eq!(parts(a.mul(s(2.0))), (2.0, 4.0, 6.0));
    assert_eq!(parts(a.mul_vec(b)), (0.5, -8.0, 24.0));
    assert_eq!(parts(a.div(s(2.0))), (0.5, 1.0, 1.5));
}

#[test]
fn assigning_arithmetic() {
    let mut a = v(1.0, 2.0, 3.0);
    a.add_assign(v(1.0, 1.0, 1.0));
    assert_eq!(parts(a), (2.0, 3.0, 4.0));
    a.sub_assign(v(0.5, 0.5, 0.5));
    assert_eq!(parts(a), (1.5, 2.5, 3.5));
    a.mul_assign(s(2.0));
    assert_eq!(parts(a), (3.0, 5.0, 7.0));
    a.div_assign(s(4.0));
    assert_eq!(parts(a), (0.75, 1.25, 1.75));
}

#[test]
fn dot_and_length() {
    let a = v(1.0, 2.0, 3.0);
    let b = v(4.0, -5.0, 6.0);
    assert_eq!(f(a.dot(b)), 12.0);
    assert_eq!(f(dot(a, b)), 12.0);
    assert_eq!(f(v(3.0, 4.0, 12.0).length_sq()), 169.0);
    assert_eq!(f(v(3.0, 4.0, 12.0).norm()), 169.0);
    assert_eq!(f(v(3.0, 4.0, 12.0).length()), 13.0);
}

#[test]
fn cross_product_keeps_its_terms_in_order() {
    let a = v(1.0, 2.0, 3.0);
    let b = v(4.0, 5.0, 6.0);
    assert_eq!(parts(a.cross(b)), (-3.0, 6.0, -3.0));
    assert_eq!(parts(cross(v(1.0, 0.0, 0.0), v(0.0, 1.0, 0.0))), (0.0, 0.0, 1.0));
    assert_eq!(parts(cross(v(0.0, 1.0, 0.0), v(0.0, 0.0, 1.0))), (1.0, 0.0, 0.0));
    assert_eq!(parts(cross(v(0.0, 0.0, 1.0), v(1.0, 0.0, 0.0))), (0.0, 1.0, 0.0));
}

#[test]
fn unit_has_length_one() {
    let vectors = [
        v(1.0, 2.0, 3.0),
        v(-0.3, 0.4, 12.5),
        v(1e-10, 2e-10, -3e-10),
        v(1e10, -1e9, 3e10),
        v(0.0, 0.0, -5.0),
        v(13.0, 2.0, 3.0),
    ];
    for a in vectors.iter() {
        let once = a.unit();
        assert!((f(once.length()) - 1.0).abs() < 1e-5);
        let twice = once.unit();
        assert!((f(twice.length()) - 1.0).abs() < 1e-5);
    }
    assert_eq!(parts(v(0.0, 3.0, 4.0).unit()), (0.0, 0.6, 0.8));
}

#[test]
fn unit_of_zero_is_nan() {
    let u = Vec3::new().unit();
    assert!(u.x.is_nan() && u.y.is_nan() && u.z.is_nan());
}

#[test]
fn near_zero_tests_every_component() {
    assert!(v(1e-7, -1e-7, 0.0).near_zero());
    assert!(!v(1e-7, 1e-5, 0.0).near_zero());
    assert!(!v(1e-6, 0.0, 0.0).near_zero());
    assert!(!v(0.0, 0.0, -1.0).near_zero());
}

#[test]
fn reflect_mirrors_about_the_normal() {
    let n = v(0.0, 1.0, 0.0);
    assert_eq!(parts(reflect(v(1.0, -1.0, 0.0), n)), (1.0, 1.0, 0.0));
    assert_eq!(parts(v(3.0, -2.0, 5.0).reflect_along(n)), (3.0, 2.0, 5.0));
}

#[test]
fn reflect_twice_gives_the_vector_back() {
    let normals = [v(0.0, 1.0, 0.0), v(1.0, 0.0, 0.0), v(0.0, 0.0, -1.0), v(0.0, 0.6, 0.8)];
    let vectors = [v(1.0, -1.0, 0.0), v(0.25, 3.0, -2.0), v(-4.0, 0.5, 8.0)];
    for n in normals.iter() {
        for a in vectors.iter() {
            let back = a.reflect_along(*n).reflect_along(*n);
            let (x, y, z) = parts(back.sub(*a));
            assert!(x.abs() < 1e-5 && y.abs() < 1e-5 && z.abs() < 1e-5);
        }
    }
    let back = v(1.0, -1.0, 0.0).reflect_along(normals[0]).reflect_along(normals[0]);
    assert_eq!(parts(back), (1.0, -1.0, 0.0));
}

#[test]
fn refract_with_equal_indices_keeps_the_direction() {
    let n = v(0.0, 1.0, 0.0);
    let incoming = v(0.6, -0.8, 0.0);
    let (x, y, z) = parts(refract(incoming, n, s(1.0)));
    assert!((x - 0.6).abs() < 1e-6 && (y + 0.8).abs() < 1e-6 && z.abs() < 1e-6);
}

#[test]
fn refract_bends_towards_the_normal() {
    let n = v(0.0, 1.0, 0.0);
    let incoming = v(0.6, -0.8, 0.0);
    let out = incoming.refract_along(n, s(0.5));
    let (x, y, z) = parts(out);
    assert!((x - 0.3).abs() < 1e-6);
    assert!((y + (1.0f32 - 0.09).sqrt()).abs() < 1e-6);
    assert_eq!(z, 0.0);
}

#[test]
fn refract_agrees_with_the_formula() {
    let n = (0.0f32, 0.6f32, 0.8f32);
    let a = (0.3f32, -0.5f32, -0.2f32);
    let eta = 0.75f32;
    let cos_theta = (-a.0 * n.0 + -a.1 * n.1 + -a.2 * n.2).min(1.0);
    let across = (
        (a.0 + n.0 * cos_theta) * eta,
        (a.1 + n.1 * cos_theta) * eta,
        (a.2 + n.2 * cos_theta) * eta,
    );
    let length_sq = across.0 * across.0 + across.1 * across.1 + across.2 * across.2;
    let k = -(1.0 - length_sq).abs().sqrt();
    let expected = (across.0 + n.0 * k, across.1 + n.1 * k, across.2 + n.2 * k);
    let out = v(a.0, a.1, a.2).refract_along(v(n.0, n.1, n.2), s(eta));
    assert_eq!(parts(out), expected);
}

#[test]
fn random_lies_in_the_unit_interval() {
    for _ in 0..1000 {
        let x = f(random());
        assert!(0.0 <= x && x < 1.0);
    }
}

#[test]
fn random_range_lies_in_the_range() {
    for _ in 0..1000 {
        let x = f(random_range(s(-1.0)..s(1.0)));
        assert!(-1.0 <= x && x < 1.0);
        let y = f(random_range(s(0.5)..s(0.75)));
        assert!(0.5 <= y && y < 0.75);
    }
}

#[test]
fn random_vectors_lie_in_their_cubes() {
    for _ in 0..200 {
        let (x, y, z) = parts(Vec3::random());
        assert!(0.0 <= x && x < 1.0 && 0.0 <= y && y < 1.0 && 0.0 <= z && z < 1.0);
        let (x, y, z) = parts(Vec3::random_range(s(-2.0)..s(3.0)));
        assert!(-2.0 <= x && x < 3.0 && -2.0 <= y && y < 3.0 && -2.0 <= z && z < 3.0);
    }
}

#[test]
fn random_vectors_differ() {
    let a = parts(Vec3::random());
    let mut differs = false;
    for _ in 0..20 {
        if parts(Vec3::random()) != a {
            differs = true;
        }
    }
    assert!(differs);
}

#[test]
fn random_unit_vector_has_length_one() {
    for _ in 0..500 {
        let u = random_unit_vector();
        assert!((f(u.length()) - 1.0).abs() < 1e-5);
    }
}

#[test]
fn unit_from_candidates_takes_the_first_inside_the_ball() {
    let candidates = vec![v(0.9, 0.9, 0.9), v(-1.0, 0.5, 0.5), v(0.0, 0.3, -0.4), v(0.1, 0.0, 0.0)];
    assert_eq!(parts(unit_from_candidates(&candidates)), (0.0, 0.6, -0.8));
}

#[test]
fn unit_from_candidates_falls_back_to_the_first_axis() {
    let none: Vec<Vec3> = Vec::new();
    assert_eq!(parts(unit_from_candidates(&none)), (1.0, 0.0, 0.0));
    let outside = vec![v(0.9, 0.9, 0.9), v(0.0, -0.8, 0.7), v(0.0, 0.0, 0.0)];
    assert_eq!(parts(unit_from_candidates(&outside)), (1.0, 0.0, 0.0));
}

#[test]
fn candidates_are_taken_inside_the_ball() {
    assert!(is_accepted(v(0.0, 0.3, -0.4)));
    assert!(is_accepted(v(0.5, 0.5, 0.5)));
    assert!(is_accepted(v(0.0, -1.0, 0.0)));
    assert!(is_accepted(v(1e-20, 0.0, 0.0)));
    assert!(!is_accepted(v(0.0, 0.0, 0.0)));
    assert!(!is_accepted(v(-0.0, 0.0, -0.0)));
    assert!(!is_accepted(v(0.9, 0.9, 0.9)));
    assert!(!is_accepted(v(0.0, -0.8, 0.7)));
    assert!(!is_accepted(v(f32::NAN, 0.0, 0.0)));
}

#[test]
fn unit_from_candidates_passes_over_the_zero_vector() {
    let candidates = vec![v(0.0, 0.0, 0.0), v(0.0, 0.0, -0.5), v(0.3, 0.0, 0.0)];
    assert_eq!(parts(unit_from_candidates(&candidates)), (0.0, 0.0, -1.0));
    let edge = vec![v(0.0, -1.0, 0.0), v(0.3, 0.0, 0.0)];
    assert_eq!(parts(unit_from_candidates(&edge)), (0.0, -1.0, 0.0));
}

#[test]
fn random_unit_vectors_are_not_all_the_same() {
    let first = parts(random_unit_vector());
    let mut differs = false;
    let mut off_axis = false;
    for _ in 0..50 {
        let u = parts(random_unit_vector());
        if u != first {
            differs = true;
        }
        if u != (1.0, 0.0, 0.0) {
            off_axis = true;
        }
        assert!(!u.0.is_nan() && !u.1.is_nan() && !u.2.is_nan());
    }
    assert!(differs && off_axis);
}

#[test]
fn random_range_takes_wide_ranges_on_one_side_of_zero() {
    for _ in 0..200 {
        let x = f(random_range(s(0.0)..s(3e38)));
        assert!(0.0 <= x && x < 3e38);
        let y = f(random_range(s(-3e38)..s(-1.0)));
        assert!(-3e38 <= y && y < -1.0);
        let z = f(random_range(s(-1.6e38)..s(1.6e38)));
        assert!(-1.6e38 <= z && z < 1.6e38);
    }
}

#[test]
fn hemisphere_points_with_the_normal() {
    let n = v(0.0, 1.0, 0.0);
    assert_eq!(parts(into_hemisphere(n, v(0.6, 0.8, 0.0))), (0.6, 0.8, 0.0));
    assert_eq!(parts(into_hemisphere(n, v(0.6, -0.8, 0.0))), (-0.6, 0.8, 0.0));
    for _ in 0..200 {
        let u = random_unit_hemisphere(n);
        assert!(f(u.dot(n)) >= 0.0);
        assert!((f(u.length()) - 1.0).abs() < 1e-5);
    }
}
