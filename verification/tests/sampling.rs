use raytracer::sampling::LatticePoint;
use raytracer::utilities::{clamp, numerator_of, random_double, UNIT};

const ONE: i64 = 1 << 53;

#[test]
fn unit_is_two_to_the_53() {
    assert_eq!(UNIT, 1u64 << 53);
}

#[test]
fn clamp_limits_to_the_interval() {
    assert_eq!(clamp(5, 0, 10), 5);
    assert_eq!(clamp(-5, 0, 10), 0);
    assert_eq!(clamp(15, 0, 10), 10);
    assert_eq!(clamp(0, 0, 10), 0);
    assert_eq!(clamp(10, 0, 10), 10);
    assert_eq!(clamp(i64::MIN, -1, 1), -1);
    assert_eq!(clamp(i64::MAX, -1, 1), 1);
}

#[test]
fn clamp_tests_the_lower_bound_first() {
    assert_eq!(clamp(5, 10, 0), 10);
    assert_eq!(clamp(20, 10, 0), 0);
    assert_eq!(clamp(-3, 10, 0), 10);
}

#[test]
fn numerator_is_the_top_53_bits() {
    assert_eq!(numerator_of(0), 0);
    assert_eq!(numerator_of(u64::MAX), (1 << 53) - 1);
    assert_eq!(numerator_of(1 << 11), 1);
    assert_eq!(numerator_of((1 << 11) - 1), 0);
    assert_eq!(numerator_of(1 << 63), 1 << 52);
}

#[test]
fn random_double_stays_below_one_and_varies() {
    let first = random_double();
    let mut varied = false;
    for _ in 0..1000 {
        let n = random_double();
        assert!(n < UNIT);
        if n != first {
            varied = true;
        }
    }
    assert!(varied);
}

#[test]
fn from_draws_spreads_over_the_cube() {
    let p = LatticePoint::from_draws(0, 1 << 52, (1 << 53) - 1);
    assert_eq!(p, LatticePoint { x: -ONE, y: 0, z: ONE - 2 });
    let q = LatticePoint::from_draws(3 << 51, 1 << 51, 1);
    assert_eq!(q, LatticePoint { x: ONE / 2, y: -ONE / 2, z: -ONE + 2 });
}

#[test]
fn length_squared_is_exact() {
    assert_eq!(LatticePoint { x: 0, y: 0, z: 0 }.length_squared(), 0);
    assert_eq!(LatticePoint { x: 3, y: -4, z: 12 }.length_squared(), 169);
    assert_eq!(LatticePoint { x: ONE, y: 0, z: 0 }.length_squared(), 1u128 << 106);
    assert_eq!(
        LatticePoint { x: i64::MIN, y: i64::MIN, z: i64::MAX }.length_squared(),
        (1u128 << 126) * 2 + (i64::MAX as u128) * (i64::MAX as u128)
    );
}

#[test]
fn unit_ball_excludes_its_surface() {
    assert!(LatticePoint { x: 0, y: 0, z: 0 }.inside_unit_sphere());
    assert!(LatticePoint { x: ONE - 1, y: 0, z: 0 }.inside_unit_sphere());
    assert!(!LatticePoint { x: ONE, y: 0, z: 0 }.inside_unit_sphere());
    assert!(!LatticePoint { x: -ONE, y: 0, z: 0 }.inside_unit_sphere());
    assert!(!LatticePoint { x: 0, y: ONE - 1, z: ONE / 2 }.inside_unit_sphere());
    // (0.6, 0.8, 0) lies on the surface up to rounding of the numerators.
    assert!(LatticePoint { x: ONE / 2, y: ONE / 2, z: ONE / 2 }.inside_unit_sphere());
    assert!(!LatticePoint { x: ONE - 1, y: ONE - 1, z: ONE - 1 }.inside_unit_sphere());
}

#[test]
fn random_in_cube_stays_in_the_cube() {
    for _ in 0..1000 {
        let p = LatticePoint::random_in_cube();
        for c in [p.x, p.y, p.z] {
            assert!(-ONE <= c && c < ONE);
            assert_eq!(c % 2, 0);
        }
    }
}

#[test]
fn random_in_unit_sphere_without_tries_gives_up() {
    assert_eq!(LatticePoint::random_in_unit_sphere(0), None);
    assert_eq!(LatticePoint::random_in_hemisphere(&LatticePoint { x: 0, y: ONE, z: 0 }, 0), None);
}

#[test]
fn random_in_unit_sphere_lies_inside_the_ball() {
    for _ in 0..500 {
        let p = LatticePoint::random_in_unit_sphere(1000).unwrap();
        assert!(p.inside_unit_sphere());
        assert!(p.length_squared() < 1u128 << 106);
    }
}

#[test]
fn random_in_unit_disk_lies_inside_the_disk() {
    assert_eq!(LatticePoint::random_in_unit_disk(0), None);
    for _ in 0..500 {
        let p = LatticePoint::random_in_unit_disk(1000).unwrap();
        assert_eq!(p.z, 0);
        assert!(p.inside_unit_sphere());
        assert!((p.x as i128) * (p.x as i128) + (p.y as i128) * (p.y as i128) < 1i128 << 106);
    }
}

#[test]
fn random_in_unit_sphere_varies() {
    let first = LatticePoint::random_in_unit_sphere(1000).unwrap();
    let mut varied = false;
    for _ in 0..100 {
        if LatticePoint::random_in_unit_sphere(1000).unwrap() != first {
            varied = true;
        }
    }
    assert!(varied);
}

#[test]
fn dot_and_neg_are_exact() {
    let p = LatticePoint { x: 3, y: -4, z: 5 };
    let n = LatticePoint { x: 10, y: 100, z: -1000 };
    assert_eq!(p.dot(&n), 30 - 400 - 5000);
    assert_eq!(p.neg(), LatticePoint { x: -3, y: 4, z: -5 });
    assert_eq!(p.neg().dot(&n), 5370);
    let corner = LatticePoint { x: -ONE, y: ONE - 1, z: -ONE };
    let wide = LatticePoint { x: i64::MIN, y: i64::MAX, z: i64::MIN };
    assert_eq!(
        corner.dot(&wide),
        (ONE as i128) * (1i128 << 63) * 2 + ((ONE - 1) as i128) * (i64::MAX as i128)
    );
}

#[test]
fn toward_mirrors_a_point_on_the_other_side() {
    let up = LatticePoint { x: 0, y: ONE, z: 0 };
    let above = LatticePoint { x: 5, y: 7, z: -9 };
    let below = LatticePoint { x: 5, y: -7, z: -9 };
    let level = LatticePoint { x: 5, y: 0, z: -9 };
    assert_eq!(above.toward(&up), above);
    assert_eq!(below.toward(&up), LatticePoint { x: -5, y: 7, z: 9 });
    assert_eq!(level.toward(&up), LatticePoint { x: -5, y: 0, z: 9 });
}

#[test]
fn random_in_hemisphere_lies_on_the_side_of_the_normal() {
    let normal = LatticePoint { x: ONE / 2, y: -ONE / 2, z: ONE / 4 };
    for _ in 0..500 {
        let p = LatticePoint::random_in_hemisphere(&normal, 1000).unwrap();
        assert!(p.inside_unit_sphere());
        assert!(p.dot(&normal) >= 0);
    }
}

#[test]
fn random_in_hemisphere_returns_a_draw_or_its_mirror() {
    let normal = LatticePoint { x: 0, y: 0, z: -ONE };
    for _ in 0..500 {
        let p = LatticePoint::random_in_hemisphere(&normal, 1000).unwrap();
        // A draw has even numerators, and so has its mirror image.
        for c in [p.x, p.y, p.z] {
            assert!(-ONE < c && c < ONE);
            assert_eq!(c % 2, 0);
        }
        assert!(p.z <= 0);
        assert_eq!(p.toward(&normal), if p.z == 0 { p.neg() } else { p });
    }
}

const HALF: u64 = 1 << 52;

#[test]
fn from_flat_draws_spreads_over_the_square() {
    let p = LatticePoint::from_flat_draws(0, (1 << 53) - 1);
    assert_eq!(p, LatticePoint { x: -ONE, y: ONE - 2, z: 0 });
    assert_eq!(LatticePoint::from_flat_draws(HALF, HALF), LatticePoint { x: 0, y: 0, z: 0 });
}

#[test]
fn pick_in_unit_sphere_returns_the_first_candidate_inside_the_ball() {
    // The candidates are (-1, -1, -1), (1/2, -1, 1/2), (1/2, 0, -1/2) and (0, 0, 0).
    let draws = vec![
        0, 0, 0,
        3 << 51, 0, 3 << 51,
        3 << 51, HALF, 1 << 51,
        HALF, HALF, HALF,
    ];
    let third = LatticePoint { x: ONE / 2, y: 0, z: -ONE / 2 };
    assert_eq!(LatticePoint::pick_in_unit_sphere(&draws, 10), Some(third));
    assert_eq!(LatticePoint::pick_in_unit_sphere(&draws, 3), Some(third));
    assert_eq!(third.length_squared(), 1u128 << 105);
}

#[test]
fn pick_in_unit_sphere_gives_up_when_the_tries_run_out() {
    let draws = vec![0, 0, 0, 3 << 51, 0, 3 << 51, 3 << 51, HALF, 1 << 51];
    assert_eq!(LatticePoint::pick_in_unit_sphere(&draws, 2), None);
    assert_eq!(LatticePoint::pick_in_unit_sphere(&draws, 1), None);
    assert_eq!(LatticePoint::pick_in_unit_sphere(&draws, 0), None);
}

#[test]
fn pick_in_unit_sphere_gives_up_when_the_draws_run_out() {
    assert_eq!(LatticePoint::pick_in_unit_sphere(&Vec::new(), 10), None);
    assert_eq!(LatticePoint::pick_in_unit_sphere(&vec![HALF, HALF], 10), None);
    assert_eq!(LatticePoint::pick_in_unit_sphere(&vec![0, 0, 0, HALF, HALF], 10), None);
    assert_eq!(
        LatticePoint::pick_in_unit_sphere(&vec![HALF, HALF, HALF], 10),
        Some(LatticePoint { x: 0, y: 0, z: 0 })
    );
}

#[test]
fn pick_in_unit_sphere_takes_the_first_of_two_candidates_inside() {
    let draws = vec![HALF + 1, HALF, HALF, HALF, HALF, HALF];
    assert_eq!(
        LatticePoint::pick_in_unit_sphere(&draws, 10),
        Some(LatticePoint { x: 2, y: 0, z: 0 })
    );
}

#[test]
fn pick_in_unit_disk_takes_two_draws_a_try() {
    // The candidates are (-1, -1), (1/2, -1) and (1/2, 1/2).
    let draws = vec![0, 0, 3 << 51, 0, 3 << 51, 3 << 51, HALF];
    let third = LatticePoint { x: ONE / 2, y: ONE / 2, z: 0 };
    assert_eq!(LatticePoint::pick_in_unit_disk(&draws, 10), Some(third));
    assert_eq!(LatticePoint::pick_in_unit_disk(&draws, 2), None);
    assert_eq!(LatticePoint::pick_in_unit_disk(&vec![0, 0, HALF], 10), None);
    assert_eq!(LatticePoint::pick_in_unit_disk(&Vec::new(), 10), None);
}

#[test]
fn pick_in_hemisphere_mirrors_the_point_on_the_other_side() {
    let up = LatticePoint { x: 0, y: ONE, z: 0 };
    let down = LatticePoint { x: 0, y: -ONE, z: 0 };
    // The candidates are (-1, -1, -1) and (1/2, -1/2, 0).
    let draws = vec![0, 0, 0, 3 << 51, 1 << 51, HALF];
    let found = LatticePoint { x: ONE / 2, y: -ONE / 2, z: 0 };
    assert_eq!(LatticePoint::pick_in_hemisphere(&draws, &down, 10), Some(found));
    assert_eq!(LatticePoint::pick_in_hemisphere(&draws, &up, 10), Some(found.neg()));
    assert_eq!(LatticePoint::pick_in_hemisphere(&draws, &up, 1), None);
    // A point in the plane of the normal is mirrored.
    let level = LatticePoint { x: ONE, y: 0, z: 0 };
    assert_eq!(LatticePoint::pick_in_hemisphere(&draws, &level, 10), Some(found));
    let back = LatticePoint { x: 0, y: 0, z: ONE };
    assert_eq!(LatticePoint::pick_in_hemisphere(&draws, &back, 10), Some(found.neg()));
}

#[test]
fn facing_keeps_a_point_with_a_positive_dot_product() {
    let p = LatticePoint { x: 5, y: -7, z: 9 };
    let key = |t: f64| raytracer::order::key(t.to_bits());
    for dot in [0.5, 5e-324, f64::INFINITY] {
        assert_eq!(p.facing(key(dot)), p);
    }
    for dot in [0.0, -0.0, -0.5, f64::NEG_INFINITY, f64::NAN] {
        assert_eq!(p.facing(key(dot)), LatticePoint { x: -5, y: 7, z: -9 });
    }
}
