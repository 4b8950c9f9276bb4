//! Scenario tests for the documented behavior: point, sphere and box
//! classification against a box frustum, determinism of re-extraction,
//! monotonicity under shrinking radii, agreement of the boolean tests with
//! the three-way results, degenerate primitives, the exact rescaling of
//! plane coefficients, and the stage-combination pipeline.
//!
//! As in the neighbouring test file, scalars are exact fixed-point values
//! with one unit = 0.1 world units.

use frustum_query::combine_plane_tests;
use frustum_query::FrustumIntersection;
use frustum_query::IntersectionResult;
use frustum_query::Mat4;
use frustum_query::PlaneTest;
use frustum_query::Vec3;
use frustum_query::Vec4;

fn mat_from_rows(r0: [i32; 4], r1: [i32; 4], r2: [i32; 4], r3: [i32; 4]) -> Mat4 {
    Mat4 {
        x: Vec4 { x: r0[0], y: r1[0], z: r2[0], w: r3[0] },
        y: Vec4 { x: r0[1], y: r1[1], z: r2[1], w: r3[1] },
        z: Vec4 { x: r0[2], y: r1[2], z: r2[2], w: r3[2] },
        w: Vec4 { x: r0[3], y: r1[3], z: r2[3], w: r3[3] },
    }
}

fn scaled(m: Mat4, k: i32) -> Mat4 {
    Mat4 {
        x: Vec4 { x: m.x.x * k, y: m.x.y * k, z: m.x.z * k, w: m.x.w * k },
        y: Vec4 { x: m.y.x * k, y: m.y.y * k, z: m.y.z * k, w: m.y.w * k },
        z: Vec4 { x: m.z.x * k, y: m.z.y * k, z: m.z.z * k, w: m.z.w * k },
        w: Vec4 { x: m.w.x * k, y: m.w.y * k, z: m.w.z * k, w: m.w.w * k },
    }
}

/// Orthographic projection of the box [-10, 10]^3.
fn ortho_box() -> Mat4 {
    mat_from_rows(
        [1, 0, 0, 0],
        [0, 1, 0, 0],
        [0, 0, -1, 0],
        [0, 0, 0, 10],
    )
}

fn v(x: i32, y: i32, z: i32) -> Vec3 {
    Vec3::new(x, y, z)
}

#[test]
fn point_in_box_frustum() {
    let c = FrustumIntersection::from_matrix4(ortho_box());

    assert!(c.test_point(v(0, 0, 0)));
    assert!(!c.test_point(v(15, 0, 0)));
    assert!(!c.test_point(v(0, -15, 0)));
    assert!(!c.test_point(v(0, 0, 15)));
}

#[test]
fn sphere_three_way_in_box_frustum() {
    let c = FrustumIntersection::from_matrix4(ortho_box());

    assert_eq!(IntersectionResult::Inside, c.intersect_sphere(v(0, 0, 0), 1));
    assert_eq!(IntersectionResult::Intersect, c.intersect_sphere(v(10, 0, 0), 1));
    assert_eq!(IntersectionResult::Outside, c.intersect_sphere(v(12, 0, 0), 1));
}

#[test]
fn aab_three_way_in_box_frustum() {
    let c = FrustumIntersection::from_matrix4(ortho_box());

    assert_eq!(
        IntersectionResult::Intersect,
        c.intersect_aab(v(-200, -20, 0), v(200, 20, 0))
    );
    assert_eq!(
        IntersectionResult::Inside,
        c.intersect_aab(v(-5, -5, -5), v(5, 5, 5))
    );
    assert_eq!(
        IntersectionResult::Outside,
        c.intersect_aab(v(11, 0, 0), v(20, 20, 20))
    );
}

#[test]
fn update_is_deterministic() {
    let m = ortho_box();
    let fresh = FrustumIntersection::from_matrix4(m);

    let mut twice = FrustumIntersection::from_matrix4(m);
    twice.update(m);
    twice.update(m);
    assert_eq!(fresh, twice);

    let mut raw_a = FrustumIntersection::from_matrix4(m);
    raw_a.update_with_spheres(m, false);
    let mut raw_b = FrustumIntersection::from_matrix4(m);
    raw_b.update_with_spheres(m, false);
    raw_b.update_with_spheres(m, false);
    assert_eq!(raw_a, raw_b);
}

#[test]
fn contained_sphere_stays_inside_when_shrunk() {
    let c = FrustumIntersection::from_matrix4(ortho_box());

    assert_eq!(IntersectionResult::Inside, c.intersect_sphere(v(0, 0, 0), 9));
    assert_eq!(IntersectionResult::Inside, c.intersect_sphere(v(0, 0, 0), 3));
    assert_eq!(IntersectionResult::Inside, c.intersect_sphere(v(0, 0, 0), 0));
    assert_eq!(IntersectionResult::Inside, c.intersect_sphere(v(3, -2, 1), 5));
    assert_eq!(IntersectionResult::Inside, c.intersect_sphere(v(3, -2, 1), 4));
}

#[test]
fn boolean_tests_agree_with_three_way_results() {
    let c = FrustumIntersection::from_matrix4(ortho_box());

    let spheres = [
        (v(0, 0, 0), 1),
        (v(10, 0, 0), 1),
        (v(12, 0, 0), 1),
        (v(-12, 7, 0), 3),
    ];
    for (center, radius) in spheres {
        assert_eq!(
            c.test_sphere(center, radius),
            c.intersect_sphere(center, radius) != IntersectionResult::Outside
        );
    }

    let boxes = [
        (v(-200, -20, 0), v(200, 20, 0)),
        (v(-5, -5, -5), v(5, 5, 5)),
        (v(11, 0, 0), v(20, 20, 20)),
        (v(-30, -30, -30), v(-11, 0, 0)),
    ];
    for (min, max) in boxes {
        assert_eq!(
            c.test_aab(min, max),
            c.intersect_aab(min, max) != IntersectionResult::Outside
        );
    }
}

#[test]
fn degenerate_aab_behaves_like_point() {
    let c = FrustumIntersection::from_matrix4(ortho_box());

    let points = [v(0, 0, 0), v(10, 0, 0), v(12, 0, 0), v(-10, 10, -10), v(0, 0, -11)];
    for p in points {
        let expected = if c.test_point(p) {
            IntersectionResult::Inside
        } else {
            IntersectionResult::Outside
        };
        assert_eq!(expected, c.intersect_aab(p, p));
    }
}

#[test]
fn zero_radius_sphere_behaves_like_point() {
    let c = FrustumIntersection::from_matrix4(ortho_box());

    assert_eq!(IntersectionResult::Inside, c.intersect_sphere(v(10, 0, 0), 0));
    assert!(c.test_point(v(10, 0, 0)));
    assert_eq!(IntersectionResult::Outside, c.intersect_sphere(v(11, 0, 0), 0));
    assert!(!c.test_point(v(11, 0, 0)));
}

#[test]
fn extraction_rescales_exactly_representable_planes() {
    // All six raw planes of the tripled matrix are 3 * (unit direction), so
    // the rescaling restores the same planes the plain matrix produces.
    let plain = FrustumIntersection::from_matrix4(ortho_box());
    let tripled = FrustumIntersection::from_matrix4(scaled(ortho_box(), 3));
    assert_eq!(plain, tripled);

    // Without the rescaling the tripled coefficients stay, which a sphere
    // test can observe: the +X plane distance of this sphere's center is
    // -2 when rescaled but -6 raw, against a radius of 5.
    let mut rescaled = FrustumIntersection::from_matrix4(ortho_box());
    rescaled.update_with_spheres(scaled(ortho_box(), 3), true);
    let mut raw = FrustumIntersection::from_matrix4(ortho_box());
    raw.update_with_spheres(scaled(ortho_box(), 3), false);
    assert!(rescaled.test_sphere(v(12, 0, 0), 5));
    assert!(!raw.test_sphere(v(12, 0, 0), 5));
}

#[test]
fn extraction_keeps_planes_with_irrational_length() {
    // Every X and Z plane of this matrix has direction (±1, 0, ±1), whose
    // length is irrational, and the Y planes are already unit: requesting
    // the rescaling changes nothing.
    let m = mat_from_rows(
        [1, 0, 1, 0],
        [0, 1, 0, 0],
        [1, 0, -1, 0],
        [0, 0, 0, 10],
    );
    let mut with_flag = FrustumIntersection::from_matrix4(m);
    with_flag.update_with_spheres(m, true);
    let mut without_flag = FrustumIntersection::from_matrix4(m);
    without_flag.update_with_spheres(m, false);
    assert_eq!(with_flag, without_flag);
}

#[test]
fn rescaling_divides_the_offset_too() {
    // The -X plane of this matrix is (2, 0, 0, 10) raw and (1, 0, 0, 5)
    // rescaled; a sphere poking past x = -5 by exactly its radius tells the
    // two apart.
    let m = mat_from_rows(
        [2, 0, 0, 0],
        [0, 2, 0, 0],
        [0, 0, -2, 0],
        [0, 0, 0, 10],
    );
    let mut rescaled = FrustumIntersection::from_matrix4(m);
    rescaled.update_with_spheres(m, true);
    let mut raw = FrustumIntersection::from_matrix4(m);
    raw.update_with_spheres(m, false);
    assert!(rescaled.test_sphere(v(-6, 0, 0), 1));
    assert!(!raw.test_sphere(v(-6, 0, 0), 1));
}

#[test]
fn combine_stage_outcomes() {
    let all_in = PlaneTest { admits: true, contains: true };
    let partial = PlaneTest { admits: true, contains: false };
    let rejected = PlaneTest { admits: false, contains: false };

    assert_eq!(
        IntersectionResult::Inside,
        combine_plane_tests(&[all_in, all_in, all_in, all_in, all_in, all_in])
    );
    assert_eq!(
        IntersectionResult::Intersect,
        combine_plane_tests(&[all_in, all_in, partial, all_in, all_in, all_in])
    );
    assert_eq!(
        IntersectionResult::Outside,
        combine_plane_tests(&[all_in, all_in, all_in, all_in, all_in, rejected])
    );
    assert_eq!(
        IntersectionResult::Outside,
        combine_plane_tests(&[rejected, partial, all_in, all_in, all_in, all_in])
    );
}

#[test]
fn extreme_scalars_stay_consistent() {
    let m = mat_from_rows(
        [i32::MAX, 0, 0, i32::MIN],
        [0, i32::MIN, 0, i32::MAX],
        [0, 0, i32::MAX, i32::MAX],
        [i32::MIN, i32::MAX, i32::MIN, i32::MAX],
    );
    let c = FrustumIntersection::from_matrix4(m);
    let samples = [v(i32::MAX, i32::MIN, i32::MAX), v(0, 0, 0), v(i32::MIN, i32::MIN, i32::MIN)];
    for p in samples {
        assert_eq!(
            c.test_sphere(p, i32::MAX),
            c.intersect_sphere(p, i32::MAX) != IntersectionResult::Outside
        );
        let expected = if c.test_point(p) {
            IntersectionResult::Inside
        } else {
            IntersectionResult::Outside
        };
        assert_eq!(expected, c.intersect_aab(p, p));
    }
}
