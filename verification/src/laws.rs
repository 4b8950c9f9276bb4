//! Laws of the classifier, proved once for all inputs: determinism of
//! extraction, monotonicity of sphere containment under shrinking,
//! agreement of the boolean tests with the three-way classifications,
//! point semantics of degenerate primitives, and geometric soundness of the
//! corner selection used by the box tests.

use vstd::prelude::*;

verus! {

use crate::frustum::FrustumIntersection;
use crate::frustum::IntersectionResult;
use crate::frustum::extract_planes;
use crate::frustum::combined_result;
use crate::geom::Mat4;
use crate::geom::Plane;
use crate::geom::Vec3;
use crate::geom::point_dist;
use crate::geom::pos_corner_dist;
use crate::geom::neg_corner_dist;

/// Extraction is a pure function of the matrix and the flag: any two
/// classifiers whose planes were derived from the same matrix with the same
/// flag — freshly built, or re-derived by any number of updates — hold
/// identical plane coefficients.
pub proof fn lemma_extraction_deterministic(
    a: FrustumIntersection,
    b: FrustumIntersection,
    m: Mat4,
    allow_test_spheres: bool,
)
    requires
        a.planes() == extract_planes(m, allow_test_spheres),
        b.planes() == extract_planes(m, allow_test_spheres),
    ensures
        a == b,
{
    FrustumIntersection::lemma_planes_determine(a, b);
}

/// Shrinking a sphere that is classified `Inside` cannot make it escape:
/// for the same center, every smaller (non-negative) radius is `Inside` too.
pub proof fn lemma_sphere_inside_shrink(
    f: FrustumIntersection,
    center: Vec3,
    r1: i32,
    r2: i32,
)
    requires
        0 <= r2 <= r1,
        f.sphere_classification(center, r1) == IntersectionResult::Inside,
    ensures
        f.sphere_classification(center, r2) == IntersectionResult::Inside,
{
    assert(f.contains_sphere(center, r1));
    assert forall|i: int| 0 <= i < 6 implies #[trigger] point_dist(f.planes()[i], center)
        >= r2 as int by {
        assert(point_dist(f.planes()[i], center) >= r1 as int);
    }
    if f.rejects_sphere(center, r2) {
        let i = choose|i: int|
            0 <= i < 6 && point_dist(f.planes()[i], center) < -(r2 as int);
        assert(point_dist(f.planes()[i], center) >= r2 as int);
    }
}

/// The boolean sphere test agrees with the three-way classification: it is
/// true exactly when the classification is `Inside` or `Intersect`.
pub proof fn lemma_sphere_test_consistent(f: FrustumIntersection, center: Vec3, radius: i32)
    ensures
        f.admits_sphere(center, radius) <==> f.sphere_classification(center, radius)
            != IntersectionResult::Outside,
{
    if f.admits_sphere(center, radius) && f.rejects_sphere(center, radius) {
        let i = choose|i: int|
            0 <= i < 6 && point_dist(f.planes()[i], center) < -(radius as int);
        assert(point_dist(f.planes()[i], center) >= -(radius as int));
    }
    if !f.admits_sphere(center, radius) {
        let i = choose|i: int|
            !(0 <= i < 6 ==> point_dist(f.planes()[i], center) >= -(radius as int));
        assert(0 <= i < 6 && point_dist(f.planes()[i], center) < -(radius as int));
        assert(f.rejects_sphere(center, radius));
    }
}

/// The boolean box test agrees with the three-way classification: it is
/// true exactly when the classification is `Inside` or `Intersect`.
pub proof fn lemma_aab_test_consistent(f: FrustumIntersection, min: Vec3, max: Vec3)
    ensures
        f.admits_aab(min, max) <==> f.aab_classification(min, max)
            != IntersectionResult::Outside,
{
    if f.admits_aab(min, max) && f.rejects_aab(min, max) {
        let i = choose|i: int| 0 <= i < 6 && pos_corner_dist(f.planes()[i], min, max) < 0;
        assert(pos_corner_dist(f.planes()[i], min, max) >= 0);
    }
    if !f.admits_aab(min, max) {
        let i = choose|i: int| !(0 <= i < 6 ==> pos_corner_dist(f.planes()[i], min, max) >= 0);
        assert(0 <= i < 6 && pos_corner_dist(f.planes()[i], min, max) < 0);
        assert(f.rejects_aab(min, max));
    }
}

/// A degenerate box, both of whose corners are the same point, classifies
/// exactly like that point: `Inside` when the point passes all six planes,
/// otherwise `Outside`, and never `Intersect`.
pub proof fn lemma_degenerate_aab_is_point(f: FrustumIntersection, p: Vec3)
    ensures
        f.aab_classification(p, p) == (if f.admits_point(p) {
            IntersectionResult::Inside
        } else {
            IntersectionResult::Outside
        }),
{
    assert forall|i: int| 0 <= i < 6 implies #[trigger] pos_corner_dist(f.planes()[i], p, p)
        == point_dist(f.planes()[i], p) by {
    }
    assert forall|i: int| 0 <= i < 6 implies #[trigger] neg_corner_dist(f.planes()[i], p, p)
        == point_dist(f.planes()[i], p) by {
    }
    if f.admits_point(p) {
        assert(f.contains_aab(p, p));
        if f.rejects_aab(p, p) {
            let i = choose|i: int| 0 <= i < 6 && pos_corner_dist(f.planes()[i], p, p) < 0;
            assert(point_dist(f.planes()[i], p) >= 0);
        }
    } else {
        let i = choose|i: int| !(0 <= i < 6 ==> point_dist(f.planes()[i], p) >= 0);
        assert(0 <= i < 6 && pos_corner_dist(f.planes()[i], p, p) < 0);
        assert(f.rejects_aab(p, p));
    }
}

/// A zero-radius sphere degenerates to point semantics: `Inside` when the
/// center passes all six planes, otherwise `Outside`, and never
/// `Intersect`.
pub proof fn lemma_zero_radius_sphere_is_point(f: FrustumIntersection, center: Vec3)
    ensures
        f.sphere_classification(center, 0) == (if f.admits_point(center) {
            IntersectionResult::Inside
        } else {
            IntersectionResult::Outside
        }),
{
    if f.admits_point(center) {
        assert(f.contains_sphere(center, 0));
        if f.rejects_sphere(center, 0) {
            let i = choose|i: int| 0 <= i < 6 && point_dist(f.planes()[i], center) < -(0 as int);
            assert(point_dist(f.planes()[i], center) >= 0);
        }
    } else {
        let i = choose|i: int| !(0 <= i < 6 ==> point_dist(f.planes()[i], center) >= 0);
        assert(0 <= i < 6 && point_dist(f.planes()[i], center) < -(0 as int));
        assert(f.rejects_sphere(center, 0));
    }
}

/// The sphere classification is one run of the stage pipeline: combining
/// the six per-plane outcomes of a sphere gives exactly
/// `sphere_classification`, so computing distances elsewhere and calling
/// `combine_plane_tests` agrees with `intersect_sphere`.
pub proof fn lemma_sphere_stage_pipeline(f: FrustumIntersection, center: Vec3, radius: i32)
    ensures
        combined_result(f.sphere_stages(center, radius))
            == f.sphere_classification(center, radius),
{
    let s = f.sphere_stages(center, radius);
    if exists|i: int| 0 <= i < s.len() && !(#[trigger] s[i]).admits {
        let j = choose|i: int| 0 <= i < s.len() && !(#[trigger] s[i]).admits;
        assert(point_dist(f.planes()[j], center) < -(radius as int));
        assert(f.rejects_sphere(center, radius));
    }
    if f.rejects_sphere(center, radius) {
        let j = choose|i: int|
            0 <= i < 6 && point_dist(f.planes()[i], center) < -(radius as int);
        assert(!s[j].admits);
    }
    if f.contains_sphere(center, radius) {
        assert forall|i: int| 0 <= i < s.len() implies (#[trigger] s[i]).contains by {
            assert(point_dist(f.planes()[i], center) >= radius as int);
        }
    }
    if forall|i: int| 0 <= i < s.len() ==> (#[trigger] s[i]).contains {
        assert forall|i: int| 0 <= i < 6 implies #[trigger] point_dist(f.planes()[i], center)
            >= radius as int by {
            assert(s[i].contains);
        }
    }
}

/// The box classification is one run of the stage pipeline: combining the
/// six per-plane outcomes of a box gives exactly `aab_classification`.
pub proof fn lemma_aab_stage_pipeline(f: FrustumIntersection, min: Vec3, max: Vec3)
    ensures
        combined_result(f.aab_stages(min, max)) == f.aab_classification(min, max),
{
    let s = f.aab_stages(min, max);
    if exists|i: int| 0 <= i < s.len() && !(#[trigger] s[i]).admits {
        let j = choose|i: int| 0 <= i < s.len() && !(#[trigger] s[i]).admits;
        assert(pos_corner_dist(f.planes()[j], min, max) < 0);
        assert(f.rejects_aab(min, max));
    }
    if f.rejects_aab(min, max) {
        let j = choose|i: int| 0 <= i < 6 && pos_corner_dist(f.planes()[i], min, max) < 0;
        assert(!s[j].admits);
    }
    if f.contains_aab(min, max) {
        assert forall|i: int| 0 <= i < s.len() implies (#[trigger] s[i]).contains by {
            assert(neg_corner_dist(f.planes()[i], min, max) >= 0);
        }
    }
    if forall|i: int| 0 <= i < s.len() ==> (#[trigger] s[i]).contains {
        assert forall|i: int| 0 <= i < 6 implies #[trigger] neg_corner_dist(
            f.planes()[i],
            min,
            max,
        ) >= 0 by {
            assert(s[i].contains);
        }
    }
}

/// Per-axis bound behind the corner selection: against a coefficient `a`,
/// the selected extreme coordinates bound `a * t` for every `t` in range.
proof fn lemma_axis_select_bounds(a: int, lo: int, hi: int, t: int)
    by (nonlinear_arith)
    requires
        lo <= t <= hi,
    ensures
        (if a < 0 { a * hi } else { a * lo }) <= a * t,
        a * t <= (if a < 0 { a * lo } else { a * hi }),
{
}

/// The corners selected by the box tests really are extremal: for every
/// point of the box, its signed distance from a plane lies between the
/// minimizing corner's and the maximizing corner's distances.
pub proof fn lemma_corner_dists_bound(q: Plane, min: Vec3, max: Vec3, p: Vec3)
    requires
        min.x <= p.x <= max.x,
        min.y <= p.y <= max.y,
        min.z <= p.z <= max.z,
    ensures
        neg_corner_dist(q, min, max) <= point_dist(q, p),
        point_dist(q, p) <= pos_corner_dist(q, min, max),
{
    lemma_axis_select_bounds(q.a as int, min.x as int, max.x as int, p.x as int);
    lemma_axis_select_bounds(q.b as int, min.y as int, max.y as int, p.y as int);
    lemma_axis_select_bounds(q.c as int, min.z as int, max.z as int, p.z as int);
}

/// Soundness of box culling: a box classified `Outside` contains no point
/// that the frustum admits.
pub proof fn lemma_aab_outside_has_no_point(
    f: FrustumIntersection,
    min: Vec3,
    max: Vec3,
    p: Vec3,
)
    requires
        min.x <= p.x <= max.x,
        min.y <= p.y <= max.y,
        min.z <= p.z <= max.z,
        f.aab_classification(min, max) == IntersectionResult::Outside,
    ensures
        !f.admits_point(p),
{
    assert(f.rejects_aab(min, max));
    let i = choose|i: int| 0 <= i < 6 && pos_corner_dist(f.planes()[i], min, max) < 0;
    lemma_corner_dists_bound(f.planes()[i], min, max, p);
    assert(point_dist(f.planes()[i], p) < 0);
}

/// Completeness of full containment: every point of a box classified
/// `Inside` is admitted by the frustum.
pub proof fn lemma_aab_inside_has_all_points(
    f: FrustumIntersection,
    min: Vec3,
    max: Vec3,
    p: Vec3,
)
    requires
        min.x <= p.x <= max.x,
        min.y <= p.y <= max.y,
        min.z <= p.z <= max.z,
        f.aab_classification(min, max) == IntersectionResult::Inside,
    ensures
        f.admits_point(p),
{
    assert(f.contains_aab(min, max));
    assert forall|i: int| 0 <= i < 6 implies #[trigger] point_dist(f.planes()[i], p) >= 0 by {
        assert(neg_corner_dist(f.planes()[i], min, max) >= 0);
        lemma_corner_dists_bound(f.planes()[i], min, max, p);
    }
}

} // verus!
