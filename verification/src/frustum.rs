//! The frustum classifier: six half-space planes extracted from a combined
//! projection matrix, and point / sphere / axis-aligned-box tests against
//! them.
//!
//! Extraction is the classical row-combination method: the clip-space
//! conditions `-w <= x <= w`, `-w <= y <= w`, `-w <= z <= w` are rewritten as
//! six non-negative half-spaces whose coefficients are sums and differences
//! of the matrix rows.  Every classification below is specified, and proved,
//! against the signed distances of those six planes, taken in the fixed
//! order -X, +X, -Y, +Y, -Z, +Z.

use vstd::prelude::*;

verus! {

use crate::geom::Mat4;
use crate::geom::Plane;
use crate::geom::Vec3;
use crate::geom::point_dist;
use crate::geom::pos_corner_dist;
use crate::geom::neg_corner_dist;
use crate::geom::plane_point_dist;
use crate::geom::plane_box_pos_dist;
use crate::geom::plane_box_neg_dist;
use crate::norm::normalized_plane;
use crate::norm::normalize_plane;

/// Three-way outcome of classifying a primitive against the frustum:
/// entirely inside all six half-spaces (with full margin), entirely excluded
/// by at least one plane, or neither.
#[derive(Clone, Copy, Debug, PartialEq, Eq, Structural)]
pub enum IntersectionResult {
    Inside,
    Outside,
    Intersect,
}

/// The outcome of one plane's two tests against a primitive: whether the
/// plane admits the primitive at all, and whether it contains the primitive
/// entirely within its non-negative side.
#[derive(Clone, Copy, Debug, PartialEq, Eq, Structural)]
pub struct PlaneTest {
    pub admits: bool,
    pub contains: bool,
}

/// The three-way result determined by a sequence of per-plane outcomes:
/// `Outside` when some plane does not admit, else `Inside` when every plane
/// fully contains, else `Intersect`.
pub open spec fn combined_result(s: Seq<PlaneTest>) -> IntersectionResult {
    if exists|i: int| 0 <= i < s.len() && !(#[trigger] s[i]).admits {
        IntersectionResult::Outside
    } else if forall|i: int| 0 <= i < s.len() ==> (#[trigger] s[i]).contains {
        IntersectionResult::Inside
    } else {
        IntersectionResult::Intersect
    }
}

/// Runs the classification pipeline over six per-plane outcomes, stage by
/// stage in order, aborting at the first plane that does not admit.  This is
/// the decision half of `intersect_sphere` and `intersect_aab`, usable on
/// its own when the distance comparisons are made elsewhere.
pub fn combine_plane_tests(tests: &[PlaneTest; 6]) -> (r: IntersectionResult)
    ensures
        r == combined_result(tests@),
{
    let mut inside = true;
    let mut k: usize = 0;
    while k < 6
        invariant
            k <= 6,
            forall|i: int| 0 <= i < k ==> (#[trigger] tests@[i]).admits,
            inside == (forall|i: int| 0 <= i < k ==> (#[trigger] tests@[i]).contains),
        decreases 6 - k,
    {
        if !tests[k].admits {
            return IntersectionResult::Outside;
        }
        let step = tests[k].contains;
        proof {
            if inside && step {
                assert forall|i: int| 0 <= i < k + 1 implies (#[trigger] tests@[i]).contains by {
                }
            }
            if !inside {
                let j = choose|i: int| !(0 <= i < k ==> (#[trigger] tests@[i]).contains);
                assert(0 <= j < k + 1 && !tests@[j].contains);
            }
        }
        inside = inside && step;
        k = k + 1;
    }
    if inside {
        IntersectionResult::Inside
    } else {
        IntersectionResult::Intersect
    }
}

/// Six frustum planes, named by the clip-space face each one bounds
/// (`nx` = negative X, `px` = positive X, and so on), derived from a
/// projection matrix and immutable until the next explicit update.
#[derive(Clone, Copy, Debug, PartialEq, Eq, Structural)]
pub struct FrustumIntersection {
    nx: Plane,
    px: Plane,
    ny: Plane,
    py: Plane,
    nz: Plane,
    pz: Plane,
}

/// Row 3 plus row 0 of `m`: the `clip_w + clip_x >= 0` half-space.
pub open spec fn raw_nx(m: Mat4) -> Plane {
    Plane {
        a: (m.x.w + m.x.x) as i64,
        b: (m.y.w + m.y.x) as i64,
        c: (m.z.w + m.z.x) as i64,
        d: (m.w.w + m.w.x) as i64,
    }
}

/// Row 3 minus row 0 of `m`: the `clip_w - clip_x >= 0` half-space.
pub open spec fn raw_px(m: Mat4) -> Plane {
    Plane {
        a: (m.x.w - m.x.x) as i64,
        b: (m.y.w - m.y.x) as i64,
        c: (m.z.w - m.z.x) as i64,
        d: (m.w.w - m.w.x) as i64,
    }
}

/// Row 3 plus row 1 of `m`.
pub open spec fn raw_ny(m: Mat4) -> Plane {
    Plane {
        a: (m.x.w + m.x.y) as i64,
        b: (m.y.w + m.y.y) as i64,
        c: (m.z.w + m.z.y) as i64,
        d: (m.w.w + m.w.y) as i64,
    }
}

/// Row 3 minus row 1 of `m`.
pub open spec fn raw_py(m: Mat4) -> Plane {
    Plane {
        a: (m.x.w - m.x.y) as i64,
        b: (m.y.w - m.y.y) as i64,
        c: (m.z.w - m.z.y) as i64,
        d: (m.w.w - m.w.y) as i64,
    }
}

/// Row 3 plus row 2 of `m`.
pub open spec fn raw_nz(m: Mat4) -> Plane {
    Plane {
        a: (m.x.w + m.x.z) as i64,
        b: (m.y.w + m.y.z) as i64,
        c: (m.z.w + m.z.z) as i64,
        d: (m.w.w + m.w.z) as i64,
    }
}

/// Row 3 minus row 2 of `m`.
pub open spec fn raw_pz(m: Mat4) -> Plane {
    Plane {
        a: (m.x.w - m.x.z) as i64,
        b: (m.y.w - m.y.z) as i64,
        c: (m.z.w - m.z.z) as i64,
        d: (m.w.w - m.w.z) as i64,
    }
}

/// An extracted plane after the optional exact rescaling to unit direction.
pub open spec fn processed_plane(p: Plane, allow_test_spheres: bool) -> Plane {
    if allow_test_spheres {
        normalized_plane(p)
    } else {
        p
    }
}

/// The six planes extracted from `m`, in evaluation order.
pub open spec fn extract_planes(m: Mat4, allow_test_spheres: bool) -> Seq<Plane> {
    seq![
        processed_plane(raw_nx(m), allow_test_spheres),
        processed_plane(raw_px(m), allow_test_spheres),
        processed_plane(raw_ny(m), allow_test_spheres),
        processed_plane(raw_py(m), allow_test_spheres),
        processed_plane(raw_nz(m), allow_test_spheres),
        processed_plane(raw_pz(m), allow_test_spheres),
    ]
}

impl FrustumIntersection {
    /// The classifier's six planes in evaluation order:
    /// -X, +X, -Y, +Y, -Z, +Z.
    pub closed spec fn planes(self) -> Seq<Plane> {
        seq![self.nx, self.px, self.ny, self.py, self.nz, self.pz]
    }

    /// Two classifiers with the same planes are the same value.
    pub proof fn lemma_planes_determine(a: FrustumIntersection, b: FrustumIntersection)
        requires
            a.planes() == b.planes(),
        ensures
            a == b,
    {
        assert(a.planes()[0] == b.planes()[0]);
        assert(a.planes()[1] == b.planes()[1]);
        assert(a.planes()[2] == b.planes()[2]);
        assert(a.planes()[3] == b.planes()[3]);
        assert(a.planes()[4] == b.planes()[4]);
        assert(a.planes()[5] == b.planes()[5]);
    }

    /// Builds the six planes of `m`, rescaling each exactly when requested.
    fn extracted(m: &Mat4, allow_test_spheres: bool) -> (f: FrustumIntersection)
        ensures
            f.planes() == extract_planes(*m, allow_test_spheres),
    {
        let nx = Plane {
            a: (m.x.w as i64) + (m.x.x as i64),
            b: (m.y.w as i64) + (m.y.x as i64),
            c: (m.z.w as i64) + (m.z.x as i64),
            d: (m.w.w as i64) + (m.w.x as i64),
        };
        let nx = if allow_test_spheres { normalize_plane(nx) } else { nx };
        let px = Plane {
            a: (m.x.w as i64) - (m.x.x as i64),
            b: (m.y.w as i64) - (m.y.x as i64),
            c: (m.z.w as i64) - (m.z.x as i64),
            d: (m.w.w as i64) - (m.w.x as i64),
        };
        let px = if allow_test_spheres { normalize_plane(px) } else { px };
        let ny = Plane {
            a: (m.x.w as i64) + (m.x.y as i64),
            b: (m.y.w as i64) + (m.y.y as i64),
            c: (m.z.w as i64) + (m.z.y as i64),
            d: (m.w.w as i64) + (m.w.y as i64),
        };
        let ny = if allow_test_spheres { normalize_plane(ny) } else { ny };
        let py = Plane {
            a: (m.x.w as i64) - (m.x.y as i64),
            b: (m.y.w as i64) - (m.y.y as i64),
            c: (m.z.w as i64) - (m.z.y as i64),
            d: (m.w.w as i64) - (m.w.y as i64),
        };
        let py = if allow_test_spheres { normalize_plane(py) } else { py };
        let nz = Plane {
            a: (m.x.w as i64) + (m.x.z as i64),
            b: (m.y.w as i64) + (m.y.z as i64),
            c: (m.z.w as i64) + (m.z.z as i64),
            d: (m.w.w as i64) + (m.w.z as i64),
        };
        let nz = if allow_test_spheres { normalize_plane(nz) } else { nz };
        let pz = Plane {
            a: (m.x.w as i64) - (m.x.z as i64),
            b: (m.y.w as i64) - (m.y.z as i64),
            c: (m.z.w as i64) - (m.z.z as i64),
            d: (m.w.w as i64) - (m.w.z as i64),
        };
        let pz = if allow_test_spheres { normalize_plane(pz) } else { pz };
        let f = FrustumIntersection { nx, px, ny, py, nz, pz };
        proof {
            assert(f.planes() =~= extract_planes(*m, allow_test_spheres));
        }
        f
    }

    /// Creates a classifier whose planes are extracted from `m`, rescaled
    /// exactly for sphere testing where representable.
    ///
    /// To re-derive the planes later, use `update`.
    pub fn from_matrix4(m: Mat4) -> (f: Self)
        ensures
            f.planes() == extract_planes(m, true),
    {
        Self::extracted(&m, true)
    }

    /// Re-derives all six planes from `m`, with the rescaling for sphere
    /// tests; equivalent to building a fresh classifier from `m`.
    pub fn update(&mut self, m: Mat4)
        ensures
            final(self).planes() == extract_planes(m, true),
    {
        self.update_with_spheres(m, true);
    }

    /// Re-derives all six planes from `m`.  When `allow_test_spheres` is
    /// false the raw extracted coefficients are kept, which is sufficient
    /// for point and box tests; sphere tests additionally need unit-length
    /// plane directions, so the flag requests the exact rescaling of
    /// `normalized_plane` (planes whose rescaling is not representable in
    /// exact scalars, including the zero direction of a degenerate matrix,
    /// keep their raw coefficients).
    pub fn update_with_spheres(&mut self, m: Mat4, allow_test_spheres: bool)
        ensures
            final(self).planes() == extract_planes(m, allow_test_spheres),
    {
        *self = Self::extracted(&m, allow_test_spheres);
    }

    /// The point lies on the non-negative side of all six planes.
    pub open spec fn admits_point(self, point: Vec3) -> bool {
        forall|i: int| 0 <= i < 6 ==> #[trigger] point_dist(self.planes()[i], point) >= 0
    }

    /// No plane puts the whole sphere on its negative side.
    pub open spec fn admits_sphere(self, center: Vec3, radius: i32) -> bool {
        forall|i: int|
            0 <= i < 6 ==> #[trigger] point_dist(self.planes()[i], center) >= -(radius as int)
    }

    /// Some plane puts the whole sphere on its negative side.
    pub open spec fn rejects_sphere(self, center: Vec3, radius: i32) -> bool {
        exists|i: int|
            0 <= i < 6 && #[trigger] point_dist(self.planes()[i], center) < -(radius as int)
    }

    /// Every plane keeps the whole sphere on its non-negative side, with the
    /// center at least a full radius past the boundary.
    pub open spec fn contains_sphere(self, center: Vec3, radius: i32) -> bool {
        forall|i: int|
            0 <= i < 6 ==> #[trigger] point_dist(self.planes()[i], center) >= radius as int
    }

    /// The three-way sphere result: `Outside` as soon as one plane fully
    /// rejects, else `Inside` when every plane fully contains, else
    /// `Intersect`.
    pub open spec fn sphere_classification(self, center: Vec3, radius: i32) -> IntersectionResult {
        if self.rejects_sphere(center, radius) {
            IntersectionResult::Outside
        } else if self.contains_sphere(center, radius) {
            IntersectionResult::Inside
        } else {
            IntersectionResult::Intersect
        }
    }

    /// For every plane, the box corner maximizing the plane's dot product is
    /// on the non-negative side: no plane excludes the whole box.
    pub open spec fn admits_aab(self, min: Vec3, max: Vec3) -> bool {
        forall|i: int|
            0 <= i < 6 ==> #[trigger] pos_corner_dist(self.planes()[i], min, max) >= 0
    }

    /// Some plane has even the maximizing corner on its negative side.
    pub open spec fn rejects_aab(self, min: Vec3, max: Vec3) -> bool {
        exists|i: int|
            0 <= i < 6 && #[trigger] pos_corner_dist(self.planes()[i], min, max) < 0
    }

    /// For every plane, even the minimizing corner is on the non-negative
    /// side: the whole box is inside every half-space.
    pub open spec fn contains_aab(self, min: Vec3, max: Vec3) -> bool {
        forall|i: int|
            0 <= i < 6 ==> #[trigger] neg_corner_dist(self.planes()[i], min, max) >= 0
    }

    /// The three-way box result, with the same shape as the sphere result.
    pub open spec fn aab_classification(self, min: Vec3, max: Vec3) -> IntersectionResult {
        if self.rejects_aab(min, max) {
            IntersectionResult::Outside
        } else if self.contains_aab(min, max) {
            IntersectionResult::Inside
        } else {
            IntersectionResult::Intersect
        }
    }

    /// The six per-plane outcomes a sphere produces, in evaluation order:
    /// one stage per plane, with its admission and containment verdicts.
    pub open spec fn sphere_stages(self, center: Vec3, radius: i32) -> Seq<PlaneTest> {
        Seq::new(
            6,
            |i: int|
                PlaneTest {
                    admits: point_dist(self.planes()[i], center) >= -(radius as int),
                    contains: point_dist(self.planes()[i], center) >= radius as int,
                },
        )
    }

    /// The six per-plane outcomes an axis-aligned box produces, in
    /// evaluation order.
    pub open spec fn aab_stages(self, min: Vec3, max: Vec3) -> Seq<PlaneTest> {
        Seq::new(
            6,
            |i: int|
                PlaneTest {
                    admits: pos_corner_dist(self.planes()[i], min, max) >= 0,
                    contains: neg_corner_dist(self.planes()[i], min, max) >= 0,
                },
        )
    }

    /// Tests whether a 3D point lies inside the frustum.
    pub fn test_point(&self, point: Vec3) -> (r: bool)
        ensures
            r == self.admits_point(point),
    {
        let d0 = plane_point_dist(self.nx, point);
        let d1 = plane_point_dist(self.px, point);
        let d2 = plane_point_dist(self.ny, point);
        let d3 = plane_point_dist(self.py, point);
        let d4 = plane_point_dist(self.nz, point);
        let d5 = plane_point_dist(self.pz, point);
        let r = d0 >= 0 && d1 >= 0 && d2 >= 0 && d3 >= 0 && d4 >= 0 && d5 >= 0;
        proof {
            assert(point_dist(self.planes()[0], point) == d0);
            assert(point_dist(self.planes()[1], point) == d1);
            assert(point_dist(self.planes()[2], point) == d2);
            assert(point_dist(self.planes()[3], point) == d3);
            assert(point_dist(self.planes()[4], point) == d4);
            assert(point_dist(self.planes()[5], point) == d5);
            assert(r == self.admits_point(point));
        }
        r
    }

    /// Tests whether a sphere touches the frustum at all, without
    /// distinguishing partial from total containment; for that distinction
    /// use `intersect_sphere`.
    ///
    /// Distances are compared against the Euclidean radius, so the planes
    /// must have unit direction length for the result to be geometrically
    /// exact (see `update_with_spheres`).
    pub fn test_sphere(&self, center: Vec3, radius: i32) -> (r: bool)
        ensures
            r == self.admits_sphere(center, radius),
    {
        let neg_rad = -(radius as i128);
        let d0 = plane_point_dist(self.nx, center);
        let d1 = plane_point_dist(self.px, center);
        let d2 = plane_point_dist(self.ny, center);
        let d3 = plane_point_dist(self.py, center);
        let d4 = plane_point_dist(self.nz, center);
        let d5 = plane_point_dist(self.pz, center);
        let r = d0 >= neg_rad && d1 >= neg_rad && d2 >= neg_rad && d3 >= neg_rad && d4 >= neg_rad
            && d5 >= neg_rad;
        proof {
            assert(point_dist(self.planes()[0], center) == d0);
            assert(point_dist(self.planes()[1], center) == d1);
            assert(point_dist(self.planes()[2], center) == d2);
            assert(point_dist(self.planes()[3], center) == d3);
            assert(point_dist(self.planes()[4], center) == d4);
            assert(point_dist(self.planes()[5], center) == d5);
            assert(r == self.admits_sphere(center, radius));
        }
        r
    }

    /// Tests whether an axis-aligned box, given by its minimum and maximum
    /// corners, touches the frustum at all, without distinguishing partial
    /// from total containment; for that distinction use `intersect_aab`.
    pub fn test_aab(&self, min: Vec3, max: Vec3) -> (r: bool)
        ensures
            r == self.admits_aab(min, max),
    {
        let d0 = plane_box_pos_dist(self.nx, min, max);
        let d1 = plane_box_pos_dist(self.px, min, max);
        let d2 = plane_box_pos_dist(self.ny, min, max);
        let d3 = plane_box_pos_dist(self.py, min, max);
        let d4 = plane_box_pos_dist(self.nz, min, max);
        let d5 = plane_box_pos_dist(self.pz, min, max);
        let r = d0 >= 0 && d1 >= 0 && d2 >= 0 && d3 >= 0 && d4 >= 0 && d5 >= 0;
        proof {
            assert(pos_corner_dist(self.planes()[0], min, max) == d0);
            assert(pos_corner_dist(self.planes()[1], min, max) == d1);
            assert(pos_corner_dist(self.planes()[2], min, max) == d2);
            assert(pos_corner_dist(self.planes()[3], min, max) == d3);
            assert(pos_corner_dist(self.planes()[4], min, max) == d4);
            assert(pos_corner_dist(self.planes()[5], min, max) == d5);
            assert(r == self.admits_aab(min, max));
        }
        r
    }

    /// Classifies a sphere, given by its center and Euclidean radius,
    /// against the frustum, distinguishing partial from total containment.
    ///
    /// The six planes are evaluated in the fixed order -X, +X, -Y, +Y, -Z,
    /// +Z, and evaluation stops at the first plane that fully rejects the
    /// sphere: rejection by a single plane already decides `Outside`.
    pub fn intersect_sphere(&self, center: Vec3, radius: i32) -> (r: IntersectionResult)
        ensures
            r == self.sphere_classification(center, radius),
    {
        let rad = radius as i128;
        let mut inside = true;
        let d0 = plane_point_dist(self.nx, center);
        proof {
            assert(point_dist(self.planes()[0], center) == d0);
        }
        if d0 < -rad {
            return IntersectionResult::Outside;
        }
        inside = inside && d0 >= rad;
        let d1 = plane_point_dist(self.px, center);
        proof {
            assert(point_dist(self.planes()[1], center) == d1);
        }
        if d1 < -rad {
            return IntersectionResult::Outside;
        }
        inside = inside && d1 >= rad;
        let d2 = plane_point_dist(self.ny, center);
        proof {
            assert(point_dist(self.planes()[2], center) == d2);
        }
        if d2 < -rad {
            return IntersectionResult::Outside;
        }
        inside = inside && d2 >= rad;
        let d3 = plane_point_dist(self.py, center);
        proof {
            assert(point_dist(self.planes()[3], center) == d3);
        }
        if d3 < -rad {
            return IntersectionResult::Outside;
        }
        inside = inside && d3 >= rad;
        let d4 = plane_point_dist(self.nz, center);
        proof {
            assert(point_dist(self.planes()[4], center) == d4);
        }
        if d4 < -rad {
            return IntersectionResult::Outside;
        }
        inside = inside && d4 >= rad;
        let d5 = plane_point_dist(self.pz, center);
        proof {
            assert(point_dist(self.planes()[5], center) == d5);
        }
        if d5 < -rad {
            return IntersectionResult::Outside;
        }
        inside = inside && d5 >= rad;
        proof {
            assert(!self.rejects_sphere(center, radius));
            assert(inside == self.contains_sphere(center, radius));
        }
        if inside {
            IntersectionResult::Inside
        } else {
            IntersectionResult::Intersect
        }
    }

    /// Classifies an axis-aligned box, given by its minimum and maximum
    /// corners, against the frustum, distinguishing partial from total
    /// containment.
    ///
    /// Per plane, first the corner maximizing the plane's dot product is
    /// tested; if even that corner is on the negative side the box is
    /// `Outside` and evaluation stops.  Otherwise the minimizing corner is
    /// tested as well, and only a box whose minimizing corner passes every
    /// plane is `Inside`.  Planes are evaluated in the fixed order -X, +X,
    /// -Y, +Y, -Z, +Z.
    pub fn intersect_aab(&self, min: Vec3, max: Vec3) -> (r: IntersectionResult)
        ensures
            r == self.aab_classification(min, max),
    {
        let mut inside = true;
        let p0 = plane_box_pos_dist(self.nx, min, max);
        proof {
            assert(pos_corner_dist(self.planes()[0], min, max) == p0);
        }
        if p0 < 0 {
            return IntersectionResult::Outside;
        }
        let n0 = plane_box_neg_dist(self.nx, min, max);
        proof {
            assert(neg_corner_dist(self.planes()[0], min, max) == n0);
        }
        inside = inside && n0 >= 0;
        let p1 = plane_box_pos_dist(self.px, min, max);
        proof {
            assert(pos_corner_dist(self.planes()[1], min, max) == p1);
        }
        if p1 < 0 {
            return IntersectionResult::Outside;
        }
        let n1 = plane_box_neg_dist(self.px, min, max);
        proof {
            assert(neg_corner_dist(self.planes()[1], min, max) == n1);
        }
        inside = inside && n1 >= 0;
        let p2 = plane_box_pos_dist(self.ny, min, max);
        proof {
            assert(pos_corner_dist(self.planes()[2], min, max) == p2);
        }
        if p2 < 0 {
            return IntersectionResult::Outside;
        }
        let n2 = plane_box_neg_dist(self.ny, min, max);
        proof {
            assert(neg_corner_dist(self.planes()[2], min, max) == n2);
        }
        inside = inside && n2 >= 0;
        let p3 = plane_box_pos_dist(self.py, min, max);
        proof {
            assert(pos_corner_dist(self.planes()[3], min, max) == p3);
        }
        if p3 < 0 {
            return IntersectionResult::Outside;
        }
        let n3 = plane_box_neg_dist(self.py, min, max);
        proof {
            assert(neg_corner_dist(self.planes()[3], min, max) == n3);
        }
        inside = inside && n3 >= 0;
        let p4 = plane_box_pos_dist(self.nz, min, max);
        proof {
            assert(pos_corner_dist(self.planes()[4], min, max) == p4);
        }
        if p4 < 0 {
            return IntersectionResult::Outside;
        }
        let n4 = plane_box_neg_dist(self.nz, min, max);
        proof {
            assert(neg_corner_dist(self.planes()[4], min, max) == n4);
        }
        inside = inside && n4 >= 0;
        let p5 = plane_box_pos_dist(self.pz, min, max);
        proof {
            assert(pos_corner_dist(self.planes()[5], min, max) == p5);
        }
        if p5 < 0 {
            return IntersectionResult::Outside;
        }
        let n5 = plane_box_neg_dist(self.pz, min, max);
        proof {
            assert(neg_corner_dist(self.planes()[5], min, max) == n5);
        }
        inside = inside && n5 >= 0;
        proof {
            assert(!self.rejects_aab(min, max));
            assert(inside == self.contains_aab(min, max));
        }
        if inside {
            IntersectionResult::Inside
        } else {
            IntersectionResult::Intersect
        }
    }
}

} // verus!
