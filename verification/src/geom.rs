//! Value types for the classifier: vectors, matrices and planes, together
//! with the exact signed-distance arithmetic the plane tests are built on.

use vstd::prelude::*;

verus! {

/// A 3-component vector of exact (integer) scalars.
#[derive(Clone, Copy, Debug, PartialEq, Eq, Structural)]
pub struct Vec3 {
    pub x: i32,
    pub y: i32,
    pub z: i32,
}

impl Vec3 {
    pub fn new(x: i32, y: i32, z: i32) -> (v: Vec3)
        ensures
            v == (Vec3 { x, y, z }),
    {
        Vec3 { x, y, z }
    }
}

/// A 4-component vector; one column of a `Mat4`.
#[derive(Clone, Copy, Debug, PartialEq, Eq, Structural)]
pub struct Vec4 {
    pub x: i32,
    pub y: i32,
    pub z: i32,
    pub w: i32,
}

/// A 4×4 matrix in column-major form: `x`, `y`, `z`, `w` are its columns, so
/// `m.x.w` is the entry in row 3, column 0.  The convention is
/// `clip = m · object`: row 0 maps object coordinates to clip `x`, row 1 to
/// clip `y`, row 2 to clip `z`, and row 3 to clip `w`.
#[derive(Clone, Copy, Debug, PartialEq, Eq, Structural)]
pub struct Mat4 {
    pub x: Vec4,
    pub y: Vec4,
    pub z: Vec4,
    pub w: Vec4,
}

/// One frustum plane, stored as the coefficients of the half-space
/// inequality `a·x + b·y + c·z + d >= 0`; points on the non-negative side
/// count as inside.
#[derive(Clone, Copy, Debug, PartialEq, Eq, Structural)]
pub struct Plane {
    pub a: i64,
    pub b: i64,
    pub c: i64,
    pub d: i64,
}

/// Dot product of a plane's direction vector with a point.
pub open spec fn plane_dot(p: Plane, v: Vec3) -> int {
    p.a * v.x + p.b * v.y + p.c * v.z
}

/// Signed distance of a point from a plane, in plane-coefficient units:
/// non-negative exactly when the point is on the plane's inside.
pub open spec fn point_dist(p: Plane, v: Vec3) -> int {
    plane_dot(p, v) + p.d
}

/// Signed distance of the box corner that maximizes the dot product with the
/// plane's direction: per axis, the `min` coordinate where the coefficient is
/// negative and the `max` coordinate otherwise.
pub open spec fn pos_corner_dist(p: Plane, min: Vec3, max: Vec3) -> int {
    (if p.a < 0 { p.a * min.x } else { p.a * max.x })
        + (if p.b < 0 { p.b * min.y } else { p.b * max.y })
        + (if p.c < 0 { p.c * min.z } else { p.c * max.z })
        + p.d
}

/// Signed distance of the box corner that minimizes the dot product with the
/// plane's direction: the opposite per-axis choice of `pos_corner_dist`.
pub open spec fn neg_corner_dist(p: Plane, min: Vec3, max: Vec3) -> int {
    (if p.a < 0 { p.a * max.x } else { p.a * min.x })
        + (if p.b < 0 { p.b * max.y } else { p.b * min.y })
        + (if p.c < 0 { p.c * max.z } else { p.c * min.z })
        + p.d
}

/// Products of an `i64` by an `i32` stay within `±2^94`, so sums of a few of
/// them are far inside the `i128` range.
pub(crate) proof fn lemma_mul_bound(x: int, y: int, bx: int, by: int)
    by (nonlinear_arith)
    requires
        -bx <= x <= bx,
        -by <= y <= by,
        0 <= bx,
        0 <= by,
    ensures
        -(bx * by) <= x * y <= bx * by,
{
}

/// Computes `point_dist` exactly: the wide accumulator cannot overflow.
pub(crate) fn plane_point_dist(p: Plane, v: Vec3) -> (r: i128)
    ensures
        r == point_dist(p, v),
{
    proof {
        lemma_mul_bound(p.a as int, v.x as int, 0x8000_0000_0000_0000, 0x8000_0000);
        lemma_mul_bound(p.b as int, v.y as int, 0x8000_0000_0000_0000, 0x8000_0000);
        lemma_mul_bound(p.c as int, v.z as int, 0x8000_0000_0000_0000, 0x8000_0000);
    }
    (p.a as i128) * (v.x as i128) + (p.b as i128) * (v.y as i128) + (p.c as i128) * (v.z as i128)
        + (p.d as i128)
}

/// Computes `pos_corner_dist` exactly.
pub(crate) fn plane_box_pos_dist(p: Plane, min: Vec3, max: Vec3) -> (r: i128)
    ensures
        r == pos_corner_dist(p, min, max),
{
    let cx = if p.a < 0 { min.x } else { max.x };
    let cy = if p.b < 0 { min.y } else { max.y };
    let cz = if p.c < 0 { min.z } else { max.z };
    proof {
        lemma_mul_bound(p.a as int, cx as int, 0x8000_0000_0000_0000, 0x8000_0000);
        lemma_mul_bound(p.b as int, cy as int, 0x8000_0000_0000_0000, 0x8000_0000);
        lemma_mul_bound(p.c as int, cz as int, 0x8000_0000_0000_0000, 0x8000_0000);
    }
    (p.a as i128) * (cx as i128) + (p.b as i128) * (cy as i128) + (p.c as i128) * (cz as i128)
        + (p.d as i128)
}

/// Computes `neg_corner_dist` exactly.
pub(crate) fn plane_box_neg_dist(p: Plane, min: Vec3, max: Vec3) -> (r: i128)
    ensures
        r == neg_corner_dist(p, min, max),
{
    let cx = if p.a < 0 { max.x } else { min.x };
    let cy = if p.b < 0 { max.y } else { min.y };
    let cz = if p.c < 0 { max.z } else { min.z };
    proof {
        lemma_mul_bound(p.a as int, cx as int, 0x8000_0000_0000_0000, 0x8000_0000);
        lemma_mul_bound(p.b as int, cy as int, 0x8000_0000_0000_0000, 0x8000_0000);
        lemma_mul_bound(p.c as int, cz as int, 0x8000_0000_0000_0000, 0x8000_0000);
    }
    (p.a as i128) * (cx as i128) + (p.b as i128) * (cy as i128) + (p.c as i128) * (cz as i128)
        + (p.d as i128)
}

} // verus!
