//! Exact plane rescaling.
//!
//! Sphere tests compare signed distances against a Euclidean radius, which is
//! only meaningful when a plane's direction vector has unit length.  With
//! exact integer scalars such a rescaling is representable precisely when the
//! squared length of the direction is a perfect square whose root divides all
//! four coefficients; in every other case (including the zero direction of a
//! degenerate matrix) the plane is deliberately left unchanged, so the
//! operation stays total.

use vstd::prelude::*;

verus! {

use crate::geom::Plane;
use crate::geom::lemma_mul_bound;
use crate::math::exact_div;
use crate::math::isqrt;

/// Square of the Euclidean length of the plane's direction vector.
pub open spec fn sq_norm(p: Plane) -> int {
    p.a * p.a + p.b * p.b + p.c * p.c
}

/// `l` is the exact Euclidean length of `p`'s direction and divides all four
/// coefficients, so `p / l` has a unit direction and exact coefficients.
pub open spec fn exact_unit_divisor(p: Plane, l: int) -> bool {
    &&& 0 < l
    &&& l * l == sq_norm(p)
    &&& (p.a as int) % l == 0
    &&& (p.b as int) % l == 0
    &&& (p.c as int) % l == 0
    &&& (p.d as int) % l == 0
}

/// Whether `p` can be rescaled to unit direction length without leaving
/// exact integer scalars.
pub open spec fn exactly_normalizable(p: Plane) -> bool {
    exists|l: int| exact_unit_divisor(p, l)
}

/// The plane rescaled to unit direction length where that is exactly
/// representable; otherwise the plane unchanged.
pub open spec fn normalized_plane(p: Plane) -> Plane {
    if exactly_normalizable(p) {
        let l = choose|l: int| exact_unit_divisor(p, l);
        Plane {
            a: ((p.a as int) / l) as i64,
            b: ((p.b as int) / l) as i64,
            c: ((p.c as int) / l) as i64,
            d: ((p.d as int) / l) as i64,
        }
    } else {
        p
    }
}

/// A plane direction has at most one exact unit divisor: a positive square
/// root is unique.
proof fn lemma_unit_divisor_unique(p: Plane, l1: int, l2: int)
    requires
        exact_unit_divisor(p, l1),
        exact_unit_divisor(p, l2),
    ensures
        l1 == l2,
{
    assert(l1 == l2) by (nonlinear_arith)
        requires
            0 < l1,
            0 < l2,
            l1 * l1 == l2 * l2,
    ;
}

/// Computes `normalized_plane` exactly, for the coefficient range produced
/// by plane extraction.
pub(crate) fn normalize_plane(p: Plane) -> (r: Plane)
    requires
        -0x1_0000_0000 <= p.a <= 0x1_0000_0000,
        -0x1_0000_0000 <= p.b <= 0x1_0000_0000,
        -0x1_0000_0000 <= p.c <= 0x1_0000_0000,
        -0x1_0000_0000 <= p.d <= 0x1_0000_0000,
    ensures
        r == normalized_plane(p),
{
    proof {
        lemma_mul_bound(p.a as int, p.a as int, 0x1_0000_0000, 0x1_0000_0000);
        lemma_mul_bound(p.b as int, p.b as int, 0x1_0000_0000, 0x1_0000_0000);
        lemma_mul_bound(p.c as int, p.c as int, 0x1_0000_0000, 0x1_0000_0000);
        assert((p.a as int) * (p.a as int) >= 0) by (nonlinear_arith);
        assert((p.b as int) * (p.b as int) >= 0) by (nonlinear_arith);
        assert((p.c as int) * (p.c as int) >= 0) by (nonlinear_arith);
    }
    let aa = (p.a as i128) * (p.a as i128);
    let bb = (p.b as i128) * (p.b as i128);
    let cc = (p.c as i128) * (p.c as i128);
    let s = aa + bb + cc;
    let su = s as u128;
    let root = isqrt(su);
    proof {
        lemma_mul_bound(root as int, root as int, 0x100_0000_0000, 0x100_0000_0000);
    }
    let rsq = (root as u128) * (root as u128);
    if root > 0 && rsq == su {
        let l = root as i64;
        let qa = exact_div(p.a, l);
        let qb = exact_div(p.b, l);
        let qc = exact_div(p.c, l);
        let qd = exact_div(p.d, l);
        match (qa, qb, qc, qd) {
            (Some(a2), Some(b2), Some(c2), Some(d2)) => {
                proof {
                    assert(exact_unit_divisor(p, l as int));
                    assert(exactly_normalizable(p));
                    let lw = choose|l2: int| exact_unit_divisor(p, l2);
                    lemma_unit_divisor_unique(p, l as int, lw);
                }
                Plane { a: a2, b: b2, c: c2, d: d2 }
            },
            _ => {
                proof {
                    if exactly_normalizable(p) {
                        let lw = choose|l2: int| exact_unit_divisor(p, l2);
                        assert(exact_unit_divisor(p, lw));
                        assert(lw == root as int) by (nonlinear_arith)
                            requires
                                0 < lw,
                                lw * lw == (su as int),
                                (root as int) * (root as int) == (su as int),
                                0 < root,
                        ;
                        assert(false);
                    }
                }
                p
            },
        }
    } else {
        proof {
            if exactly_normalizable(p) {
                let lw = choose|l2: int| exact_unit_divisor(p, l2);
                assert(exact_unit_divisor(p, lw));
                assert(lw == root as int) by (nonlinear_arith)
                    requires
                        0 < lw,
                        lw * lw == (su as int),
                        (root as int) * (root as int) <= (su as int),
                        (su as int) < ((root as int) + 1) * ((root as int) + 1),
                        0 <= root as int,
                ;
                assert(false);
            }
        }
        p
    }
}

} // verus!
