//! Exact integer arithmetic helpers: an integer square root and an exact
//! (remainder-free) signed division, used when a plane is rescaled to unit
//! direction length.

use vstd::prelude::*;

verus! {

use vstd::arithmetic::div_mod::lemma_fundamental_div_mod;
use vstd::arithmetic::div_mod::lemma_fundamental_div_mod_converse_div;
use vstd::arithmetic::div_mod::lemma_fundamental_div_mod_converse_mod;
use vstd::arithmetic::div_mod::lemma_mod_multiples_basic;
use vstd::arithmetic::mul::lemma_mul_upper_bound;

/// Largest `r` with `r * r <= s`, found by bisection.
pub(crate) fn isqrt(s: u128) -> (r: u64)
    requires
        s < 0x1_0000_0000_0000_0000_0000,
    ensures
        (r as int) * (r as int) <= s,
        s < (r as int + 1) * (r as int + 1),
        r < 0x100_0000_0000,
{
    let mut lo: u64 = 0;
    let mut hi: u64 = 0x100_0000_0000;
    proof {
        assert((hi as int) * (hi as int) == 0x1_0000_0000_0000_0000_0000) by (nonlinear_arith)
            requires
                hi == 0x100_0000_0000u64,
        ;
        assert((lo as int) * (lo as int) == 0) by (nonlinear_arith)
            requires
                lo == 0u64,
        ;
    }
    while lo + 1 < hi
        invariant
            lo < hi,
            hi <= 0x100_0000_0000,
            (lo as int) * (lo as int) <= s,
            s < (hi as int) * (hi as int),
        decreases hi - lo,
    {
        let mid = lo + (hi - lo) / 2;
        proof {
            assert(1 <= (hi - lo) / 2 && (hi - lo) / 2 < hi - lo) by (nonlinear_arith)
                requires
                    hi - lo >= 2,
            ;
            lemma_mul_upper_bound(mid as int, 0x100_0000_0000, mid as int, 0x100_0000_0000);
        }
        let sq = (mid as u128) * (mid as u128);
        if sq <= s {
            lo = mid;
        } else {
            hi = mid;
        }
    }
    lo
}

/// Divides `a` by `l` when `l` divides `a` exactly; reports `None` otherwise.
pub(crate) fn exact_div(a: i64, l: i64) -> (r: Option<i64>)
    requires
        0 < l,
        -0x1_0000_0000 <= a <= 0x1_0000_0000,
    ensures
        match r {
            Some(q) => (a as int) % (l as int) == 0 && q == (a as int) / (l as int),
            None => (a as int) % (l as int) != 0,
        },
{
    let lu = l as u64;
    if a >= 0 {
        let au = a as u64;
        if au % lu == 0 {
            let q = au / lu;
            proof {
                lemma_fundamental_div_mod(au as int, lu as int);
            }
            Some(q as i64)
        } else {
            None
        }
    } else {
        let m = (-(a as i128)) as u64;
        if m % lu == 0 {
            let q = m / lu;
            proof {
                lemma_fundamental_div_mod(m as int, lu as int);
                assert(a as int == (-(q as int)) * (l as int) + 0) by (nonlinear_arith)
                    requires
                        a as int == -(m as int),
                        m as int == (lu as int) * (q as int),
                        l as int == lu as int,
                ;
                lemma_fundamental_div_mod_converse_mod(a as int, l as int, -(q as int), 0);
                lemma_fundamental_div_mod_converse_div(a as int, l as int, -(q as int), 0);
            }
            Some(-(q as i64))
        } else {
            proof {
                if (a as int) % (l as int) == 0 {
                    lemma_fundamental_div_mod(a as int, l as int);
                    assert(m as int == (-((a as int) / (l as int))) * (l as int))
                        by (nonlinear_arith)
                        requires
                            m as int == -(a as int),
                            a as int == (l as int) * ((a as int) / (l as int)),
                    ;
                    lemma_mod_multiples_basic(-((a as int) / (l as int)), l as int);
                    assert(false);
                }
            }
            None
        }
    }
}

} // verus!
