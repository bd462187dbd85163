//! Exact square-root flooring, used by the fold-radius computation.

use vstd::prelude::*;

verus! {

/// `r` is the floor of the square root of `n`.
pub open spec fn is_sqrt_floor(n: int, r: int) -> bool {
    &&& 0 <= r
    &&& r * r <= n
    &&& n < (r + 1) * (r + 1)
}

/// The floor of the square root of `n` (for non-negative `n`).
pub open spec fn sqrt_floor(n: int) -> int {
    choose|r: int| is_sqrt_floor(n, r)
}

/// At most one integer can be the floored square root of `n`, so any
/// witness determines `sqrt_floor`.
pub proof fn lemma_sqrt_floor_unique(n: int, r: int)
    requires
        is_sqrt_floor(n, r),
    ensures
        sqrt_floor(n) == r,
{
    assert(exists|x: int| is_sqrt_floor(n, x));
    let rr = sqrt_floor(n);
    assert(is_sqrt_floor(n, rr));
    assert(rr == r) by (nonlinear_arith)
        requires
            0 <= r,
            r * r <= n,
            n < (r + 1) * (r + 1),
            0 <= rr,
            rr * rr <= n,
            n < (rr + 1) * (rr + 1),
    ;
}

/// Upper bound of the binary search: `2^64` squares to `2^128`, above any
/// `u128` input.
const SQRT_SEARCH_TOP: u128 = 18446744073709551616;

/// Floored integer square root by binary search on the invariant
/// `lo*lo <= n < hi*hi`.
pub fn isqrt(n: u128) -> (r: u64)
    ensures
        is_sqrt_floor(n as int, r as int),
        r as int == sqrt_floor(n as int),
{
    let mut lo: u128 = 0;
    let mut hi: u128 = SQRT_SEARCH_TOP;
    proof {
        assert((SQRT_SEARCH_TOP as int) * (SQRT_SEARCH_TOP as int) > n as int) by (nonlinear_arith)
            requires
                n < SQRT_SEARCH_TOP as int * 18446744073709551616,
        ;
    }
    while lo + 1 < hi
        invariant
            lo < hi <= SQRT_SEARCH_TOP,
            lo * lo <= n,
            (hi as int) * (hi as int) > n as int,
        decreases hi - lo,
    {
        let mid: u128 = lo + (hi - lo) / 2;
        proof {
            assert(lo < mid < hi);
            assert(mid * mid < 340282366920938463463374607431768211455) by (nonlinear_arith)
                requires
                    0 <= mid < 18446744073709551616,
            ;
        }
        if mid * mid <= n {
            lo = mid;
        } else {
            hi = mid;
        }
    }
    proof {
        assert(hi == lo + 1);
        assert(is_sqrt_floor(n as int, lo as int));
        lemma_sqrt_floor_unique(n as int, lo as int);
        assert(lo < SQRT_SEARCH_TOP);
    }
    lo as u64
}

} // verus!
