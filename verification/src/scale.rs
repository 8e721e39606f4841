//! The iteration-scaling heuristic.
//!
//! Larger buffers miss the caches more often, so each dereference takes
//! longer and fewer of them are needed for a stable per-sample average. The
//! step count is `round(10 * ITER / size^(1/4))` for a size in KiB, computed
//! exactly over the integers: `n = round(x)` holds for the positive real
//! `x = (16 * (10 * ITER)^4 / size)^(1/4) / 2` exactly when
//! `(2n - 1)^4 <= 16 * (10 * ITER)^4 / size < (2n + 1)^4`, so `n` is
//! recovered from the integer fourth root of that quotient.

use vstd::arithmetic::div_mod::{
    lemma_div_is_ordered, lemma_div_is_ordered_by_denominator, lemma_div_non_zero,
    lemma_div_pos_is_pos,
};
use vstd::prelude::*;

verus! {

/// Base iteration count of the scaling heuristic.
pub const ITER: usize = 100_000_000;

/// `16 * (10 * ITER)^4`: the fixed numerator of the exact rounding
/// computation.
const SCALE_NUMERATOR: u128 = 16_000_000_000_000_000_000_000_000_000_000_000_000;

/// `x * x * x * x`.
pub open spec fn pow4(x: int) -> int {
    x * x * x * x
}

/// `r` is the integer fourth root of `f`.
pub open spec fn is_fourth_root(f: int, r: int) -> bool {
    0 <= r && pow4(r) <= f < pow4(r + 1)
}

/// The integer fourth root of `f` (arbitrary when `f` is negative).
pub open spec fn fourth_root(f: int) -> int {
    choose|r: int| is_fourth_root(f, r)
}

/// `round(10 * ITER / size^(1/4))`, computed exactly over the integers.
pub open spec fn spec_scale_iterations(size: int) -> int
    recommends
        1 <= size,
{
    (fourth_root(16 * pow4(10 * ITER as int) / size) + 1) / 2
}

/// The numerator constant is what the heuristic formula says it is.
proof fn lemma_scale_numerator_value()
    ensures
        16 * pow4(10 * ITER as int) == SCALE_NUMERATOR as int,
        pow4(2_000_000_001) == 16_000_000_032_000_000_024_000_000_008_000_000_001int,
{
    let b: int = 10 * ITER as int;
    assert(b == 1_000_000_000);
    assert(b * b * b * b == 1_000_000_000_000_000_000_000_000_000_000_000_000int)
        by (nonlinear_arith)
        requires
            b == 1_000_000_000,
    ;
    let c: int = 2_000_000_001;
    assert(c * c * c * c == 16_000_000_032_000_000_024_000_000_008_000_000_001int)
        by (nonlinear_arith)
        requires
            c == 2_000_000_001,
    ;
}

/// The fourth power is monotone on the non-negative integers.
proof fn lemma_pow4_increasing(a: int, b: int)
    requires
        0 <= a <= b,
    ensures
        pow4(a) <= pow4(b),
{
    assert(a * a * a * a <= b * b * b * b) by (nonlinear_arith)
        requires
            0 <= a <= b,
    ;
}

/// Every non-negative integer has an integer fourth root.
proof fn lemma_fourth_root_exists(f: int)
    requires
        0 <= f,
    ensures
        is_fourth_root(f, fourth_root(f)),
    decreases f,
{
    if f == 0 {
        assert(is_fourth_root(0, 0));
    } else {
        lemma_fourth_root_exists(f - 1);
        let r = fourth_root(f - 1);
        if f < pow4(r + 1) {
            assert(is_fourth_root(f, r));
        } else {
            assert(f == pow4(r + 1));
            assert(pow4(r + 1) < pow4(r + 2)) by (nonlinear_arith)
                requires
                    0 <= r,
            ;
            assert(is_fourth_root(f, r + 1));
        }
    }
}

/// The integer fourth root is unique.
proof fn lemma_fourth_root_unique(f: int, r1: int, r2: int)
    requires
        is_fourth_root(f, r1),
        is_fourth_root(f, r2),
    ensures
        r1 == r2,
{
    if r1 < r2 {
        lemma_pow4_increasing(r1 + 1, r2);
    }
    if r2 < r1 {
        lemma_pow4_increasing(r2 + 1, r1);
    }
}

/// The integer fourth root of `f`, by binary search.
fn fourth_root_u128(f: u128) -> (r: u64)
    requires
        f as int <= 16 * pow4(10 * ITER as int),
    ensures
        r as int == fourth_root(f as int),
        is_fourth_root(f as int, r as int),
{
    let mut lo: u64 = 0;
    let mut hi: u64 = 2_000_000_001;
    proof {
        lemma_scale_numerator_value();
        assert(16 * pow4(10 * ITER as int) < pow4(2_000_000_001));
    }
    while lo + 1 < hi
        invariant
            lo < hi <= 2_000_000_001,
            pow4(lo as int) <= f as int,
            (f as int) < pow4(hi as int),
        decreases hi - lo,
    {
        let mid = lo + (hi - lo) / 2;
        let m = mid as u128;
        proof {
            let mi = m as int;
            assert(mi * mi <= 4_000_000_004_000_000_001int && mi * mi * mi
                <= 8_000_000_012_000_000_006_000_000_001int && mi * mi * mi * mi
                <= 16_000_000_032_000_000_024_000_000_008_000_000_001int) by (nonlinear_arith)
                requires
                    0 <= mi <= 2_000_000_001,
            ;
        }
        let m4 = m * m * m * m;
        if m4 <= f {
            lo = mid;
        } else {
            hi = mid;
        }
    }
    proof {
        assert(is_fourth_root(f as int, lo as int));
        lemma_fourth_root_exists(f as int);
        lemma_fourth_root_unique(f as int, lo as int, fourth_root(f as int));
    }
    lo
}

/// Number of dereference steps per timed sample for a buffer of `size` KiB.
pub fn scale_iterations(size: usize) -> (r: usize)
    requires
        1 <= size,
    ensures
        r == spec_scale_iterations(size as int),
        1 <= r <= 1_000_000_000,
{
    proof {
        lemma_scale_numerator_value();
    }
    let f: u128 = SCALE_NUMERATOR / (size as u128);
    proof {
        lemma_div_pos_is_pos(SCALE_NUMERATOR as int, size as int);
        lemma_div_is_ordered(f as int, SCALE_NUMERATOR as int, 1);
        lemma_div_non_zero(SCALE_NUMERATOR as int, size as int);
    }
    let root = fourth_root_u128(f);
    proof {
        if root as int > 2_000_000_000 {
            lemma_pow4_increasing(2_000_000_001, root as int);
            assert(false);
        }
        if root == 0 {
            assert((f as int) < pow4(1));
            assert(false);
        }
    }
    ((root + 1) / 2) as usize
}

/// Larger buffers never need more steps: the scaling heuristic is
/// non-increasing in the buffer size.
pub proof fn lemma_scale_iterations_non_increasing(s1: int, s2: int)
    requires
        1 <= s1 <= s2,
    ensures
        spec_scale_iterations(s2) <= spec_scale_iterations(s1),
{
    let k = 16 * pow4(10 * ITER as int);
    assert(0 <= k);
    let f1 = k / s1;
    let f2 = k / s2;
    lemma_div_is_ordered_by_denominator(k, s1, s2);
    lemma_div_pos_is_pos(k, s1);
    lemma_div_pos_is_pos(k, s2);
    lemma_fourth_root_exists(f1);
    lemma_fourth_root_exists(f2);
    let r1 = fourth_root(f1);
    let r2 = fourth_root(f2);
    if r2 > r1 {
        lemma_pow4_increasing(r1 + 1, r2);
    }
    lemma_div_is_ordered(r2 + 1, r1 + 1, 2);
}

} // verus!
