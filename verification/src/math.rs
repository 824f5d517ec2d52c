//! Integer helpers shared by the analysis components: range sums over
//! sequences and a floor integer square root.

use vstd::prelude::*;

verus! {

/// Sum of the elements of `s` with index in `[lo, hi)`.
pub open spec fn sum_range(s: Seq<i64>, lo: int, hi: int) -> int
    decreases hi - lo,
{
    if lo >= hi {
        0
    } else {
        sum_range(s, lo, hi - 1) + s[hi - 1]
    }
}

/// A range sum of values in `[0, b]` lies in `[0, (hi - lo) * b]`.
pub proof fn lemma_sum_range_bounds(s: Seq<i64>, lo: int, hi: int, b: int)
    requires
        0 <= lo <= hi <= s.len(),
        forall|i: int| lo <= i < hi ==> 0 <= #[trigger] s[i] <= b,
    ensures
        0 <= sum_range(s, lo, hi) <= (hi - lo) * b,
    decreases hi - lo,
{
    if lo < hi {
        lemma_sum_range_bounds(s, lo, hi - 1, b);
        assert(0 <= s[hi - 1] <= b);
        assert(sum_range(s, lo, hi) == sum_range(s, lo, hi - 1) + s[hi - 1]);
        assert((hi - 1 - lo) * b + b == (hi - lo) * b) by (nonlinear_arith);
    } else {
        assert((hi - lo) * b == 0) by (nonlinear_arith)
            requires hi == lo;
    }
}

/// The floor of the square root of `x`.
pub open spec fn sqrt_floor(x: nat) -> nat
    decreases x,
{
    if x == 0 {
        0
    } else {
        let r = sqrt_floor((x - 1) as nat);
        if (r + 1) * (r + 1) <= x {
            r + 1
        } else {
            r
        }
    }
}

/// `sqrt_floor(x)` is the unique `r` with `r * r <= x < (r + 1) * (r + 1)`.
pub proof fn lemma_sqrt_floor_bounds(x: nat)
    ensures
        sqrt_floor(x) * sqrt_floor(x) <= x,
        x < (sqrt_floor(x) + 1) * (sqrt_floor(x) + 1),
    decreases x,
{
    if x == 0 {
        assert(sqrt_floor(0) == 0);
        assert(x < (sqrt_floor(x) + 1) * (sqrt_floor(x) + 1)) by (nonlinear_arith)
            requires
                x == 0,
                sqrt_floor(x) == 0,
        ;
    } else {
        lemma_sqrt_floor_bounds((x - 1) as nat);
        let r = sqrt_floor((x - 1) as nat);
        assert(r * r <= x - 1);
        assert(x - 1 < (r + 1) * (r + 1));
        if (r + 1) * (r + 1) <= x {
            assert(sqrt_floor(x) == r + 1);
            assert(sqrt_floor(x) * sqrt_floor(x) <= x) by (nonlinear_arith)
                requires
                    sqrt_floor(x) == r + 1,
                    (r + 1) * (r + 1) <= x,
            ;
            assert(x < (sqrt_floor(x) + 1) * (sqrt_floor(x) + 1)) by (nonlinear_arith)
                requires
                    sqrt_floor(x) == r + 1,
                    x - 1 < (r + 1) * (r + 1),
                    (r + 1) * (r + 1) <= x,
            ;
        } else {
            assert(sqrt_floor(x) == r);
            assert(sqrt_floor(x) * sqrt_floor(x) <= x) by (nonlinear_arith)
                requires
                    sqrt_floor(x) == r,
                    r * r <= x - 1,
                    x >= 1,
            ;
            assert(x < (sqrt_floor(x) + 1) * (sqrt_floor(x) + 1)) by (nonlinear_arith)
                requires
                    sqrt_floor(x) == r,
                    !((r + 1) * (r + 1) <= x),
            ;
        }
    }
}

/// Any `r` within the square-root bracket of `x` equals `sqrt_floor(x)`.
pub proof fn lemma_sqrt_floor_unique(x: nat, r: nat)
    requires
        r * r <= x,
        x < (r + 1) * (r + 1),
    ensures
        r == sqrt_floor(x),
{
    lemma_sqrt_floor_bounds(x);
    if r != sqrt_floor(x) {
        assert(false) by (nonlinear_arith)
            requires
                r * r <= x,
                x < (r + 1) * (r + 1),
                sqrt_floor(x) * sqrt_floor(x) <= x,
                x < (sqrt_floor(x) + 1) * (sqrt_floor(x) + 1),
                r != sqrt_floor(x),
        ;
    }
}

/// If `x` lies strictly below `(b + 1)^2` then its root floor is at most `b`.
pub proof fn lemma_sqrt_floor_at_most(x: nat, b: nat)
    requires
        x < (b + 1) * (b + 1),
    ensures
        sqrt_floor(x) <= b,
{
    lemma_sqrt_floor_bounds(x);
    if sqrt_floor(x) > b {
        assert(false) by (nonlinear_arith)
            requires
                sqrt_floor(x) * sqrt_floor(x) <= x,
                x < (b + 1) * (b + 1),
                b + 1 <= sqrt_floor(x),
        ;
    }
}

/// A non-negative value at most `hi * d` keeps its quotient by `d` in
/// `[0, hi]`.
pub proof fn lemma_div_bounds(x: int, hi: int, d: int)
    requires
        0 <= x,
        x <= hi * d,
        0 < d,
        0 <= hi,
    ensures
        0 <= x / d <= hi,
{
    vstd::arithmetic::div_mod::lemma_div_pos_is_pos(x, d);
    vstd::arithmetic::div_mod::lemma_div_is_ordered(x, hi * d, d);
    vstd::arithmetic::div_mod::lemma_div_by_multiple(hi, d);
}

/// Floor integer square root by bisection.
pub fn isqrt(x: u64) -> (r: u64)
    ensures
        r == sqrt_floor(x as nat),
        r * r <= x,
        x < (r + 1) * (r + 1),
{
    let mut lo: u64 = 0;
    let mut hi: u64 = if x >= 0xFFFF_FFFF {
        0x1_0000_0000
    } else {
        x + 1
    };
    proof {
        if x < 0xFFFF_FFFF {
            assert((x as int) < (x as int + 1) * (x as int + 1)) by (nonlinear_arith);
        }
    }
    while lo + 1 < hi
        invariant
            lo < hi,
            hi <= 0x1_0000_0000,
            (lo as int) * (lo as int) <= x as int,
            (x as int) < (hi as int) * (hi as int),
        decreases hi - lo,
    {
        let mid = lo + (hi - lo) / 2;
        proof {
            assert((mid as int) * (mid as int) <= 0x1_0000_0000 * 0x1_0000_0000)
                by (nonlinear_arith)
                requires 0 <= mid as int <= 0x1_0000_0000;
        }
        let sq = (mid as u128) * (mid as u128);
        if sq <= x as u128 {
            lo = mid;
        } else {
            hi = mid;
        }
    }
    proof {
        lemma_sqrt_floor_unique(x as nat, lo as nat);
    }
    lo
}

} // verus!
