//! Integer square roots.

use vstd::prelude::*;

verus! {

/// `r` is the square root of `n`, rounded down.
pub open spec fn is_floor_sqrt(n: int, r: int) -> bool {
    0 <= r && r * r <= n && n < (r + 1) * (r + 1)
}

/// The square root of `n`, rounded down.
pub open spec fn floor_sqrt(n: int) -> int {
    choose|r: int| is_floor_sqrt(n, r)
}

/// The square root of `n`, rounded up.
pub open spec fn ceil_sqrt(n: int) -> int {
    let r = floor_sqrt(n);
    if r * r == n {
        r
    } else {
        r + 1
    }
}

/// The square root of `n`, rounded down.
pub fn isqrt(n: u128) -> (r: u64)
    ensures
        is_floor_sqrt(n as int, r as int),
        r == floor_sqrt(n as int),
{
    let mut lo: u128 = 0;
    let mut hi: u128 = 0x1_0000_0000_0000_0000;
    assert(0x1_0000_0000_0000_0000int * 0x1_0000_0000_0000_0000int
        == 0x1_0000_0000_0000_0000_0000_0000_0000_0000int) by (nonlinear_arith);
    while hi - lo > 1
        invariant
            lo < hi <= 0x1_0000_0000_0000_0000,
            lo * lo <= n,
            n < hi * hi,
        decreases hi - lo,
    {
        let mid: u128 = lo + (hi - lo) / 2;
        assert(mid * mid <= 0xffff_ffff_ffff_ffff * 0xffff_ffff_ffff_ffff) by (nonlinear_arith)
            requires
                0 <= mid <= 0xffff_ffff_ffff_ffff,
        ;
        assert(0xffff_ffff_ffff_ffffint * 0xffff_ffff_ffff_ffffint
            < 0x1_0000_0000_0000_0000_0000_0000_0000_0000int) by (nonlinear_arith);
        if mid * mid <= n {
            lo = mid;
        } else {
            hi = mid;
        }
    }
    proof {
        lemma_floor_sqrt_is(n as int, lo as int);
    }
    lo as u64
}

/// The square root of `n`, rounded up.
pub fn isqrt_ceil(n: u128) -> (r: u128)
    ensures
        r == ceil_sqrt(n as int),
        n <= r * r,
        r <= 0x1_0000_0000_0000_0000,
        n > 0 ==> r > 0,
{
    let root: u64 = isqrt(n);
    let wide: u128 = root as u128;
    proof {
        lemma_ceil_sqrt_bounds(n as int, root as int);
    }
    assert(wide * wide <= n);
    if wide * wide == n {
        wide
    } else {
        wide + 1
    }
}

/// At most one number is the rounded-down root of `n`.
pub proof fn lemma_floor_sqrt_unique(n: int, r: int, s: int)
    by (nonlinear_arith)
    requires
        is_floor_sqrt(n, r),
        is_floor_sqrt(n, s),
    ensures
        r == s,
{
    if r < s {
        assert((r + 1) * (r + 1) <= s * s);
    }
    if s < r {
        assert((s + 1) * (s + 1) <= r * r);
    }
}

/// A number that squares to at most `n`, while its successor squares to more,
/// is `floor_sqrt(n)`.
pub proof fn lemma_floor_sqrt_is(n: int, r: int)
    requires
        is_floor_sqrt(n, r),
    ensures
        floor_sqrt(n) == r,
{
    lemma_floor_sqrt_unique(n, r, floor_sqrt(n));
}

/// Every number from zero up has a rounded-down root.
pub proof fn lemma_floor_sqrt_exists(n: int)
    requires
        n >= 0,
    ensures
        is_floor_sqrt(n, floor_sqrt(n)),
{
    let r = lemma_floor_sqrt_search(n, 0);
}

/// Walks up from `lo`, whose square is at most `n`, to the root.
proof fn lemma_floor_sqrt_search(n: int, lo: int) -> (r: int)
    requires
        0 <= lo,
        lo * lo <= n,
    ensures
        is_floor_sqrt(n, r),
    decreases n - lo,
{
    assert(lo <= n) by (nonlinear_arith)
        requires
            0 <= lo,
            lo * lo <= n,
    ;
    if n < (lo + 1) * (lo + 1) {
        lo
    } else {
        assert(lo + 1 <= n) by (nonlinear_arith)
            requires
                0 <= lo,
                (lo + 1) * (lo + 1) <= n,
        ;
        lemma_floor_sqrt_search(n, lo + 1)
    }
}

/// The rounded-up root is the least number whose square reaches `n`.
pub proof fn lemma_ceil_sqrt_bounds(n: int, r: int)
    requires
        is_floor_sqrt(n, r),
    ensures
        ceil_sqrt(n) == (if r * r == n { r } else { r + 1 }),
        n <= ceil_sqrt(n) * ceil_sqrt(n),
        n > 0 ==> ceil_sqrt(n) > 0,
        n > 0 ==> (ceil_sqrt(n) - 1) * (ceil_sqrt(n) - 1) < n,
{
    lemma_floor_sqrt_is(n, r);
    assert(n > 0 && r * r == n ==> r > 0 && (r - 1) * (r - 1) < n) by (nonlinear_arith)
        requires
            r >= 0,
    ;
}

} // verus!
