//! Integer helpers shared by the fixed-point rules.
use vstd::prelude::*;

verus! {

/// `r` is the integer square root of `n`.
pub open spec fn is_root(n: nat, r: nat) -> bool {
    r * r <= n && n < (r + 1) * (r + 1)
}

/// The integer square root: the unique `r` with `is_root(n, r)`.
pub open spec fn isqrt(n: nat) -> nat {
    choose|r: nat| #[trigger] is_root(n, r)
}

/// Two roots of `n` in the sense of `isqrt` coincide.
pub proof fn lemma_isqrt_unique(n: nat, r: nat, s: nat)
    requires
        r * r <= n < (r + 1) * (r + 1),
        s * s <= n < (s + 1) * (s + 1),
    ensures
        r == s,
{
    if r < s {
        assert((r + 1) * (r + 1) <= s * s) by (nonlinear_arith)
            requires
                r + 1 <= s,
        ;
    } else if s < r {
        assert((s + 1) * (s + 1) <= r * r) by (nonlinear_arith)
            requires
                s + 1 <= r,
        ;
    }
}

/// Any `r` that brackets `n` is its integer square root.
pub proof fn lemma_isqrt_is(n: nat, r: nat)
    requires
        r * r <= n < (r + 1) * (r + 1),
    ensures
        isqrt(n) == r,
{
    assert(is_root(n, r));
    let s = isqrt(n);
    assert(is_root(n, s));
    lemma_isqrt_unique(n, r, s);
}

/// Integer square root by bisection.
pub fn integer_sqrt(n: u64) -> (r: u64)
    ensures
        r == isqrt(n as nat),
        (r as nat) * (r as nat) <= n,
        n < (r as nat + 1) * (r as nat + 1),
{
    let mut lo: u64 = 0;
    let mut hi: u64 = 0x1_0000_0000;
    assert(0x1_0000_0000 * 0x1_0000_0000 > u64::MAX) by (nonlinear_arith);
    while lo + 1 < hi
        invariant
            lo < hi <= 0x1_0000_0000,
            (lo as nat) * (lo as nat) <= n,
            n < (hi as nat) * (hi as nat),
        decreases hi - lo,
    {
        let mid: u64 = lo + (hi - lo) / 2;
        assert((mid as nat) * (mid as nat) < 0x1_0000_0000 * 0x1_0000_0000) by (nonlinear_arith)
            requires
                mid < 0x1_0000_0000,
        ;
        if mid * mid <= n {
            lo = mid;
        } else {
            hi = mid;
        }
    }
    proof {
        lemma_isqrt_is(n as nat, lo as nat);
    }
    lo
}

/// `n + 1`, held at `u32::MAX`.
pub open spec fn sat_inc(n: u32) -> u32 {
    if n < u32::MAX {
        (n + 1) as u32
    } else {
        n
    }
}

} // verus!
