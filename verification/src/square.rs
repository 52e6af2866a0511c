//! Integer square roots and perfect squares.
//!
//! A tile is dispatched over a square two-dimensional grid, so its capacity
//! has to be the square of a whole number. Everything here is exact integer
//! arithmetic.

use vstd::prelude::*;

verus! {

/// `r` is the integer square root of `n`: the largest natural number whose
/// square does not exceed `n`.
pub open spec fn is_sqrt_floor(n: nat, r: nat) -> bool {
    r * r <= n < (r + 1) * (r + 1)
}

/// The integer square root of `n`.
pub open spec fn sqrt_floor(n: nat) -> nat {
    choose|r: nat| is_sqrt_floor(n, r)
}

/// `n` is the square of a natural number.
pub open spec fn is_perfect_square(n: nat) -> bool {
    exists|r: nat| #[trigger] (r * r) == n
}

/// `n` is the square of a positive natural number, so it can be laid out as a
/// grid of two positive extents.
pub open spec fn is_positive_square(n: nat) -> bool {
    n > 0 && is_perfect_square(n)
}

/// A number has at most one integer square root.
pub proof fn lemma_sqrt_floor_unique(n: nat, a: nat, b: nat)
    requires
        is_sqrt_floor(n, a),
        is_sqrt_floor(n, b),
    ensures
        a == b,
{
    assert(a == b) by (nonlinear_arith)
        requires
            a * a <= n,
            n < (a + 1) * (a + 1),
            b * b <= n,
            n < (b + 1) * (b + 1),
    ;
}

/// Whoever satisfies the defining inequality is the integer square root.
pub proof fn lemma_sqrt_floor_is(n: nat, r: nat)
    requires
        is_sqrt_floor(n, r),
    ensures
        sqrt_floor(n) == r,
{
    lemma_sqrt_floor_unique(n, sqrt_floor(n), r);
}

/// A number is a perfect square exactly when its integer square root squares
/// back to it.
pub proof fn lemma_perfect_square_by_root(n: nat, r: nat)
    requires
        is_sqrt_floor(n, r),
    ensures
        is_perfect_square(n) <==> r * r == n,
{
    if is_perfect_square(n) {
        let s = choose|s: nat| #[trigger] (s * s) == n;
        assert(is_sqrt_floor(n, s)) by (nonlinear_arith)
            requires
                s * s == n,
        ;
        lemma_sqrt_floor_unique(n, s, r);
    }
}

/// Computes the integer square root by bisection.
pub fn integer_sqrt(n: u64) -> (r: u32)
    ensures
        is_sqrt_floor(n as nat, r as nat),
        r as nat == sqrt_floor(n as nat),
{
    let mut lo: u64 = 0;
    let mut hi: u64 = 0x1_0000_0000;
    while hi - lo > 1
        invariant
            lo < hi <= 0x1_0000_0000,
            lo * lo <= n,
            n < hi * hi,
        decreases hi - lo,
    {
        let mid: u64 = lo + (hi - lo) / 2;
        assert(mid * mid <= 0xFFFF_FFFE_0000_0001) by (nonlinear_arith)
            requires
                mid <= 0xFFFF_FFFF,
        ;
        if mid * mid <= n {
            lo = mid;
        } else {
            hi = mid;
        }
    }
    proof {
        lemma_sqrt_floor_is(n as nat, lo as nat);
    }
    lo as u32
}

/// Returns the root of `n` if `n` is a perfect square, and `None` otherwise.
pub fn perfect_square_root(n: u64) -> (root: Option<u32>)
    ensures
        root is Some <==> is_perfect_square(n as nat),
        root matches Some(r) ==> r * r == n && r as nat == sqrt_floor(n as nat),
{
    let r: u32 = integer_sqrt(n);
    proof {
        lemma_perfect_square_by_root(n as nat, r as nat);
    }
    let wide: u64 = r as u64;
    assert(wide * wide <= n) by (nonlinear_arith)
        requires
            (r as nat) * (r as nat) <= n as nat,
            wide == r,
    ;
    if wide * wide == n {
        Some(r)
    } else {
        None
    }
}

} // verus!
