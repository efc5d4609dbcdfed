//! Capacity sizing for the fixed-capacity index variant.
//!
//! In `FixedPow2` mode the index capacity is the smallest power of two that
//! is at least the number of discovered entries, computed once at generation
//! time. `round_pow_2` performs that computation; its result is pinned to
//! `pow2(clog2(n))`, the mathematical "two to the ceiling of log base two".

use vstd::prelude::*;

verus! {

/// How the generated index is sized: unbounded and growable, or fixed at
/// the smallest power of two that holds every discovered entry.
#[derive(Clone, Copy, Debug, PartialEq, Eq, Structural)]
pub enum CapacityMode {
    Dynamic,
    FixedPow2,
}

/// `2^e` as a mathematical natural.
pub open spec fn pow2(e: nat) -> nat
    decreases e,
{
    if e == 0 {
        1
    } else {
        2 * pow2((e - 1) as nat)
    }
}

/// Whether `n` is a power of two.
pub open spec fn is_pow2(n: nat) -> bool
    decreases n,
{
    if n == 0 {
        false
    } else if n == 1 {
        true
    } else {
        n % 2 == 0 && is_pow2(n / 2)
    }
}

/// The ceiling of the base-two logarithm of `n`, for `n >= 1`:
/// the smallest `e` with `pow2(e) >= n`.
pub open spec fn clog2(n: nat) -> nat
    decreases n,
{
    if n <= 1 {
        0
    } else {
        1 + clog2(((n + 1) / 2) as nat)
    }
}

/// `pow2(clog2(n))` is a power of two and lies in `[n, 2n)`: it is the
/// smallest power of two at least `n`.
pub proof fn lemma_pow2_clog2(n: nat)
    requires
        n >= 1,
    ensures
        is_pow2(pow2(clog2(n))),
        n <= pow2(clog2(n)),
        pow2(clog2(n)) < 2 * n,
    decreases n,
{
    if n <= 1 {
        assert(pow2(0) == 1);
        assert(is_pow2(1));
    } else {
        let m = ((n + 1) / 2) as nat;
        assert(1 <= m < n);
        lemma_pow2_clog2(m);
        let p = pow2(clog2(m));
        assert(pow2(clog2(n)) == 2 * p);
        assert(is_pow2(2 * p)) by {
            assert(2 * p >= 2);
            assert((2 * p) % 2 == 0);
            assert((2 * p) / 2 == p);
        }
        // 2m >= n, so 2p >= 2m >= n.
        assert(2 * m >= n);
        // p < 2m = 2*((n+1)/2) <= n + 1, so p <= n; and p == n is impossible:
        // powers of two above 1 are even, while equality would force p odd or n even,
        // each case contradicting p < 2m with m = (n+1)/2.
        assert(p <= n);
        if p == n {
            if n % 2 == 0 {
                assert(2 * m == n);
                assert(p < n);
            } else {
                assert(2 * m == n + 1);
                assert(p % 2 == 0);
            }
        }
        assert(p < n);
        assert(2 * p < 2 * n);
    }
}

/// Two powers of two in the half-open interval `[a, 2a)` coincide.
pub proof fn lemma_pow2_unique(a: nat, b: nat)
    requires
        is_pow2(a),
        is_pow2(b),
        a <= b,
        b < 2 * a,
    ensures
        a == b,
    decreases a,
{
    if a == 1 {
        assert(b < 2);
    } else {
        assert(a % 2 == 0);
        if b == 1 {
            assert(a <= 1);
        } else {
            assert(b % 2 == 0);
            lemma_pow2_unique(a / 2, b / 2);
        }
    }
}

/// The smallest power of two that is at least `n`, computed with integer
/// doubling only. The bound on `n` keeps the doubling within `usize`.
pub fn round_pow_2(n: usize) -> (r: usize)
    requires
        1 <= n,
        n <= usize::MAX / 2 + 1,
    ensures
        r as nat == pow2(clog2(n as nat)),
        is_pow2(r as nat),
        n <= r,
        r < 2 * n,
{
    let mut p: usize = 1;
    while p < n
        invariant
            1 <= p,
            is_pow2(p as nat),
            p < 2 * n,
            n <= usize::MAX / 2 + 1,
        decreases 2 * n - p,
    {
        assert(p <= usize::MAX / 2);
        p = p * 2;
    }
    proof {
        lemma_pow2_clog2(n as nat);
        let q = pow2(clog2(n as nat));
        if p as nat <= q {
            lemma_pow2_unique(p as nat, q);
        } else {
            lemma_pow2_unique(q, p as nat);
        }
    }
    p
}

} // verus!
