//! Lane-width and chunk-count resolvers.
//!
//! The lane width `W(d)` is the SIMD register width used for a vector of
//! dimension `d`: the smallest power of two at least `d`, capped at 64.
//! The chunk count `K(d)` is how many registers of that width cover `d`
//! elements.  Both are pure functions of the dimension alone.

use vstd::prelude::*;

verus! {

/// Whether `n` is a power of two.
pub open spec fn is_pow2(n: int) -> bool
    decreases n,
{
    if n <= 0 {
        false
    } else if n == 1 {
        true
    } else {
        n % 2 == 0 && is_pow2(n / 2)
    }
}

/// The smallest power of two that is at least `d`, for `d >= 1`.
pub open spec fn pow2_at_least(d: int) -> int
    decreases d,
{
    if d <= 1 {
        1
    } else {
        2 * pow2_at_least((d + 1) / 2)
    }
}

/// Lane width `W(d)`: 1 for the empty dimension, 64 for any dimension at
/// least 64, and otherwise the smallest power of two at least `d`.
pub open spec fn lane_width(d: int) -> int {
    if d <= 0 {
        1
    } else if d >= 64 {
        64
    } else {
        pow2_at_least(d)
    }
}

/// Chunk count `K(d)`: how many registers of width `lane_width(d)` are
/// needed to cover `d` elements, `ceil(d / W(d))`.  There is always at
/// least one register: the empty dimension degenerates to a single
/// all-pad register of width one.
pub open spec fn chunk_count(d: int) -> int {
    if d <= 0 {
        1
    } else {
        (d + lane_width(d) - 1) / lane_width(d)
    }
}

/// Total number of lanes in the packed representation of a vector of
/// dimension `d`: `K(d) * W(d)`.
pub open spec fn padded_len(d: int) -> int {
    chunk_count(d) * lane_width(d)
}

/// `pow2_at_least(d)` really is a power of two, is at least `d`, and is
/// the least such power: it stays below `2 * d`.
pub proof fn lemma_pow2_at_least(d: int)
    requires
        1 <= d,
    ensures
        is_pow2(pow2_at_least(d)),
        d <= pow2_at_least(d),
        pow2_at_least(d) < 2 * d,
    decreases d,
{
    if d == 1 {
        assert(is_pow2(1));
    } else if d == 2 {
        assert(pow2_at_least(2) == 2 * pow2_at_least(1));
        assert(is_pow2(1));
        assert(is_pow2(2));
    } else {
        let h = (d + 1) / 2;
        assert(2 <= h < d);
        lemma_pow2_at_least(h);
        let p = pow2_at_least(h);
        assert(is_pow2(2 * p));
        // `p` is a power of two larger than 1, hence even, so `p < 2 * h`
        // tightens to `p <= 2 * h - 2`, which gives `2 * p < 2 * d`.
        assert(p > 1);
        assert(p % 2 == 0);
        assert(p <= 2 * h - 2);
        assert(2 * h <= d + 1);
        assert(2 * p <= 2 * d - 2);
    }
}

/// Distinct powers of two differ by at least a factor of two.
pub proof fn lemma_pow2_gap(p: int, q: int)
    requires
        is_pow2(p),
        is_pow2(q),
        p < q,
    ensures
        2 * p <= q,
    decreases p,
{
    if p == 1 {
        assert(q % 2 == 0);
    } else {
        assert(p % 2 == 0);
        assert(q % 2 == 0);
        lemma_pow2_gap(p / 2, q / 2);
    }
}

/// There is exactly one power of two in the half-open window `[d, 2*d)`,
/// namely `pow2_at_least(d)`.
pub proof fn lemma_pow2_window_unique(d: int, p: int)
    requires
        1 <= d,
        is_pow2(p),
        d <= p < 2 * d,
    ensures
        p == pow2_at_least(d),
{
    lemma_pow2_at_least(d);
    let q = pow2_at_least(d);
    if p < q {
        lemma_pow2_gap(p, q);
        assert(2 * d <= 2 * p);
    } else if q < p {
        lemma_pow2_gap(q, p);
        assert(2 * d <= 2 * q);
    }
}

/// The lane width is a power of two between 1 and 64.
pub proof fn lemma_lane_width_bounds(d: int)
    ensures
        is_pow2(lane_width(d)),
        1 <= lane_width(d) <= 64,
{
    assert(is_pow2(1));
    assert(is_pow2(2));
    assert(is_pow2(4));
    assert(is_pow2(8));
    assert(is_pow2(16));
    assert(is_pow2(32));
    assert(is_pow2(64));
    if 0 < d < 64 {
        lemma_pow2_at_least(d);
        let p = pow2_at_least(d);
        if p > 64 {
            lemma_pow2_gap(64, p);
            assert(p >= 128);
            assert(p < 2 * d);
        }
    }
}

/// Lane width for dimension `N`, resolved at run time from the const
/// parameter: 1 for `N == 0`, 64 for `N >= 64`, otherwise the smallest
/// power of two at least `N`.
pub fn mpow2<const N: usize>() -> (w: usize)
    ensures
        w == lane_width(N as int),
{
    if N == 0 {
        1
    } else if N >= 64 {
        64
    } else {
        let mut w: usize = 1;
        while w < N
            invariant
                1 <= w,
                1 <= N < 64,
                is_pow2(w as int),
                w < 2 * N,
            decreases 2 * N - w,
        {
            assert(is_pow2(2 * (w as int)));
            w = w * 2;
        }
        proof {
            lemma_pow2_window_unique(N as int, w as int);
        }
        w
    }
}

/// Chunk count for dimension `N`: how many registers of width
/// `mpow2::<N>()` cover `N` elements.
pub fn len<const N: usize>() -> (k: usize)
    ensures
        k == chunk_count(N as int),
{
    let w = mpow2::<N>();
    proof {
        lemma_lane_width_bounds(N as int);
    }
    if N == 0 {
        1
    } else {
        proof {
            vstd::arithmetic::div_mod::lemma_div_plus_one(N as int - 1, w as int);
        }
        1 + (N - 1) / w
    }
}

} // verus!
