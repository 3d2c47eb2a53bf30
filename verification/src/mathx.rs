//! Integer helpers shared by the whole pipeline: toroidal coordinate
//! wrapping and the floor of a square root.

use vstd::prelude::*;

verus! {

use vstd::arithmetic::div_mod::{
    lemma_mod_multiples_vanish, lemma_mod_bound, lemma_small_mod,
};

/// Largest coordinate magnitude the wrapping helpers accept.  Keeping the
/// inputs well inside `i64` lets every intermediate sum stay exact.
pub const COORD_LIMIT: i64 = 0x100_0000_0000;

/// Largest world extent the wrapping helpers accept.
pub const WORLD_LIMIT: i64 = 0x10_0000;

/// Largest coordinate magnitude the public API accepts; the headroom up to
/// `COORD_LIMIT` absorbs intermediate offsets of up to a world extent.
pub const POINT_LIMIT: i64 = 0x80_0000_0000;

/// The canonical representative of `p` modulo `w`, shifted into the
/// half-open window `[-w/2, w/2)`.
pub open spec fn wrap_spec(p: int, w: int) -> int {
    (p + w / 2) % w - w / 2
}

/// A world extent the wrapping helpers work with: positive, even, and small
/// enough that shifted coordinates cannot overflow.
pub open spec fn valid_world(w: int) -> bool {
    2 <= w <= WORLD_LIMIT && w % 2 == 0
}

/// The wrapped coordinate lies in `[-w/2, w/2)`, wrapping is idempotent,
/// and the result differs from the input by a multiple of `w`.
pub proof fn lemma_wrap_properties(p: int, w: int)
    requires
        valid_world(w),
    ensures
        -(w / 2) <= wrap_spec(p, w) < w / 2,
        wrap_spec(wrap_spec(p, w), w) == wrap_spec(p, w),
        (wrap_spec(p, w) - p) % w == 0,
{
    let h = w / 2;
    lemma_mod_bound(p + h, w);
    let m = (p + h) % w;
    assert(wrap_spec(p, w) == m - h);
    // Idempotence: a value already in the window is its own representative.
    lemma_small_mod(m as nat, w as nat);
    // Congruence: the representative and the input share a residue class.
    let q = (p + h) / w;
    vstd::arithmetic::div_mod::lemma_fundamental_div_mod(p + h, w);
    assert(p + h == w * q + m);
    assert(w * (-q) == -(w * q)) by (nonlinear_arith);
    assert(wrap_spec(p, w) - p == w * (-q));
    lemma_mod_multiples_vanish(-q, 0, w);
    lemma_small_mod(0, w as nat);
}

/// Wraps a world coordinate into `[-w/2, w/2)` on one axis.
pub fn wrap_coord(p: i64, w: i64) -> (r: i64)
    requires
        valid_world(w as int),
        -COORD_LIMIT <= p <= COORD_LIMIT,
    ensures
        r == wrap_spec(p as int, w as int),
        -(w / 2) <= r < w / 2,
{
    proof {
        lemma_wrap_properties(p as int, w as int);
    }
    let half = w / 2;
    // Shift the coordinate to a non-negative value in the same residue
    // class, so that the machine remainder agrees with Euclidean remainder.
    let k = COORD_LIMIT / w;
    proof {
        vstd::arithmetic::div_mod::lemma_fundamental_div_mod(COORD_LIMIT as int, w as int);
        lemma_mod_bound(COORD_LIMIT as int, w as int);
        assert(w as int * (k as int) <= COORD_LIMIT as int);
        assert(COORD_LIMIT as int - w < w as int * (k as int));
        assert(0 <= k as int && k as int <= w as int * (k as int)) by (nonlinear_arith)
            requires
                2 <= w,
                0 < w as int * (k as int),
        ;
    }
    let lift = k * w + w;
    let shifted = p + lift + half;
    let m = (shifted as u64) % (w as u64);
    proof {
        assert(w as int * (k as int + 1) == w as int * (k as int) + w as int) by (nonlinear_arith);
        assert(shifted as int == w as int * (k as int + 1) + (p as int + half as int));
        lemma_mod_multiples_vanish(k as int + 1, p + half, w as int);
        lemma_mod_bound(p + half, w as int);
    }
    (m as i64) - half
}

/// The floor of the square root, defined by counting up; the bracket lemma
/// below gives the usual characterization.
pub open spec fn sqrt_floor(n: nat) -> nat
    decreases n,
{
    if n == 0 {
        0
    } else {
        let r = sqrt_floor((n - 1) as nat);
        if (r + 1) * (r + 1) <= n {
            r + 1
        } else {
            r
        }
    }
}

/// `sqrt_floor(n)` is the unique `r` with `r * r <= n < (r + 1) * (r + 1)`.
pub proof fn lemma_sqrt_floor_bracket(n: nat)
    ensures
        sqrt_floor(n) * sqrt_floor(n) <= n,
        n < (sqrt_floor(n) + 1) * (sqrt_floor(n) + 1),
    decreases n,
{
    if n == 0 {
        assert(sqrt_floor(0) == 0);
        assert(n < (sqrt_floor(n) + 1) * (sqrt_floor(n) + 1)) by (nonlinear_arith)
            requires
                n == 0,
                sqrt_floor(n) == 0,
        ;
    } else {
        lemma_sqrt_floor_bracket((n - 1) as nat);
        let r = sqrt_floor((n - 1) as nat);
        if (r + 1) * (r + 1) <= n {
            assert(sqrt_floor(n) == r + 1);
            assert(n <= (r + 1) * (r + 1)) by {
                assert(n - 1 < (r + 1) * (r + 1));
            }
            assert((r + 1) * (r + 1) < (r + 2) * (r + 2)) by (nonlinear_arith);
            assert(sqrt_floor(n) * sqrt_floor(n) <= n);
            assert(n < (sqrt_floor(n) + 1) * (sqrt_floor(n) + 1));
        } else {
            assert(sqrt_floor(n) == r);
            assert(sqrt_floor(n) * sqrt_floor(n) <= n);
            assert(n < (sqrt_floor(n) + 1) * (sqrt_floor(n) + 1));
        }
    }
}

/// Any value with the bracket property is the floor square root.
pub proof fn lemma_sqrt_floor_unique(n: nat, r: nat)
    requires
        r * r <= n,
        n < (r + 1) * (r + 1),
    ensures
        r == sqrt_floor(n),
{
    let s = sqrt_floor(n);
    lemma_sqrt_floor_bracket(n);
    assert(r == s) by (nonlinear_arith)
        requires
            r * r <= n < (r + 1) * (r + 1),
            s * s <= n < (s + 1) * (s + 1),
    ;
}

/// The floor square root is monotone.
pub proof fn lemma_sqrt_floor_monotone(a: nat, b: nat)
    requires
        a <= b,
    ensures
        sqrt_floor(a) <= sqrt_floor(b),
    decreases b,
{
    if a < b {
        lemma_sqrt_floor_monotone(a, (b - 1) as nat);
    }
}

/// Computes the floor of the square root by binary search.
pub fn isqrt(n: u64) -> (r: u64)
    requires
        n < 0x4000_0000_0000_0000,
    ensures
        r == sqrt_floor(n as nat),
        r * r <= n,
        n < (r + 1) * (r + 1),
        r < 0x8000_0000,
{
    let mut lo: u64 = 0;
    let mut hi: u64 = 0x8000_0000;
    while lo + 1 < hi
        invariant
            lo < hi <= 0x8000_0000,
            lo * lo <= n,
            n < hi * hi,
        decreases hi - lo,
    {
        let mid = lo + (hi - lo) / 2;
        assert(mid * mid <= 0x8000_0000u64 * 0x8000_0000u64) by (nonlinear_arith)
            requires
                0 <= mid <= 0x8000_0000u64,
        ;
        if mid * mid <= n {
            lo = mid;
        } else {
            hi = mid;
        }
    }
    proof {
        lemma_sqrt_floor_unique(n as nat, lo as nat);
    }
    lo
}

/// Clamps `v` into `[lo, hi]`.
pub fn clamp64(v: i64, lo: i64, hi: i64) -> (r: i64)
    requires
        lo <= hi,
    ensures
        r == clamp_spec(v as int, lo as int, hi as int),
{
    if v < lo {
        lo
    } else if v > hi {
        hi
    } else {
        v
    }
}

/// The value of `v` pulled into `[lo, hi]`.
pub open spec fn clamp_spec(v: int, lo: int, hi: int) -> int {
    if v < lo {
        lo
    } else if v > hi {
        hi
    } else {
        v
    }
}

} // verus!
