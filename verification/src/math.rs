//! Integer square root: the rasterizer measures pixel-to-center distances in
//! fixed-point units, so it needs the floor of a square root of a `u64`.

use vstd::prelude::*;

verus! {

/// Floor of the square root of `n`.
pub open spec fn sqrt_floor(n: nat) -> nat
    decreases n,
{
    if n == 0 {
        0
    } else {
        let p = sqrt_floor((n - 1) as nat);
        if (p + 1) * (p + 1) <= n {
            p + 1
        } else {
            p
        }
    }
}

/// `sqrt_floor(n)` is the unique natural number whose square is at most `n`
/// while the next square is beyond `n`.
pub proof fn lemma_sqrt_floor_bounds(n: nat)
    ensures
        sqrt_floor(n) * sqrt_floor(n) <= n,
        n < (sqrt_floor(n) + 1) * (sqrt_floor(n) + 1),
    decreases n,
{
    if n == 0 {
        assert(sqrt_floor(n) == 0);
        assert(sqrt_floor(n) * sqrt_floor(n) <= n && n < (sqrt_floor(n) + 1) * (sqrt_floor(n)
            + 1)) by (nonlinear_arith)
            requires
                n == 0,
                sqrt_floor(n) == 0,
        ;
    } else {
        let p = sqrt_floor((n - 1) as nat);
        lemma_sqrt_floor_bounds((n - 1) as nat);
        if (p + 1) * (p + 1) <= n {
            assert(sqrt_floor(n) == p + 1);
            assert(sqrt_floor(n) * sqrt_floor(n) <= n && n < (sqrt_floor(n) + 1) * (sqrt_floor(n)
                + 1)) by (nonlinear_arith)
                requires
                    0 <= p,
                    sqrt_floor(n) == p + 1,
                    (p + 1) * (p + 1) <= n,
                    n - 1 < (p + 1) * (p + 1),
            ;
        } else {
            assert(sqrt_floor(n) == p);
            assert(sqrt_floor(n) * sqrt_floor(n) <= n && n < (sqrt_floor(n) + 1) * (sqrt_floor(n)
                + 1)) by (nonlinear_arith)
                requires
                    0 <= p,
                    sqrt_floor(n) == p,
                    p * p <= n - 1,
                    !((p + 1) * (p + 1) <= n),
            ;
        }
    }
}

/// Any number bracketed by the same pair of squares equals `sqrt_floor(n)`.
pub proof fn lemma_sqrt_floor_unique(n: nat, r: nat)
    requires
        r * r <= n,
        n < (r + 1) * (r + 1),
    ensures
        r == sqrt_floor(n),
{
    let s = sqrt_floor(n);
    lemma_sqrt_floor_bounds(n);
    if r < s {
        assert((r + 1) * (r + 1) <= s * s) by (nonlinear_arith)
            requires
                r + 1 <= s,
        ;
    }
    if s < r {
        assert((s + 1) * (s + 1) <= r * r) by (nonlinear_arith)
            requires
                s + 1 <= r,
        ;
    }
}

/// A number strictly between two squares has its floored square root
/// bracketed by the two roots.
pub proof fn lemma_sqrt_floor_in_band(n: nat, lo: nat, hi: nat)
    requires
        lo * lo < n,
        n <= hi * hi,
    ensures
        lo <= sqrt_floor(n) <= hi,
{
    let s = sqrt_floor(n);
    lemma_sqrt_floor_bounds(n);
    if s < lo {
        assert((s + 1) * (s + 1) <= lo * lo) by (nonlinear_arith)
            requires
                s + 1 <= lo,
        ;
    }
    if hi < s {
        assert((hi + 1) * (hi + 1) <= s * s) by (nonlinear_arith)
            requires
                hi + 1 <= s,
        ;
        assert(hi * hi < (hi + 1) * (hi + 1)) by (nonlinear_arith);
    }
}

/// Decomposition of the flat buffer index `3 * (w * py + px) + ch` back into
/// its channel and pixel coordinates.
pub proof fn lemma_pixel_index_decompose(w: int, px: int, py: int, ch: int)
    requires
        0 < w,
        0 <= px < w,
        0 <= py,
        0 <= ch < 3,
    ensures
        (3 * (w * py + px) + ch) / 3 == w * py + px,
        (3 * (w * py + px) + ch) % 3 == ch,
        (w * py + px) % w == px,
        (w * py + px) / w == py,
{
    let q = w * py + px;
    assert(0 <= w * py + px) by (nonlinear_arith)
        requires
            0 < w,
            0 <= px,
            0 <= py,
    ;
    vstd::arithmetic::div_mod::lemma_fundamental_div_mod_converse(3 * q + ch, 3, q, ch);
    assert(q == py * w + px);
    vstd::arithmetic::div_mod::lemma_fundamental_div_mod_converse(q, w, py, px);
}

/// Every flat buffer index below `3 * w * h` decomposes into a channel and
/// an in-range pixel.
pub proof fn lemma_flat_index_decompose(w: int, h: int, k: int)
    requires
        0 < w,
        0 < h,
        0 <= k < 3 * w * h,
    ensures
        0 <= (k / 3) % w < w,
        0 <= (k / 3) / w < h,
        0 <= k % 3 < 3,
        k == 3 * (w * ((k / 3) / w) + (k / 3) % w) + k % 3,
{
    vstd::arithmetic::div_mod::lemma_fundamental_div_mod(k, 3);
    vstd::arithmetic::div_mod::lemma_mod_bound(k, 3);
    let q = k / 3;
    assert(0 <= q);
    assert(3 * q <= k);
    assert(q < w * h) by (nonlinear_arith)
        requires
            3 * q <= k,
            k < 3 * w * h,
    ;
    vstd::arithmetic::div_mod::lemma_fundamental_div_mod(q, w);
    vstd::arithmetic::div_mod::lemma_mod_bound(q, w);
    let py = q / w;
    let px = q % w;
    assert(0 <= py) by (nonlinear_arith)
        requires
            q == w * py + px,
            0 <= q,
            0 < w,
            0 <= px < w,
    ;
    assert(py < h) by (nonlinear_arith)
        requires
            q == w * py + px,
            q < w * h,
            0 < w,
            0 <= px < w,
    ;
}

/// Floor of the square root, by binary search on the result.
pub fn isqrt(n: u64) -> (r: u64)
    ensures
        r == sqrt_floor(n as nat),
        r * r <= n < (r + 1) * (r + 1),
{
    let mut lo: u64 = 0;
    let mut hi: u64 = 0x1_0000_0000;
    proof {
        assert(n < 0x1_0000_0000 * 0x1_0000_0000);
    }
    while lo + 1 < hi
        invariant
            lo < hi <= 0x1_0000_0000,
            lo * lo <= n,
            n < hi * hi,
        decreases hi - lo,
    {
        let mid: u64 = lo + (hi - lo) / 2;
        proof {
            assert(mid * mid <= 0x1_0000_0000 * 0x1_0000_0000) by (nonlinear_arith)
                requires
                    0 <= mid <= 0x1_0000_0000,
            ;
        }
        let sq: u128 = (mid as u128) * (mid as u128);
        if sq <= n as u128 {
            lo = mid;
        } else {
            hi = mid;
        }
    }
    proof {
        lemma_sqrt_floor_unique(n as nat, lo as nat);
    }
    lo
}

} // verus!
