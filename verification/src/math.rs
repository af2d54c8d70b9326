//! Fixed-point arithmetic helpers: truncating signed division, rounding to a
//! tick grid, and integer square roots.

use vstd::prelude::*;

verus! {

/// Truncating (round-toward-zero) quotient, the semantics of hardware signed
/// division. Verus's spec-mode `/` is Euclidean, so truncation is written out.
pub open spec fn div_trunc(a: int, b: int) -> int {
    if a >= 0 {
        a / b
    } else {
        -((-a) / b)
    }
}

/// Truncating division of a signed 128-bit value by a positive divisor,
/// carried out on magnitudes so that only unsigned machine division is used.
pub fn div_trunc_i128(a: i128, b: i128) -> (r: i128)
    requires
        b > 0,
        a > i128::MIN,
    ensures
        r == div_trunc(a as int, b as int),
{
    if a >= 0 {
        let q = (a as u128) / (b as u128);
        q as i128
    } else {
        let m = (-a) as u128;
        let q = m / (b as u128);
        assert(q <= m);
        -(q as i128)
    }
}

/// A truncated quotient of a bounded dividend is bounded: when
/// `|a| <= b * m`, the quotient `a / b` (truncated) lies in `[-m, m]`.
pub proof fn lemma_div_trunc_bounded(a: int, b: int, m: int)
    requires
        b > 0,
        0 <= m,
        -(b * m) <= a <= b * m,
    ensures
        -m <= div_trunc(a, b) <= m,
{
    if a >= 0 {
        assert(a / b <= b * m / b) by (nonlinear_arith)
            requires b > 0, a <= b * m
        ;
        assert(b * m / b == m) by (nonlinear_arith)
            requires b > 0
        ;
        assert(a / b >= 0) by (nonlinear_arith)
            requires b > 0, a >= 0
        ;
    } else {
        let c = -a;
        assert(c <= b * m);
        assert(c / b <= b * m / b) by (nonlinear_arith)
            requires b > 0, c <= b * m
        ;
        assert(b * m / b == m) by (nonlinear_arith)
            requires b > 0
        ;
        assert(c / b >= 0) by (nonlinear_arith)
            requires b > 0, c >= 0
        ;
    }
}

/// Floor of the exact square root, defined by counting up.
pub open spec fn sqrt_floor(x: nat) -> nat
    decreases x,
{
    if x == 0 {
        0
    } else {
        let p = sqrt_floor((x - 1) as nat);
        if (p + 1) * (p + 1) <= x {
            p + 1
        } else {
            p
        }
    }
}

/// `sqrt_floor(x)` is the unique `r` with `r * r <= x < (r + 1) * (r + 1)`.
pub proof fn lemma_sqrt_floor_bounds(x: nat)
    ensures
        sqrt_floor(x) * sqrt_floor(x) <= x,
        x < (sqrt_floor(x) + 1) * (sqrt_floor(x) + 1),
    decreases x,
{
    if x > 0 {
        lemma_sqrt_floor_bounds((x - 1) as nat);
        let p = sqrt_floor((x - 1) as nat);
        assert(p * p <= x - 1);
        assert(x - 1 < (p + 1) * (p + 1));
        if (p + 1) * (p + 1) <= x {
            assert(sqrt_floor(x) == p + 1);
            assert(x == (p + 1) * (p + 1));
            assert((p + 1) * (p + 1) < ((p + 1) + 1) * ((p + 1) + 1)) by (nonlinear_arith);
            assert(x < (sqrt_floor(x) + 1) * (sqrt_floor(x) + 1));
        } else {
            assert(sqrt_floor(x) == p);
            assert(x < (p + 1) * (p + 1));
            assert(x < (sqrt_floor(x) + 1) * (sqrt_floor(x) + 1));
        }
    } else {
        assert(x == 0);
        let s = sqrt_floor(x);
        assert(s == 0);
        assert((s + 1) * (s + 1) == 1) by (nonlinear_arith)
            requires s == 0
        ;
        assert(x < (sqrt_floor(x) + 1) * (sqrt_floor(x) + 1));
    }
}

proof fn lemma_sqrt_floor_unique(x: nat, r: nat)
    requires
        r * r <= x,
        x < (r + 1) * (r + 1),
    ensures
        r == sqrt_floor(x),
{
    lemma_sqrt_floor_bounds(x);
    let s = sqrt_floor(x);
    if r < s {
        assert((r + 1) * (r + 1) <= s * s) by (nonlinear_arith)
            requires r + 1 <= s
        ;
    }
    if s < r {
        assert((s + 1) * (s + 1) <= r * r) by (nonlinear_arith)
            requires s + 1 <= r
        ;
    }
}

/// Integer square root by bisection on `[0, 2^64)`.
pub fn isqrt_u128(x: u128) -> (r: u128)
    ensures
        r == sqrt_floor(x as nat),
{
    let mut lo: u128 = 0;
    let mut hi: u128 = 0x1_0000_0000_0000_0000;
    proof {
        assert(hi * hi > x) by (nonlinear_arith)
            requires hi == 0x1_0000_0000_0000_0000u128, x <= u128::MAX
        ;
    }
    while hi - lo > 1
        invariant
            0 <= lo < hi <= 0x1_0000_0000_0000_0000,
            lo * lo <= x as nat,
            (x as nat) < hi * hi,
        decreases hi - lo,
    {
        let mid = lo + (hi - lo) / 2;
        proof {
            assert(mid < hi);
            assert(mid * mid < 0x1_0000_0000_0000_0000 * 0x1_0000_0000_0000_0000) by (nonlinear_arith)
                requires 0 <= mid < 0x1_0000_0000_0000_0000u128
            ;
        }
        let sq = mid * mid;
        if sq <= x {
            lo = mid;
        } else {
            hi = mid;
        }
    }
    proof {
        lemma_sqrt_floor_unique(x as nat, lo as nat);
    }
    lo
}

/// Value rounded to the nearest multiple of `tick`, halves away from zero on
/// the non-negative domain used here.
pub fn round_to_tick_i128(value: i128, tick: i128) -> (r: i128)
    requires
        tick > 0,
        0 <= value <= i128::MAX - tick,
    ensures
        r == tick * ((value + (tick as int) / 2) / (tick as int)),
        r >= 0,
{
    let half = tick / 2;
    let q = ((value + half) as u128) / (tick as u128);
    proof {
        assert(q * tick <= value + half) by (nonlinear_arith)
            requires q == ((value + half) as int) / (tick as int), tick > 0, value + half >= 0
        ;
    }
    (q as i128) * tick
}

} // verus!
