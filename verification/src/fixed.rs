//! Fixed-point scalar arithmetic.
//!
//! Every real-valued quantity of the engine is an `i64` holding a multiple of
//! `1 / SCALE`. Arithmetic saturates at `VAL_LIMIT`, far beyond anything a
//! running simulation produces, so that every operation is total.

use vstd::prelude::*;

verus! {

/// Fixed-point unit: this value stands for 1.0.
pub const SCALE: i64 = 1_000_000;

/// Saturation bound of every stored value (one million units).
pub const VAL_LIMIT: i64 = 1_000_000_000_000;

/// A value the engine may store: within the saturation bound.
pub open spec fn in_range(x: int) -> bool {
    -VAL_LIMIT <= x <= VAL_LIMIT
}

/// Clamp an unbounded result back into the stored range.
pub open spec fn sat(x: int) -> int {
    if x > VAL_LIMIT {
        VAL_LIMIT as int
    } else if x < -VAL_LIMIT {
        -VAL_LIMIT as int
    } else {
        x
    }
}

/// Division truncating toward zero (the spec-level `/` is Euclidean).
pub open spec fn tdiv(n: int, d: int) -> int {
    if n >= 0 {
        n / d
    } else {
        -((-n) / d)
    }
}

/// Clamp into a closed interval.
pub open spec fn spec_clamp(x: int, lo: int, hi: int) -> int {
    if x < lo {
        lo
    } else if x > hi {
        hi
    } else {
        x
    }
}

/// Saturating fixed-point addition.
pub fn sat_add(a: i64, b: i64) -> (r: i64)
    ensures
        r == sat(a + b),
        in_range(r as int),
{
    let s: i128 = a as i128 + b as i128;
    if s > VAL_LIMIT as i128 {
        VAL_LIMIT
    } else if s < -VAL_LIMIT as i128 {
        -VAL_LIMIT
    } else {
        s as i64
    }
}

/// Fixed-point product: `a * b / SCALE`, truncated toward zero, saturated.
pub fn mul_scaled(a: i64, b: i64) -> (r: i64)
    requires
        in_range(a as int),
        in_range(b as int),
    ensures
        r == sat(tdiv((a as int) * (b as int), SCALE as int)),
        in_range(r as int),
{
    let neg: bool = (a < 0) != (b < 0);
    let ua: u64 = if a < 0 { (-a) as u64 } else { a as u64 };
    let ub: u64 = if b < 0 { (-b) as u64 } else { b as u64 };
    proof {
        assert((ua as int) * (ub as int) <= (VAL_LIMIT as int) * (VAL_LIMIT as int))
            by (nonlinear_arith)
            requires
                0 <= ua <= VAL_LIMIT,
                0 <= ub <= VAL_LIMIT,
        ;
    }
    let p: u128 = (ua as u128) * (ub as u128);
    let m: u128 = p / (SCALE as u128);
    proof {
        assert((a as int) * (b as int) == if neg {
            -((ua as int) * (ub as int))
        } else {
            (ua as int) * (ub as int)
        }) by (nonlinear_arith)
            requires
                neg == ((a < 0) != (b < 0)),
                ua == if a < 0 { -(a as int) } else { a as int },
                ub == if b < 0 { -(b as int) } else { b as int },
        ;
        let pi = (a as int) * (b as int);
        if neg {
            if p == 0 {
                assert(pi == 0);
                assert(tdiv(pi, SCALE as int) == 0);
                assert(m == 0);
            } else {
                assert(pi < 0);
                assert(tdiv(pi, SCALE as int) == -(m as int));
            }
        } else {
            assert(pi >= 0);
            assert(tdiv(pi, SCALE as int) == m as int);
        }
    }
    let q: i128 = if neg { -(m as i128) } else { m as i128 };
    proof {
        assert(q == tdiv((a as int) * (b as int), SCALE as int));
    }
    if q > VAL_LIMIT as i128 {
        VAL_LIMIT
    } else if q < -VAL_LIMIT as i128 {
        -VAL_LIMIT
    } else {
        q as i64
    }
}

/// Scaling a bounded value by a fraction of at most one keeps the bound.
pub proof fn lemma_scaled_bound(a: int, b: int, bound: int)
    requires
        0 <= bound <= VAL_LIMIT,
        -bound <= a <= bound,
        -SCALE <= b <= SCALE,
    ensures
        -bound <= sat(tdiv(a * b, SCALE as int)) <= bound,
{
    assert(-(bound * SCALE) <= a * b <= bound * SCALE) by (nonlinear_arith)
        requires
            -bound <= a <= bound,
            -SCALE <= b <= SCALE,
            bound >= 0,
    ;
    let p = a * b;
    if p >= 0 {
        vstd::arithmetic::div_mod::lemma_div_is_ordered(p, bound * SCALE, SCALE as int);
        assert(bound * SCALE == SCALE as int * bound) by (nonlinear_arith);
        vstd::arithmetic::div_mod::lemma_div_multiples_vanish(bound, SCALE as int);
        vstd::arithmetic::div_mod::lemma_div_is_ordered(0, p, SCALE as int);
    } else {
        vstd::arithmetic::div_mod::lemma_div_is_ordered(-p, bound * SCALE, SCALE as int);
        assert(bound * SCALE == SCALE as int * bound) by (nonlinear_arith);
        vstd::arithmetic::div_mod::lemma_div_multiples_vanish(bound, SCALE as int);
        vstd::arithmetic::div_mod::lemma_div_is_ordered(0, -p, SCALE as int);
    }
}

/// Clamp a value into `[lo, hi]`.
pub fn clamp_val(x: i64, lo: i64, hi: i64) -> (r: i64)
    requires
        lo <= hi,
    ensures
        r == spec_clamp(x as int, lo as int, hi as int),
{
    if x < lo {
        lo
    } else if x > hi {
        hi
    } else {
        x
    }
}

/// Floor of the real square root, at spec level.
pub open spec fn s_isqrt(x: int) -> int
    decreases x,
{
    if x < 1 {
        0
    } else {
        let r = s_isqrt(x - 1);
        if (r + 1) * (r + 1) <= x {
            r + 1
        } else {
            r
        }
    }
}

/// The spec-level square root is the unique value whose square brackets `x`.
pub proof fn lemma_isqrt_bracket(x: int)
    requires
        x >= 0,
    ensures
        s_isqrt(x) >= 0,
        s_isqrt(x) * s_isqrt(x) <= x < (s_isqrt(x) + 1) * (s_isqrt(x) + 1),
    decreases x,
{
    if x >= 1 {
        lemma_isqrt_bracket(x - 1);
        let r = s_isqrt(x - 1);
        if (r + 1) * (r + 1) <= x {
            assert(x < (r + 2) * (r + 2)) by (nonlinear_arith)
                requires
                    x - 1 < (r + 1) * (r + 1),
                    r >= 0,
            ;
        }
    }
}

/// Integer square root: the floor of the real square root.
pub fn isqrt(x: u64) -> (r: u64)
    requires
        x <= 4_000_000_000_000,
    ensures
        r * r <= x < (r + 1) * (r + 1),
        r <= 2_000_000,
        r == s_isqrt(x as int),
{
    let mut lo: u64 = 0;
    let mut hi: u64 = 2_000_001;
    proof {
        assert((2_000_001 as int) * (2_000_001 as int) > 4_000_000_000_000) by (nonlinear_arith);
    }
    while lo + 1 < hi
        invariant
            lo < hi <= 2_000_001,
            lo * lo <= x,
            x < hi * hi,
        decreases hi - lo,
    {
        let mid: u64 = lo + (hi - lo) / 2;
        proof {
            assert((mid as int) * (mid as int) <= (2_000_001 as int) * (2_000_001 as int))
                by (nonlinear_arith)
                requires
                    0 <= mid <= 2_000_001,
            ;
        }
        if mid * mid <= x {
            lo = mid;
        } else {
            hi = mid;
        }
    }
    proof {
        lemma_isqrt_bracket(x as int);
        let s = s_isqrt(x as int);
        assert(lo == s) by (nonlinear_arith)
            requires
                lo * lo <= x < (lo + 1) * (lo + 1),
                s * s <= x < (s + 1) * (s + 1),
                lo >= 0,
                s >= 0,
        ;
    }
    lo
}

} // verus!
