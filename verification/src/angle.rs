//! Angles in scaled turns.
//!
//! An angle is an `i64` in the same fixed-point scale as every other value:
//! `SCALE` stands for one full revolution, so `HALF_TURN` is 180 degrees.
//! Wrapped angles live in `[-HALF_TURN, HALF_TURN]`.
//!
//! The trigonometric helpers are rational approximations evaluated exactly in
//! integer arithmetic; each executable function returns precisely the value of
//! its spec-level mirror, so callers reason about an exact function.

use vstd::prelude::*;

use crate::fixed::SCALE;

verus! {

/// Half a revolution (180 degrees).
pub const HALF_TURN: i64 = 500_000;

/// A quarter revolution (90 degrees).
pub const QUARTER_TURN: i64 = 250_000;

/// An eighth of a revolution (45 degrees).
pub const EIGHTH_TURN: i64 = 125_000;

/// A wrapped angle: within half a turn of zero in either direction.
pub open spec fn angle_wrapped(u: int) -> bool {
    -HALF_TURN <= u <= HALF_TURN
}

/// Bring a sum or difference of two wrapped angles back into range.
pub open spec fn s_wrap(d: int) -> int {
    if d < -HALF_TURN {
        d + SCALE as int
    } else if d > HALF_TURN {
        d - SCALE as int
    } else {
        d
    }
}

/// Sine of a nonnegative wrapped angle, by a rational approximation that is
/// exact at 0, a quarter turn and a half turn.
pub open spec fn s_sin_half(u: int) -> int {
    ((SCALE as int) * (16 * (u * (HALF_TURN - u)))) / (5 * ((HALF_TURN as int) * (
    HALF_TURN as int)) - 4 * (u * (HALF_TURN - u)))
}

/// Sine of a wrapped angle.
pub open spec fn s_sin(u: int) -> int {
    if u >= 0 {
        s_sin_half(u)
    } else {
        -s_sin_half(-u)
    }
}

/// Cosine of a wrapped angle: the sine shifted by a quarter turn.
pub open spec fn s_cos(u: int) -> int {
    s_sin(s_wrap(u + QUARTER_TURN))
}

/// Arctangent of a ratio `z / SCALE` with `z` in `[0, SCALE]`, in scaled
/// turns: a linear term plus a parabolic correction, exact at 0 and SCALE.
pub open spec fn s_atan_frac(z: int) -> int {
    ((EIGHTH_TURN as int) * z + (43_446 * (z * (SCALE - z))) / (SCALE as int)) / (SCALE as int)
}

/// Angle of the vector `(dx, dy)` measured from the positive y axis, in
/// scaled turns; a vector pointing along positive x has angle minus a
/// quarter turn. The zero vector is assigned angle 0.
pub open spec fn s_angle_of(dx: int, dy: int) -> int {
    let ax = if dx < 0 {
        -dx
    } else {
        dx
    };
    if dx == 0 && dy == 0 {
        0
    } else if dy > 0 && ax <= dy {
        let base = s_atan_frac((ax * (SCALE as int)) / dy);
        if dx <= 0 {
            base
        } else {
            -base
        }
    } else if dy < 0 && ax <= -dy {
        let base = s_atan_frac((ax * (SCALE as int)) / (-dy));
        if dx <= 0 {
            HALF_TURN - base
        } else {
            -(HALF_TURN - base)
        }
    } else {
        let ay = if dy < 0 {
            -dy
        } else {
            dy
        };
        let base = s_atan_frac((ay * (SCALE as int)) / ax);
        if dx < 0 {
            QUARTER_TURN - base
        } else {
            -(QUARTER_TURN - base)
        }
    }
}

/// Wrap a sum or difference of two wrapped angles.
pub fn wrap(d: i64) -> (r: i64)
    requires
        -SCALE <= d <= SCALE,
    ensures
        r == s_wrap(d as int),
        angle_wrapped(r as int),
{
    if d < -HALF_TURN {
        d + SCALE
    } else if d > HALF_TURN {
        d - SCALE
    } else {
        d
    }
}

/// Sine of a wrapped angle, scaled by `SCALE`.
pub fn sin(u: i64) -> (r: i64)
    requires
        angle_wrapped(u as int),
    ensures
        r == s_sin(u as int),
        -SCALE <= r <= SCALE,
{
    if u >= 0 {
        sin_half(u)
    } else {
        -sin_half(-u)
    }
}

/// Cosine of a wrapped angle, scaled by `SCALE`.
pub fn cos(u: i64) -> (r: i64)
    requires
        angle_wrapped(u as int),
    ensures
        r == s_cos(u as int),
        -SCALE <= r <= SCALE,
{
    let shifted = wrap(u + QUARTER_TURN);
    sin(shifted)
}

fn sin_half(u: i64) -> (r: i64)
    requires
        0 <= u <= HALF_TURN,
    ensures
        r == s_sin_half(u as int),
        0 <= r <= SCALE,
{
    proof {
        assert(0 <= (u as int) * (HALF_TURN - u as int) <= (HALF_TURN as int) * (HALF_TURN as int))
            by (nonlinear_arith)
            requires
                0 <= u <= HALF_TURN,
        ;
    }
    let w: i64 = u * (HALF_TURN - u);
    let num: i64 = SCALE * (16 * w);
    let den: i64 = 5 * (HALF_TURN * HALF_TURN) - 4 * w;
    let r: i64 = num / den;
    proof {
        assert(4 * (w as int) <= (HALF_TURN as int) * (HALF_TURN as int)) by (nonlinear_arith)
            requires
                w == (u as int) * (HALF_TURN - u as int),
                0 <= u <= HALF_TURN,
        ;
        assert(num == (SCALE as int) * (16 * (w as int)));
        assert(num <= (SCALE as int) * (den as int)) by (nonlinear_arith)
            requires
                num == (SCALE as int) * (16 * (w as int)),
                den == 5 * ((HALF_TURN as int) * (HALF_TURN as int)) - 4 * (w as int),
                4 * (w as int) <= (HALF_TURN as int) * (HALF_TURN as int),
                w >= 0,
        ;
        assert((num as int) / (den as int) <= SCALE) by (nonlinear_arith)
            requires
                num <= (SCALE as int) * (den as int),
                den > 0,
                num >= 0,
        ;
    }
    r
}

/// Arctangent helper on a ratio scaled into `[0, SCALE]`.
fn atan_frac(z: i64) -> (r: i64)
    requires
        0 <= z <= SCALE,
    ensures
        r == s_atan_frac(z as int),
        0 <= r <= EIGHTH_TURN,
{
    proof {
        assert(0 <= (z as int) * (SCALE - z as int) <= (SCALE as int) * (SCALE as int))
            by (nonlinear_arith)
            requires
                0 <= z <= SCALE,
        ;
    }
    let w: i64 = z * (SCALE - z);
    let c: i64 = (43_446 * w) / SCALE;
    let r: i64 = (EIGHTH_TURN * z + c) / SCALE;
    proof {
        assert(43_446 * (w as int) <= 43_446 * ((SCALE - z as int) * (SCALE as int)))
            by (nonlinear_arith)
            requires
                w == (z as int) * (SCALE - z as int),
                0 <= z <= SCALE,
        ;
        assert(c <= 43_446 * (SCALE - z as int)) by (nonlinear_arith)
            requires
                c == (43_446 * (w as int)) / (SCALE as int),
                43_446 * (w as int) <= 43_446 * ((SCALE - z as int) * (SCALE as int)),
                w >= 0,
        ;
        assert(EIGHTH_TURN * (z as int) + c <= EIGHTH_TURN * (SCALE as int));
        assert((EIGHTH_TURN * (z as int) + c) / (SCALE as int) <= EIGHTH_TURN);
    }
    r
}

/// Angle of the vector `(dx, dy)` from the positive y axis.
pub fn angle_of(dx: i64, dy: i64) -> (r: i64)
    requires
        -SCALE <= dx <= SCALE,
        -SCALE <= dy <= SCALE,
    ensures
        r == s_angle_of(dx as int, dy as int),
        angle_wrapped(r as int),
{
    let ax: i64 = if dx < 0 {
        -dx
    } else {
        dx
    };
    if dx == 0 && dy == 0 {
        0
    } else if dy > 0 && ax <= dy {
        proof {
            assert((ax as int) * (SCALE as int) <= (dy as int) * (SCALE as int))
                by (nonlinear_arith)
                requires
                    0 <= ax <= dy,
        ;
            assert(((ax as int) * (SCALE as int)) / (dy as int) <= SCALE) by (nonlinear_arith)
                requires
                    (ax as int) * (SCALE as int) <= (dy as int) * (SCALE as int),
                    dy > 0,
                    ax >= 0,
            ;
        }
        let base = atan_frac((ax * SCALE) / dy);
        if dx <= 0 {
            base
        } else {
            -base
        }
    } else if dy < 0 && ax <= -dy {
        proof {
            assert((ax as int) * (SCALE as int) <= (-dy as int) * (SCALE as int))
                by (nonlinear_arith)
                requires
                    0 <= ax <= -dy,
        ;
            assert(((ax as int) * (SCALE as int)) / (-dy as int) <= SCALE) by (nonlinear_arith)
                requires
                    (ax as int) * (SCALE as int) <= (-dy as int) * (SCALE as int),
                    -dy > 0,
                    ax >= 0,
            ;
        }
        let base = atan_frac((ax * SCALE) / (-dy));
        if dx <= 0 {
            HALF_TURN - base
        } else {
            -(HALF_TURN - base)
        }
    } else {
        let ay: i64 = if dy < 0 {
            -dy
        } else {
            dy
        };
        proof {
            assert((ay as int) * (SCALE as int) <= (ax as int) * (SCALE as int))
                by (nonlinear_arith)
                requires
                    0 <= ay <= ax,
        ;
            assert(((ay as int) * (SCALE as int)) / (ax as int) <= SCALE) by (nonlinear_arith)
                requires
                    (ay as int) * (SCALE as int) <= (ax as int) * (SCALE as int),
                    ax > 0,
                    ay >= 0,
            ;
        }
        let base = atan_frac((ay * SCALE) / ax);
        if dx < 0 {
            QUARTER_TURN - base
        } else {
            -(QUARTER_TURN - base)
        }
    }
}

} // verus!
