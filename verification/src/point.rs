//! Points on the unit torus.
//!
//! Coordinates are fixed-point values; the world is the square
//! `[0, SCALE) x [0, SCALE)` and positions wrap around its edges.

use vstd::prelude::*;

use crate::fixed::SCALE;

verus! {

/// A 2D point in fixed-point coordinates.
#[derive(Clone, Copy, Debug, PartialEq, Eq, Structural)]
pub struct Point {
    pub x: i64,
    pub y: i64,
}

/// Both coordinates within the closed unit box (a valid vision input).
pub open spec fn in_box(p: Point) -> bool {
    0 <= p.x <= SCALE && 0 <= p.y <= SCALE
}

/// Both coordinates within the half-open unit square (a torus position).
pub open spec fn in_unit(p: Point) -> bool {
    0 <= p.x < SCALE && 0 <= p.y < SCALE
}

/// Wrap a coordinate that moved at most one unit out of the square.
pub open spec fn s_wrap_unit(v: int) -> int {
    if v < 0 {
        v + SCALE as int
    } else if v >= SCALE {
        v - SCALE as int
    } else {
        v
    }
}

/// Squared Euclidean distance (no torus wrap, as in the vision model).
pub open spec fn s_dist2(a: Point, b: Point) -> int {
    (a.x - b.x) * (a.x - b.x) + (a.y - b.y) * (a.y - b.y)
}

/// Wrap a coordinate back into the unit square after a small move.
pub fn wrap_unit(v: i64) -> (r: i64)
    requires
        -SCALE <= v < 2 * SCALE,
    ensures
        r == s_wrap_unit(v as int),
        0 <= r < SCALE,
{
    if v < 0 {
        v + SCALE
    } else if v >= SCALE {
        v - SCALE
    } else {
        v
    }
}

/// Squared distance between two points of the unit box.
pub fn dist2(a: Point, b: Point) -> (r: u64)
    requires
        in_box(a),
        in_box(b),
    ensures
        r == s_dist2(a, b),
        r <= 2_000_000_000_000,
{
    let dx: i64 = a.x - b.x;
    let dy: i64 = a.y - b.y;
    proof {
        assert(0 <= (dx as int) * (dx as int) <= (SCALE as int) * (SCALE as int))
            by (nonlinear_arith)
            requires
                -SCALE <= dx <= SCALE,
        ;
        assert(0 <= (dy as int) * (dy as int) <= (SCALE as int) * (SCALE as int))
            by (nonlinear_arith)
            requires
                -SCALE <= dy <= SCALE,
        ;
    }
    let qx: i64 = dx * dx;
    let qy: i64 = dy * dy;
    (qx + qy) as u64
}

} // verus!
