//! The vision encoder: turns nearby food positions into a fixed-length
//! sensory vector.
//!
//! For each food within the field-of-view radius (strictly inside: a food at
//! exactly the radius is not seen) and within the angular field of view, the
//! eye adds an energy contribution `(range - distance) / range` to the cell
//! covering the food's direction; a fractional index that lands past the last
//! cell is clamped into it.

use vstd::prelude::*;

use crate::angle::{angle_of, angle_wrapped, s_angle_of, s_wrap, wrap};
use crate::fixed::{isqrt, s_isqrt, SCALE, VAL_LIMIT};
use crate::food::Food;
use crate::point::{dist2, in_box, s_dist2, Point};
use vstd::arithmetic::div_mod::{
    lemma_div_is_ordered, lemma_div_multiples_vanish, lemma_fundamental_div_mod,
};
use vstd::arithmetic::mul::lemma_mul_inequality;

verus! {

/// Default field-of-view radius: a quarter of the world.
pub const FOV_RANGE: i64 = 250_000;

/// Default field-of-view angle: an eighth of a turn (45 degrees).
pub const FOV_ANGLE: i64 = 125_000;

/// Default number of photoreceptor cells.
pub const CELLS: usize = 9;

/// A vision encoder configuration.
#[derive(Clone, Copy, Debug, PartialEq, Eq, Structural)]
pub struct Eye {
    pub fov_range: i64,
    pub fov_angle: i64,
    pub cells: usize,
}

/// A configuration the constructor accepts: positive radius, angle and cell
/// count, within the machine bounds the encoder arithmetic needs.
pub open spec fn wf_eye(e: Eye) -> bool {
    0 < e.fov_range <= SCALE && 0 < e.fov_angle <= SCALE && 0 < e.cells <= 10_000
}

/// The default configuration every animal uses.
pub open spec fn default_eye() -> Eye {
    Eye { fov_range: FOV_RANGE, fov_angle: FOV_ANGLE, cells: CELLS }
}

/// The positions of a food list, in order.
pub open spec fn food_points(s: Seq<Food>) -> Seq<Point> {
    Seq::new(s.len(), |i: int| s[i].position)
}

/// Direction of a food relative to the observer's heading, wrapped.
pub open spec fn s_rel_angle(pos: Point, rot: int, food: Point) -> int {
    s_wrap(s_angle_of(food.x - pos.x, food.y - pos.y) - rot)
}

/// Whether the eye sees a food: strictly inside the radius, and within the
/// angular field of view.
pub open spec fn s_sees(eye: Eye, pos: Point, rot: int, food: Point) -> bool {
    &&& s_dist2(pos, food) < eye.fov_range * eye.fov_range
    &&& -(eye.fov_angle / 2) <= s_rel_angle(pos, rot, food) <= eye.fov_angle / 2
}

/// The cell covering a relative angle within the field of view: the angle is
/// shifted to `[0, fov_angle]`, scaled by the cell count, truncated, and
/// clamped into the last valid index.
pub open spec fn s_cell_index(eye: Eye, ang: int) -> int {
    let idx = ((ang + eye.fov_angle / 2) * eye.cells) / (eye.fov_angle as int);
    if idx > eye.cells - 1 {
        eye.cells - 1
    } else {
        idx
    }
}

/// Energy a food at squared distance `d2` contributes: larger for closer
/// food, at most one unit.
pub open spec fn s_energy(eye: Eye, d2: int) -> int {
    ((eye.fov_range - s_isqrt(d2)) * SCALE) / (eye.fov_range as int)
}

/// One food's effect on the sensory vector.
pub open spec fn s_apply_food(eye: Eye, pos: Point, rot: int, v: Seq<int>, food: Point) -> Seq<
    int,
> {
    if s_sees(eye, pos, rot, food) {
        let c = s_cell_index(eye, s_rel_angle(pos, rot, food));
        v.update(c, v[c] + s_energy(eye, s_dist2(pos, food)))
    } else {
        v
    }
}

/// The sensory vector for a list of foods: every food's energy accumulated
/// into the cell covering its direction.
pub open spec fn s_vision(eye: Eye, pos: Point, rot: int, foods: Seq<Point>) -> Seq<int>
    decreases foods.len(),
{
    if foods.len() == 0 {
        Seq::new(eye.cells as nat, |i: int| 0)
    } else {
        s_apply_food(eye, pos, rot, s_vision(eye, pos, rot, foods.drop_last()), foods.last())
    }
}

/// The sensory vector always has one entry per cell.
pub proof fn lemma_vision_len(eye: Eye, pos: Point, rot: int, foods: Seq<Point>)
    requires
        wf_eye(eye),
    ensures
        s_vision(eye, pos, rot, foods).len() == eye.cells,
    decreases foods.len(),
{
    if foods.len() == 0 {
        assert(s_vision(eye, pos, rot, foods) == Seq::new(eye.cells as nat, |i: int| 0int));
    } else {
        lemma_vision_len(eye, pos, rot, foods.drop_last());
        let prev = s_vision(eye, pos, rot, foods.drop_last());
        let f = foods.last();
        if s_sees(eye, pos, rot, f) {
            lemma_cell_index_in_range(eye, s_rel_angle(pos, rot, f));
            let c = s_cell_index(eye, s_rel_angle(pos, rot, f));
            assert(s_vision(eye, pos, rot, foods) == prev.update(
                c,
                prev[c] + s_energy(eye, s_dist2(pos, f)),
            ));
        } else {
            assert(s_vision(eye, pos, rot, foods) == prev);
        }
    }
}

/// A food at or beyond the field-of-view radius is excluded: the radius
/// comparison is strict, so it contributes nothing to any sensory vector.
pub proof fn lemma_food_at_radius_unseen(eye: Eye, pos: Point, rot: int, v: Seq<int>, food: Point)
    requires
        s_dist2(pos, food) >= eye.fov_range * eye.fov_range,
    ensures
        !s_sees(eye, pos, rot, food),
        s_apply_food(eye, pos, rot, v, food) == v,
{
}

/// An angle exactly on the far edge of the field of view scales to a
/// fractional index equal to the cell count itself; the clamp brings it into
/// the last valid cell instead of overflowing. (Stated for an even
/// field-of-view angle, where the integer half-angle is exact.)
pub proof fn lemma_boundary_angle_clamped(eye: Eye)
    requires
        wf_eye(eye),
        eye.fov_angle % 2 == 0,
    ensures
        ((eye.fov_angle / 2 + eye.fov_angle / 2) * eye.cells) / (eye.fov_angle as int)
            == eye.cells,
        s_cell_index(eye, eye.fov_angle / 2) == eye.cells - 1,
{
    let half = eye.fov_angle as int / 2;
    lemma_fundamental_div_mod(eye.fov_angle as int, 2);
    assert(half + half == eye.fov_angle);
    lemma_div_multiples_vanish(eye.cells as int, eye.fov_angle as int);
    assert((eye.fov_angle as int) * (eye.cells as int) == (half + half) * eye.cells)
        by (nonlinear_arith)
        requires
            half + half == eye.fov_angle,
    ;
}

/// An angle within the field of view always lands in a valid cell, even at
/// the far boundary, where the index is clamped into the last cell.
pub proof fn lemma_cell_index_in_range(eye: Eye, ang: int)
    requires
        wf_eye(eye),
        -(eye.fov_angle / 2) <= ang <= eye.fov_angle / 2,
    ensures
        0 <= s_cell_index(eye, ang) < eye.cells,
{
    let half = eye.fov_angle / 2;
    let shifted = ang + half;
    assert(0 <= shifted * eye.cells) by (nonlinear_arith)
        requires
            shifted >= 0,
            eye.cells >= 0,
    ;
    lemma_div_is_ordered(0, shifted * eye.cells, eye.fov_angle as int);
}

impl Eye {
    /// Configure an eye.
    pub fn new(fov_range: i64, fov_angle: i64, cells: usize) -> (r: Eye)
        requires
            0 < fov_range <= SCALE,
            0 < fov_angle <= SCALE,
            0 < cells <= 10_000,
        ensures
            r.fov_range == fov_range,
            r.fov_angle == fov_angle,
            r.cells == cells,
            wf_eye(r),
    {
        Eye { fov_range, fov_angle, cells }
    }

    /// Number of photoreceptor cells, and so the length of the sensory
    /// vector.
    pub fn cells(&self) -> (r: usize)
        ensures
            r == self.cells,
    {
        self.cells
    }

    /// The sensory vector for the observer at `position` heading `rotation`,
    /// given the foods: exactly the spec-level vision model.
    pub fn process_vision(&self, position: Point, rotation: i64, foods: &Vec<Food>) -> (r: Vec<
        i64,
    >)
        requires
            wf_eye(*self),
            in_box(position),
            angle_wrapped(rotation as int),
            foods@.len() <= 1_000_000,
            forall|i: int| 0 <= i < foods@.len() ==> in_box(#[trigger] foods@[i].position),
        ensures
            r@.len() == self.cells,
            forall|i: int|
                0 <= i < r@.len() ==> #[trigger] r@[i] == s_vision(
                    *self,
                    position,
                    rotation as int,
                    food_points(foods@),
                )[i],
            forall|i: int| 0 <= i < r@.len() ==> 0 <= #[trigger] r@[i] <= VAL_LIMIT,
    {
        let cell_count = self.cells;
        let mut out: Vec<i64> = Vec::new();
        while out.len() < cell_count
            invariant
                out@.len() <= cell_count,
                forall|i: int| 0 <= i < out@.len() ==> #[trigger] out@[i] == 0,
            decreases cell_count - out.len(),
        {
            out.push(0);
        }
        let n = foods.len();
        let mut k: usize = 0;
        while k < n
            invariant
                k <= n,
                n == foods@.len() <= 1_000_000,
                wf_eye(*self),
                in_box(position),
                angle_wrapped(rotation as int),
                forall|i: int| 0 <= i < foods@.len() ==> in_box(#[trigger] foods@[i].position),
                out@.len() == self.cells,
                cell_count == self.cells,
                forall|i: int|
                    0 <= i < out@.len() ==> #[trigger] out@[i] == s_vision(
                        *self,
                        position,
                        rotation as int,
                        food_points(foods@).take(k as int),
                    )[i],
                forall|i: int| 0 <= i < out@.len() ==> 0 <= #[trigger] out@[i] <= k * SCALE,
            decreases n - k,
        {
            let ghost prev = out@;
            let ghost pts = food_points(foods@);
            let ghost spec_prev = s_vision(*self, position, rotation as int, pts.take(k as int));
            proof {
                lemma_vision_len(*self, position, rotation as int, pts.take(k as int));
                assert(pts.take(k as int + 1).drop_last() =~= pts.take(k as int));
                assert(pts.take(k as int + 1).last() == foods@[k as int].position);
            }
            let food = foods[k].position;
            let d2 = dist2(position, food);
            proof {
                assert((self.fov_range as int) * (self.fov_range as int) <= (SCALE as int) * (
                SCALE as int)) by (nonlinear_arith)
                    requires
                        0 < self.fov_range <= SCALE,
                ;
            }
            let range2: u64 = (self.fov_range as u64) * (self.fov_range as u64);
            if d2 < range2 {
                let dx = food.x - position.x;
                let dy = food.y - position.y;
                let raw = angle_of(dx, dy);
                let ang = wrap(raw - rotation);
                let half = self.fov_angle / 2;
                if -half <= ang && ang <= half {
                    proof {
                        assert(s_sees(*self, position, rotation as int, food));
                    }
                    let shifted = ang + half;
                    let cells_i: i64 = self.cells as i64;
                    proof {
                        assert(0 <= (shifted as int) * (cells_i as int) <= (SCALE as int) * (
                        10_000 as int)) by (nonlinear_arith)
                            requires
                                0 <= shifted <= SCALE,
                                0 <= cells_i <= 10_000,
                        ;
                    }
                    let idx_raw = (shifted * cells_i) / self.fov_angle;
                    let idx: usize = if idx_raw > cells_i - 1 {
                        cell_count - 1
                    } else {
                        proof {
                            assert(0 <= (shifted as int) * (cells_i as int)) by (nonlinear_arith)
                                requires
                                    shifted >= 0,
                                    cells_i >= 0,
                            ;
                            lemma_div_is_ordered(
                                0,
                                (shifted as int) * (cells_i as int),
                                self.fov_angle as int,
                            );
                        }
                        idx_raw as usize
                    };
                    proof {
                        assert(idx == s_cell_index(
                            *self,
                            s_rel_angle(position, rotation as int, food),
                        ));
                        assert(idx < cell_count);
                    }
                    let dist = isqrt(d2);
                    proof {
                        assert((dist as int) < self.fov_range) by (nonlinear_arith)
                            requires
                                dist * dist <= d2,
                                d2 < (self.fov_range as int) * (self.fov_range as int),
                                dist >= 0,
                                self.fov_range > 0,
                        ;
                        assert((self.fov_range - dist as i64) * SCALE <= (SCALE as int) * (
                        SCALE as int)) by (nonlinear_arith)
                            requires
                                0 < self.fov_range - dist as i64 <= SCALE,
                        ;
                    }
                    let energy = ((self.fov_range - dist as i64) * SCALE) / self.fov_range;
                    proof {
                        let rr = self.fov_range as int;
                        lemma_mul_inequality(rr - dist, rr, SCALE as int);
                        assert((rr - dist) * (SCALE as int) <= rr * (SCALE as int));
                        assert(rr * (SCALE as int) == (SCALE as int) * rr);
                        lemma_div_is_ordered((rr - dist) * (SCALE as int), rr * (SCALE as int),
                            rr);
                        lemma_div_multiples_vanish(SCALE as int, rr);
                        assert((rr * (SCALE as int)) / rr == SCALE);
                        assert(0 <= (rr - dist) * (SCALE as int)) by (nonlinear_arith)
                            requires
                                rr - dist >= 0,
                        ;
                        lemma_div_is_ordered(0, (rr - dist) * (SCALE as int), rr);
                        assert(0 <= energy <= SCALE);
                        assert(energy == s_energy(*self, d2 as int));
                    }
                    let cur = out[idx];
                    proof {
                        assert((k as int) * SCALE + SCALE == (k as int + 1) * SCALE)
                            by (nonlinear_arith);
                        lemma_mul_inequality(k as int + 1, 1_000_000, SCALE as int);
                    }
                    out.set(idx, cur + energy);
                    proof {
                        let spec_next = s_vision(
                            *self,
                            position,
                            rotation as int,
                            pts.take(k as int + 1),
                        );
                        assert(spec_next == s_apply_food(
                            *self,
                            position,
                            rotation as int,
                            spec_prev,
                            food,
                        ));
                        assert(forall|i: int|
                            0 <= i < out@.len() ==> #[trigger] out@[i] == spec_next[i]);
                    }
                } else {
                    proof {
                        assert(!s_sees(*self, position, rotation as int, food));
                        assert(s_vision(*self, position, rotation as int, pts.take(k as int + 1))
                            == spec_prev);
                    }
                }
            } else {
                proof {
                    assert(!s_sees(*self, position, rotation as int, food));
                    assert(s_vision(*self, position, rotation as int, pts.take(k as int + 1))
                        == spec_prev);
                }
            }
            k = k + 1;
        }
        proof {
            assert(food_points(foods@).take(n as int) =~= food_points(foods@));
            lemma_mul_inequality(n as int, 1_000_000, SCALE as int);
        }
        out
    }
}

impl Default for Eye {
    /// The default configuration: radius a quarter of the world, a 45 degree
    /// field of view, nine cells.
    fn default() -> (r: Eye)
        ensures
            r == default_eye(),
            wf_eye(r),
    {
        Eye::new(FOV_RANGE, FOV_ANGLE, CELLS)
    }
}

} // verus!
