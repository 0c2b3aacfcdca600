use vstd::prelude::*;

use crate::geometry::{
    all_fit, all_fit_wide, direction, fits_i32, half_height, half_width, narrow, points_view,
    row_pitch, slant_x, wide_view, Point,
};
use crate::reflection::mirror_spec;

verus! {

/// The number of points in a grid: the focal point and three rings.
pub const GRID_LEN: usize = 37;

/// The ring that grid index `i` belongs to (1 for 1..=6, 2 for 7..=18, 3 beyond).
pub open spec fn ring_of(i: int) -> int {
    if i <= 6 {
        1
    } else if i <= 18 {
        2
    } else {
        3
    }
}

/// The index of the first point of ring `k`; for `k == 4`, the grid's length.
pub open spec fn ring_start(k: int) -> int {
    if k <= 1 {
        1
    } else if k == 2 {
        7
    } else if k == 3 {
        19
    } else {
        37
    }
}

/// Grid point `i` for the focal point `(cx, cy)`.
///
/// Point 0 is the focal point. Ring `k` holds `6 * k` points, each built from
/// the one before it with a step from the direction table. Its first point, the
/// anchor, is one diagonal step out: the focal point plus direction 0 for the
/// inner ring, the first point of the ring before it plus direction 5 for the
/// others. From the anchor the ring walks directions 1, 2, 3, 4, 5 and 0, each
/// `k` times, leaving out the last step, which would close the ring on its
/// anchor. Every ring thus lies at hexagon distance `k` from the focal point.
///
/// A walk that started each ring at the focal point itself, taking
/// directions 0 to 5 in turn (which puts point 2 one step right of point 1),
/// would bring point 6 back onto point 0 and leave the rings off centre; the
/// concentric rings are what this layout keeps.
pub open spec fn grid_point(cx: int, cy: int, radius: int, i: int) -> (int, int)
    decreases i,
{
    if i <= 0 {
        (cx, cy)
    } else {
        let k = ring_of(i);
        let j = i - ring_start(k);
        if j == 0 {
            if k == 1 {
                let step = direction(0, radius);
                (cx + step.0, cy + step.1)
            } else {
                let first = grid_point(cx, cy, radius, ring_start(k - 1));
                let out = direction(5, radius);
                (first.0 + out.0, first.1 + out.1)
            }
        } else {
            let from = grid_point(cx, cy, radius, i - 1);
            let step = direction((j / k + 1) % 6, radius);
            (from.0 + step.0, from.1 + step.1)
        }
    }
}

/// The grid for the focal point `(cx, cy)`: its 37 points in order.
pub open spec fn grid_spec(cx: int, cy: int, radius: int) -> Seq<(int, int)> {
    Seq::new(37, |i: int| grid_point(cx, cy, radius, i))
}

/// The offset of grid point `i` from the focal point, in units of the
/// horizontal half-width `c` and the row pitch `h`: point `i` lies at
/// `(cx + a * c, cy + b * h)` for `(a, b) == hex_offset(i)`.
pub open spec fn hex_offset(i: int) -> (int, int) {
    if i == 0 {
        (0, 0)
    } else if i == 1 {
        (1, -1)
    } else if i == 2 {
        (2, 0)
    } else if i == 3 {
        (1, 1)
    } else if i == 4 {
        (-1, 1)
    } else if i == 5 {
        (-2, 0)
    } else if i == 6 {
        (-1, -1)
    } else if i == 7 {
        (0, -2)
    } else if i == 8 {
        (2, -2)
    } else if i == 9 {
        (3, -1)
    } else if i == 10 {
        (4, 0)
    } else if i == 11 {
        (3, 1)
    } else if i == 12 {
        (2, 2)
    } else if i == 13 {
        (0, 2)
    } else if i == 14 {
        (-2, 2)
    } else if i == 15 {
        (-3, 1)
    } else if i == 16 {
        (-4, 0)
    } else if i == 17 {
        (-3, -1)
    } else if i == 18 {
        (-2, -2)
    } else if i == 19 {
        (-1, -3)
    } else if i == 20 {
        (1, -3)
    } else if i == 21 {
        (3, -3)
    } else if i == 22 {
        (4, -2)
    } else if i == 23 {
        (5, -1)
    } else if i == 24 {
        (6, 0)
    } else if i == 25 {
        (5, 1)
    } else if i == 26 {
        (4, 2)
    } else if i == 27 {
        (3, 3)
    } else if i == 28 {
        (1, 3)
    } else if i == 29 {
        (-1, 3)
    } else if i == 30 {
        (-3, 3)
    } else if i == 31 {
        (-4, 2)
    } else if i == 32 {
        (-5, 1)
    } else if i == 33 {
        (-6, 0)
    } else if i == 34 {
        (-5, -1)
    } else if i == 35 {
        (-4, -2)
    } else {
        (-3, -3)
    }
}

/// Every grid point lies at its table offset from the focal point, so ring
/// `k` is the ring of hexagon positions at hexagon distance `k`.
pub proof fn lemma_grid_offsets(cx: int, cy: int, radius: int)
    ensures
        forall|i: int|
            0 <= i < 37 ==> #[trigger] grid_point(cx, cy, radius, i) == (
                cx + hex_offset(i).0 * slant_x(radius),
                cy + hex_offset(i).1 * row_pitch(radius),
            ),
{
    let c = slant_x(radius);
    let h = row_pitch(radius);
    assert(grid_point(cx, cy, radius, 0) == (cx + 0 * c, cy + 0 * h));
    assert(grid_point(cx, cy, radius, 1) == (cx + 1 * c, cy + -1 * h));
    assert(grid_point(cx, cy, radius, 2) == (cx + 2 * c, cy + 0 * h));
    assert(grid_point(cx, cy, radius, 3) == (cx + 1 * c, cy + 1 * h));
    assert(grid_point(cx, cy, radius, 4) == (cx + -1 * c, cy + 1 * h));
    assert(grid_point(cx, cy, radius, 5) == (cx + -2 * c, cy + 0 * h));
    assert(grid_point(cx, cy, radius, 6) == (cx + -1 * c, cy + -1 * h));
    assert(grid_point(cx, cy, radius, 7) == (cx + 0 * c, cy + -2 * h));
    assert(grid_point(cx, cy, radius, 8) == (cx + 2 * c, cy + -2 * h));
    assert(grid_point(cx, cy, radius, 9) == (cx + 3 * c, cy + -1 * h));
    assert(grid_point(cx, cy, radius, 10) == (cx + 4 * c, cy + 0 * h));
    assert(grid_point(cx, cy, radius, 11) == (cx + 3 * c, cy + 1 * h));
    assert(grid_point(cx, cy, radius, 12) == (cx + 2 * c, cy + 2 * h));
    assert(grid_point(cx, cy, radius, 13) == (cx + 0 * c, cy + 2 * h));
    assert(grid_point(cx, cy, radius, 14) == (cx + -2 * c, cy + 2 * h));
    assert(grid_point(cx, cy, radius, 15) == (cx + -3 * c, cy + 1 * h));
    assert(grid_point(cx, cy, radius, 16) == (cx + -4 * c, cy + 0 * h));
    assert(grid_point(cx, cy, radius, 17) == (cx + -3 * c, cy + -1 * h));
    assert(grid_point(cx, cy, radius, 18) == (cx + -2 * c, cy + -2 * h));
    assert(grid_point(cx, cy, radius, 19) == (cx + -1 * c, cy + -3 * h));
    assert(grid_point(cx, cy, radius, 20) == (cx + 1 * c, cy + -3 * h));
    assert(grid_point(cx, cy, radius, 21) == (cx + 3 * c, cy + -3 * h));
    assert(grid_point(cx, cy, radius, 22) == (cx + 4 * c, cy + -2 * h));
    assert(grid_point(cx, cy, radius, 23) == (cx + 5 * c, cy + -1 * h));
    assert(grid_point(cx, cy, radius, 24) == (cx + 6 * c, cy + 0 * h));
    assert(grid_point(cx, cy, radius, 25) == (cx + 5 * c, cy + 1 * h));
    assert(grid_point(cx, cy, radius, 26) == (cx + 4 * c, cy + 2 * h));
    assert(grid_point(cx, cy, radius, 27) == (cx + 3 * c, cy + 3 * h));
    assert(grid_point(cx, cy, radius, 28) == (cx + 1 * c, cy + 3 * h));
    assert(grid_point(cx, cy, radius, 29) == (cx + -1 * c, cy + 3 * h));
    assert(grid_point(cx, cy, radius, 30) == (cx + -3 * c, cy + 3 * h));
    assert(grid_point(cx, cy, radius, 31) == (cx + -4 * c, cy + 2 * h));
    assert(grid_point(cx, cy, radius, 32) == (cx + -5 * c, cy + 1 * h));
    assert(grid_point(cx, cy, radius, 33) == (cx + -6 * c, cy + 0 * h));
    assert(grid_point(cx, cy, radius, 34) == (cx + -5 * c, cy + -1 * h));
    assert(grid_point(cx, cy, radius, 35) == (cx + -4 * c, cy + -2 * h));
    assert(grid_point(cx, cy, radius, 36) == (cx + -3 * c, cy + -3 * h));
    assert forall|i: int| 0 <= i < 37 implies #[trigger] grid_point(cx, cy, radius, i) == (
        cx + hex_offset(i).0 * c,
        cy + hex_offset(i).1 * h,
    ) by {}
}

/// The grid fits in `i32` coordinates whenever the focal point lies six
/// radii inside the range horizontally and five radii vertically.
pub proof fn lemma_grid_fits(cx: int, cy: int, radius: int)
    requires
        0 < radius,
        -i32::MAX <= cx - 6 * radius,
        cx + 6 * radius <= i32::MAX,
        -i32::MAX <= cy - 5 * radius,
        cy + 5 * radius <= i32::MAX,
    ensures
        all_fit(grid_spec(cx, cy, radius)),
{
    lemma_grid_offsets(cx, cy, radius);
    let c = slant_x(radius);
    let h = row_pitch(radius);
    let g = grid_spec(cx, cy, radius);
    assert(0 <= c <= radius);
    assert(0 <= h <= 3 * radius / 2);
    assert forall|i: int| 0 <= i < g.len() implies fits_i32((#[trigger] g[i]).0) && fits_i32(
        g[i].1,
    ) by {
        let (a, b) = hex_offset(i);
        assert(-6 <= a <= 6 && -3 <= b <= 3);
        assert(-6 * c <= a * c <= 6 * c) by (nonlinear_arith)
            requires
                -6 <= a <= 6,
                0 <= c,
        ;
        assert(-3 * h <= b * h <= 3 * h) by (nonlinear_arith)
            requires
                -3 <= b <= 3,
                0 <= h,
        ;
        assert(g[i] == grid_point(cx, cy, radius, i));
    }
}

/// Moving the focal point moves every grid point by the same amount.
pub proof fn lemma_grid_translation(cx: int, cy: int, dx: int, dy: int, radius: int)
    ensures
        forall|i: int|
            0 <= i < 37 ==> #[trigger] grid_spec(cx + dx, cy + dy, radius)[i] == (
                grid_spec(cx, cy, radius)[i].0 + dx,
                grid_spec(cx, cy, radius)[i].1 + dy,
            ),
{
    lemma_grid_offsets(cx, cy, radius);
    lemma_grid_offsets(cx + dx, cy + dy, radius);
}

/// The squared distance between hexagon centres one step apart.
pub open spec fn pitch_sq(radius: int) -> int {
    slant_x(radius) * slant_x(radius) + row_pitch(radius) * row_pitch(radius)
}

/// The squared distance of grid point `i` from the focal point.
pub open spec fn focal_dist_sq(cx: int, cy: int, radius: int, i: int) -> int {
    let p = grid_point(cx, cy, radius, i);
    (p.0 - cx) * (p.0 - cx) + (p.1 - cy) * (p.1 - cy)
}

/// Ring `k` lies about `k` pitches from the focal point: for a radius of at
/// least 16 the distance of each of its points is between `0.8 * k` and
/// `1.02 * k` pitches (the bounds squared, times 25).
pub proof fn lemma_ring_distance(cx: int, cy: int, radius: int)
    requires
        16 <= radius,
    ensures
        forall|i: int|
            1 <= i < 37 ==> 16 * ring_of(i) * ring_of(i) * pitch_sq(radius) <= 25
                * #[trigger] focal_dist_sq(cx, cy, radius, i) <= 26 * ring_of(i) * ring_of(i)
                * pitch_sq(radius),
{
    lemma_grid_offsets(cx, cy, radius);
    let c = slant_x(radius);
    let h = row_pitch(radius);
    let cc = c * c;
    let hh = h * h;
    assert(0 <= 54 * h <= 100 * c <= 59 * h);
    assert(2916 * hh <= 10000 * cc <= 3481 * hh) by (nonlinear_arith)
        requires
            0 <= 54 * h <= 100 * c <= 59 * h,
            cc == c * c,
            hh == h * h,
    ;
    assert forall|i: int|
        1 <= i < 37 implies 16 * ring_of(i) * ring_of(i) * pitch_sq(radius) <= 25
            * #[trigger] focal_dist_sq(cx, cy, radius, i) <= 26 * ring_of(i) * ring_of(i)
            * pitch_sq(radius) by {
        let p = grid_point(cx, cy, radius, i);
        let dx = p.0 - cx;
        let dy = p.1 - cy;
        assert(pitch_sq(radius) == cc + hh);
        if i == 1 {
            assert(dx == 1 * c && dy == -1 * h);
            assert(dx * dx + dy * dy == 1 * cc + 1 * hh) by (nonlinear_arith)
                requires
                    dx == 1 * c,
                    dy == -1 * h,
                    cc == c * c,
                    hh == h * h,
            ;
            assert(ring_of(i) == 1);
            assert(16 * (cc + hh) <= 25 * (1 * cc + 1 * hh) <= 26 * (cc + hh));
        } else if i == 2 {
            assert(dx == 2 * c && dy == 0 * h);
            assert(dx * dx + dy * dy == 4 * cc + 0 * hh) by (nonlinear_arith)
                requires
                    dx == 2 * c,
                    dy == 0 * h,
                    cc == c * c,
                    hh == h * h,
            ;
            assert(ring_of(i) == 1);
            assert(16 * (cc + hh) <= 25 * (4 * cc + 0 * hh) <= 26 * (cc + hh));
        } else if i == 3 {
            assert(dx == 1 * c && dy == 1 * h);
            assert(dx * dx + dy * dy == 1 * cc + 1 * hh) by (nonlinear_arith)
                requires
                    dx == 1 * c,
                    dy == 1 * h,
                    cc == c * c,
                    hh == h * h,
            ;
            assert(ring_of(i) == 1);
            assert(16 * (cc + hh) <= 25 * (1 * cc + 1 * hh) <= 26 * (cc + hh));
        } else if i == 4 {
            assert(dx == -1 * c && dy == 1 * h);
            assert(dx * dx + dy * dy == 1 * cc + 1 * hh) by (nonlinear_arith)
                requires
                    dx == -1 * c,
                    dy == 1 * h,
                    cc == c * c,
                    hh == h * h,
            ;
            assert(ring_of(i) == 1);
            assert(16 * (cc + hh) <= 25 * (1 * cc + 1 * hh) <= 26 * (cc + hh));
        } else if i == 5 {
            assert(dx == -2 * c && dy == 0 * h);
            assert(dx * dx + dy * dy == 4 * cc + 0 * hh) by (nonlinear_arith)
                requires
                    dx == -2 * c,
                    dy == 0 * h,
                    cc == c * c,
                    hh == h * h,
            ;
            assert(ring_of(i) == 1);
            assert(16 * (cc + hh) <= 25 * (4 * cc + 0 * hh) <= 26 * (cc + hh));
        } else if i == 6 {
            assert(dx == -1 * c && dy == -1 * h);
            assert(dx * dx + dy * dy == 1 * cc + 1 * hh) by (nonlinear_arith)
                requires
                    dx == -1 * c,
                    dy == -1 * h,
                    cc == c * c,
                    hh == h * h,
            ;
            assert(ring_of(i) == 1);
            assert(16 * (cc + hh) <= 25 * (1 * cc + 1 * hh) <= 26 * (cc + hh));
        } else if i == 7 {
            assert(dx == 0 * c && dy == -2 * h);
            assert(dx * dx + dy * dy == 0 * cc + 4 * hh) by (nonlinear_arith)
                requires
                    dx == 0 * c,
                    dy == -2 * h,
                    cc == c * c,
                    hh == h * h,
            ;
            assert(ring_of(i) == 2);
            assert(64 * (cc + hh) <= 25 * (0 * cc + 4 * hh) <= 104 * (cc + hh));
        } else if i == 8 {
            assert(dx == 2 * c && dy == -2 * h);
            assert(dx * dx + dy * dy == 4 * cc + 4 * hh) by (nonlinear_arith)
                requires
                    dx == 2 * c,
                    dy == -2 * h,
                    cc == c * c,
                    hh == h * h,
            ;
            assert(ring_of(i) == 2);
            assert(64 * (cc + hh) <= 25 * (4 * cc + 4 * hh) <= 104 * (cc + hh));
        } else if i == 9 {
            assert(dx == 3 * c && dy == -1 * h);
            assert(dx * dx + dy * dy == 9 * cc + 1 * hh) by (nonlinear_arith)
                requires
                    dx == 3 * c,
                    dy == -1 * h,
                    cc == c * c,
                    hh == h * h,
            ;
            assert(ring_of(i) == 2);
            assert(64 * (cc + hh) <= 25 * (9 * cc + 1 * hh) <= 104 * (cc + hh));
        } else if i == 10 {
            assert(dx == 4 * c && dy == 0 * h);
            assert(dx * dx + dy * dy == 16 * cc + 0 * hh) by (nonlinear_arith)
                requires
                    dx == 4 * c,
                    dy == 0 * h,
                    cc == c * c,
                    hh == h * h,
            ;
            assert(ring_of(i) == 2);
            assert(64 * (cc + hh) <= 25 * (16 * cc + 0 * hh) <= 104 * (cc + hh));
        } else if i == 11 {
            assert(dx == 3 * c && dy == 1 * h);
            assert(dx * dx + dy * dy == 9 * cc + 1 * hh) by (nonlinear_arith)
                requires
                    dx == 3 * c,
                    dy == 1 * h,
                    cc == c * c,
                    hh == h * h,
            ;
            assert(ring_of(i) == 2);
            assert(64 * (cc + hh) <= 25 * (9 * cc + 1 * hh) <= 104 * (cc + hh));
        } else if i == 12 {
            assert(dx == 2 * c && dy == 2 * h);
            assert(dx * dx + dy * dy == 4 * cc + 4 * hh) by (nonlinear_arith)
                requires
                    dx == 2 * c,
                    dy == 2 * h,
                    cc == c * c,
                    hh == h * h,
            ;
            assert(ring_of(i) == 2);
            assert(64 * (cc + hh) <= 25 * (4 * cc + 4 * hh) <= 104 * (cc + hh));
        } else if i == 13 {
            assert(dx == 0 * c && dy == 2 * h);
            assert(dx * dx + dy * dy == 0 * cc + 4 * hh) by (nonlinear_arith)
                requires
                    dx == 0 * c,
                    dy == 2 * h,
                    cc == c * c,
                    hh == h * h,
            ;
            assert(ring_of(i) == 2);
            assert(64 * (cc + hh) <= 25 * (0 * cc + 4 * hh) <= 104 * (cc + hh));
        } else if i == 14 {
            assert(dx == -2 * c && dy == 2 * h);
            assert(dx * dx + dy * dy == 4 * cc + 4 * hh) by (nonlinear_arith)
                requires
                    dx == -2 * c,
                    dy == 2 * h,
                    cc == c * c,
                    hh == h * h,
            ;
            assert(ring_of(i) == 2);
            assert(64 * (cc + hh) <= 25 * (4 * cc + 4 * hh) <= 104 * (cc + hh));
        } else if i == 15 {
            assert(dx == -3 * c && dy == 1 * h);
            assert(dx * dx + dy * dy == 9 * cc + 1 * hh) by (nonlinear_arith)
                requires
                    dx == -3 * c,
                    dy == 1 * h,
                    cc == c * c,
                    hh == h * h,
            ;
            assert(ring_of(i) == 2);
            assert(64 * (cc + hh) <= 25 * (9 * cc + 1 * hh) <= 104 * (cc + hh));
        } else if i == 16 {
            assert(dx == -4 * c && dy == 0 * h);
            assert(dx * dx + dy * dy == 16 * cc + 0 * hh) by (nonlinear_arith)
                requires
                    dx == -4 * c,
                    dy == 0 * h,
                    cc == c * c,
                    hh == h * h,
            ;
            assert(ring_of(i) == 2);
            assert(64 * (cc + hh) <= 25 * (16 * cc + 0 * hh) <= 104 * (cc + hh));
        } else if i == 17 {
            assert(dx == -3 * c && dy == -1 * h);
            assert(dx * dx + dy * dy == 9 * cc + 1 * hh) by (nonlinear_arith)
                requires
                    dx == -3 * c,
                    dy == -1 * h,
                    cc == c * c,
                    hh == h * h,
            ;
            assert(ring_of(i) == 2);
            assert(64 * (cc + hh) <= 25 * (9 * cc + 1 * hh) <= 104 * (cc + hh));
        } else if i == 18 {
            assert(dx == -2 * c && dy == -2 * h);
            assert(dx * dx + dy * dy == 4 * cc + 4 * hh) by (nonlinear_arith)
                requires
                    dx == -2 * c,
                    dy == -2 * h,
                    cc == c * c,
                    hh == h * h,
            ;
            assert(ring_of(i) == 2);
            assert(64 * (cc + hh) <= 25 * (4 * cc + 4 * hh) <= 104 * (cc + hh));
        } else if i == 19 {
            assert(dx == -1 * c && dy == -3 * h);
            assert(dx * dx + dy * dy == 1 * cc + 9 * hh) by (nonlinear_arith)
                requires
                    dx == -1 * c,
                    dy == -3 * h,
                    cc == c * c,
                    hh == h * h,
            ;
            assert(ring_of(i) == 3);
            assert(144 * (cc + hh) <= 25 * (1 * cc + 9 * hh) <= 234 * (cc + hh));
        } else if i == 20 {
            assert(dx == 1 * c && dy == -3 * h);
            assert(dx * dx + dy * dy == 1 * cc + 9 * hh) by (nonlinear_arith)
                requires
                    dx == 1 * c,
                    dy == -3 * h,
                    cc == c * c,
                    hh == h * h,
            ;
            assert(ring_of(i) == 3);
            assert(144 * (cc + hh) <= 25 * (1 * cc + 9 * hh) <= 234 * (cc + hh));
        } else if i == 21 {
            assert(dx == 3 * c && dy == -3 * h);
            assert(dx * dx + dy * dy == 9 * cc + 9 * hh) by (nonlinear_arith)
                requires
                    dx == 3 * c,
                    dy == -3 * h,
                    cc == c * c,
                    hh == h * h,
            ;
            assert(ring_of(i) == 3);
            assert(144 * (cc + hh) <= 25 * (9 * cc + 9 * hh) <= 234 * (cc + hh));
        } else if i == 22 {
            assert(dx == 4 * c && dy == -2 * h);
            assert(dx * dx + dy * dy == 16 * cc + 4 * hh) by (nonlinear_arith)
                requires
                    dx == 4 * c,
                    dy == -2 * h,
                    cc == c * c,
                    hh == h * h,
            ;
            assert(ring_of(i) == 3);
            assert(144 * (cc + hh) <= 25 * (16 * cc + 4 * hh) <= 234 * (cc + hh));
        } else if i == 23 {
            assert(dx == 5 * c && dy == -1 * h);
            assert(dx * dx + dy * dy == 25 * cc + 1 * hh) by (nonlinear_arith)
                requires
                    dx == 5 * c,
                    dy == -1 * h,
                    cc == c * c,
                    hh == h * h,
            ;
            assert(ring_of(i) == 3);
            assert(144 * (cc + hh) <= 25 * (25 * cc + 1 * hh) <= 234 * (cc + hh));
        } else if i == 24 {
            assert(dx == 6 * c && dy == 0 * h);
            assert(dx * dx + dy * dy == 36 * cc + 0 * hh) by (nonlinear_arith)
                requires
                    dx == 6 * c,
                    dy == 0 * h,
                    cc == c * c,
                    hh == h * h,
            ;
            assert(ring_of(i) == 3);
            assert(144 * (cc + hh) <= 25 * (36 * cc + 0 * hh) <= 234 * (cc + hh));
        } else if i == 25 {
            assert(dx == 5 * c && dy == 1 * h);
            assert(dx * dx + dy * dy == 25 * cc + 1 * hh) by (nonlinear_arith)
                requires
                    dx == 5 * c,
                    dy == 1 * h,
                    cc == c * c,
                    hh == h * h,
            ;
            assert(ring_of(i) == 3);
            assert(144 * (cc + hh) <= 25 * (25 * cc + 1 * hh) <= 234 * (cc + hh));
        } else if i == 26 {
            assert(dx == 4 * c && dy == 2 * h);
            assert(dx * dx + dy * dy == 16 * cc + 4 * hh) by (nonlinear_arith)
                requires
                    dx == 4 * c,
                    dy == 2 * h,
                    cc == c * c,
                    hh == h * h,
            ;
            assert(ring_of(i) == 3);
            assert(144 * (cc + hh) <= 25 * (16 * cc + 4 * hh) <= 234 * (cc + hh));
        } else if i == 27 {
            assert(dx == 3 * c && dy == 3 * h);
            assert(dx * dx + dy * dy == 9 * cc + 9 * hh) by (nonlinear_arith)
                requires
                    dx == 3 * c,
                    dy == 3 * h,
                    cc == c * c,
                    hh == h * h,
            ;
            assert(ring_of(i) == 3);
            assert(144 * (cc + hh) <= 25 * (9 * cc + 9 * hh) <= 234 * (cc + hh));
        } else if i == 28 {
            assert(dx == 1 * c && dy == 3 * h);
            assert(dx * dx + dy * dy == 1 * cc + 9 * hh) by (nonlinear_arith)
                requires
                    dx == 1 * c,
                    dy == 3 * h,
                    cc == c * c,
                    hh == h * h,
            ;
            assert(ring_of(i) == 3);
            assert(144 * (cc + hh) <= 25 * (1 * cc + 9 * hh) <= 234 * (cc + hh));
        } else if i == 29 {
            assert(dx == -1 * c && dy == 3 * h);
            assert(dx * dx + dy * dy == 1 * cc + 9 * hh) by (nonlinear_arith)
                requires
                    dx == -1 * c,
                    dy == 3 * h,
                    cc == c * c,
                    hh == h * h,
            ;
            assert(ring_of(i) == 3);
            assert(144 * (cc + hh) <= 25 * (1 * cc + 9 * hh) <= 234 * (cc + hh));
        } else if i == 30 {
            assert(dx == -3 * c && dy == 3 * h);
            assert(dx * dx + dy * dy == 9 * cc + 9 * hh) by (nonlinear_arith)
                requires
                    dx == -3 * c,
                    dy == 3 * h,
                    cc == c * c,
                    hh == h * h,
            ;
            assert(ring_of(i) == 3);
            assert(144 * (cc + hh) <= 25 * (9 * cc + 9 * hh) <= 234 * (cc + hh));
        } else if i == 31 {
            assert(dx == -4 * c && dy == 2 * h);
            assert(dx * dx + dy * dy == 16 * cc + 4 * hh) by (nonlinear_arith)
                requires
                    dx == -4 * c,
                    dy == 2 * h,
                    cc == c * c,
                    hh == h * h,
            ;
            assert(ring_of(i) == 3);
            assert(144 * (cc + hh) <= 25 * (16 * cc + 4 * hh) <= 234 * (cc + hh));
        } else if i == 32 {
            assert(dx == -5 * c && dy == 1 * h);
            assert(dx * dx + dy * dy == 25 * cc + 1 * hh) by (nonlinear_arith)
                requires
                    dx == -5 * c,
                    dy == 1 * h,
                    cc == c * c,
                    hh == h * h,
            ;
            assert(ring_of(i) == 3);
            assert(144 * (cc + hh) <= 25 * (25 * cc + 1 * hh) <= 234 * (cc + hh));
        } else if i == 33 {
            assert(dx == -6 * c && dy == 0 * h);
            assert(dx * dx + dy * dy == 36 * cc + 0 * hh) by (nonlinear_arith)
                requires
                    dx == -6 * c,
                    dy == 0 * h,
                    cc == c * c,
                    hh == h * h,
            ;
            assert(ring_of(i) == 3);
            assert(144 * (cc + hh) <= 25 * (36 * cc + 0 * hh) <= 234 * (cc + hh));
        } else if i == 34 {
            assert(dx == -5 * c && dy == -1 * h);
            assert(dx * dx + dy * dy == 25 * cc + 1 * hh) by (nonlinear_arith)
                requires
                    dx == -5 * c,
                    dy == -1 * h,
                    cc == c * c,
                    hh == h * h,
            ;
            assert(ring_of(i) == 3);
            assert(144 * (cc + hh) <= 25 * (25 * cc + 1 * hh) <= 234 * (cc + hh));
        } else if i == 35 {
            assert(dx == -4 * c && dy == -2 * h);
            assert(dx * dx + dy * dy == 16 * cc + 4 * hh) by (nonlinear_arith)
                requires
                    dx == -4 * c,
                    dy == -2 * h,
                    cc == c * c,
                    hh == h * h,
            ;
            assert(ring_of(i) == 3);
            assert(144 * (cc + hh) <= 25 * (16 * cc + 4 * hh) <= 234 * (cc + hh));
        } else if i == 36 {
            assert(dx == -3 * c && dy == -3 * h);
            assert(dx * dx + dy * dy == 9 * cc + 9 * hh) by (nonlinear_arith)
                requires
                    dx == -3 * c,
                    dy == -3 * h,
                    cc == c * c,
                    hh == h * h,
            ;
            assert(ring_of(i) == 3);
            assert(144 * (cc + hh) <= 25 * (9 * cc + 9 * hh) <= 234 * (cc + hh));
        }
    }
}

/// The index of the grid point that mirrors point `i` across the vertical
/// line through the focal point.
pub open spec fn mirror_index(i: int) -> int {
    if i == 0 {
        0
    } else if i == 1 {
        6
    } else if i == 2 {
        5
    } else if i == 3 {
        4
    } else if i == 4 {
        3
    } else if i == 5 {
        2
    } else if i == 6 {
        1
    } else if i == 7 {
        7
    } else if i == 8 {
        18
    } else if i == 9 {
        17
    } else if i == 10 {
        16
    } else if i == 11 {
        15
    } else if i == 12 {
        14
    } else if i == 13 {
        13
    } else if i == 14 {
        12
    } else if i == 15 {
        11
    } else if i == 16 {
        10
    } else if i == 17 {
        9
    } else if i == 18 {
        8
    } else if i == 19 {
        20
    } else if i == 20 {
        19
    } else if i == 21 {
        36
    } else if i == 22 {
        35
    } else if i == 23 {
        34
    } else if i == 24 {
        33
    } else if i == 25 {
        32
    } else if i == 26 {
        31
    } else if i == 27 {
        30
    } else if i == 28 {
        29
    } else if i == 29 {
        28
    } else if i == 30 {
        27
    } else if i == 31 {
        26
    } else if i == 32 {
        25
    } else if i == 33 {
        24
    } else if i == 34 {
        23
    } else if i == 35 {
        22
    } else {
        21
    }
}

/// Reflecting the grid across the vertical line through the focal point
/// (`x == 2 * cx - x`) only reorders it, and each point lands in its own ring.
pub proof fn lemma_grid_mirror_symmetric(cx: int, cy: int, radius: int)
    ensures
        forall|i: int|
            0 <= i < 37 ==> 0 <= #[trigger] mirror_index(i) < 37 && (i == 0 <==> mirror_index(i) == 0)
                && (i > 0 ==> ring_of(mirror_index(i)) == ring_of(i)) && mirror_spec(
                grid_spec(cx, cy, radius),
                2 * cx,
            )[i] == grid_spec(cx, cy, radius)[mirror_index(i)],
{
    lemma_grid_offsets(cx, cy, radius);
    let c = slant_x(radius);
    let h = row_pitch(radius);
    assert forall|i: int| 0 <= i < 37 implies 0 <= #[trigger] mirror_index(i) < 37 && (i == 0
        <==> mirror_index(i) == 0) && (i > 0 ==> ring_of(mirror_index(i)) == ring_of(i))
        && mirror_spec(grid_spec(cx, cy, radius), 2 * cx)[i] == grid_spec(cx, cy, radius)[mirror_index(i)] by {
        let m = mirror_index(i);
        let p = grid_point(cx, cy, radius, i);
        let q = grid_point(cx, cy, radius, m);
        assert(hex_offset(m) == (-hex_offset(i).0, hex_offset(i).1));
        assert(q.0 == cx + hex_offset(m).0 * c);
        assert(p.0 == cx + hex_offset(i).0 * c);
        assert(hex_offset(m).0 * c == -(hex_offset(i).0 * c)) by (nonlinear_arith)
            requires
                hex_offset(m).0 == -hex_offset(i).0,
        ;
        assert(mirror_spec(grid_spec(cx, cy, radius), 2 * cx)[i] == (2 * cx - p.0, p.1));
    }
}

/// The table offsets are all different.
proof fn lemma_offsets_distinct()
    ensures
        forall|i: int, j: int|
            0 <= i < 37 && 0 <= j < 37 && i != j ==> #[trigger] hex_offset(i) != #[trigger] hex_offset(j),
{
}

/// For a radius of at least 2, no two grid points coincide.
pub proof fn lemma_grid_distinct(cx: int, cy: int, radius: int)
    requires
        2 <= radius,
    ensures
        forall|i: int, j: int|
            0 <= i < 37 && 0 <= j < 37 && i != j ==> #[trigger] grid_point(cx, cy, radius, i)
                != #[trigger] grid_point(cx, cy, radius, j),
{
    lemma_grid_offsets(cx, cy, radius);
    lemma_offsets_distinct();
    let c = slant_x(radius);
    let h = row_pitch(radius);
    assert(c >= 1 && h >= 1);
    assert forall|i: int, j: int|
        0 <= i < 37 && 0 <= j < 37 && i != j implies #[trigger] grid_point(cx, cy, radius, i)
            != #[trigger] grid_point(cx, cy, radius, j) by {
        let (a, b) = hex_offset(i);
        let (a2, b2) = hex_offset(j);
        if grid_point(cx, cy, radius, i) == grid_point(cx, cy, radius, j) {
            assert(a * c == a2 * c && b * h == b2 * h);
            assert(a == a2 && b == b2) by (nonlinear_arith)
                requires
                    a * c == a2 * c,
                    b * h == b2 * h,
                    c >= 1,
                    h >= 1,
            ;
            assert(hex_offset(i) == hex_offset(j));
        }
    }
}

/// Why a grid could not be made.
#[derive(Clone, Copy, Debug, PartialEq, Eq, Structural)]
pub enum GridError {
    /// The radius is zero or negative.
    NonPositiveRadius,
    /// A point of the grid falls outside the `i32` coordinate range.
    OutOfRange,
}

/// The grid computed with wide integers, so that no step can overflow.
fn walk(cx: i32, cy: i32, radius: i32) -> (w: Vec<(i64, i64)>)
    requires
        radius > 0,
    ensures
        wide_view(w@) == grid_spec(cx as int, cy as int, radius as int),
{
    let ghost gcx = cx as int;
    let ghost gcy = cy as int;
    let ghost gr = radius as int;
    let c: i64 = half_width(radius) as i64;
    let h: i64 = radius as i64 + half_height(radius) as i64;
    let neg_c: i64 = -c;
    let neg_h: i64 = -h;
    let two_c: i64 = 2 * c;
    let neg_two_c: i64 = -two_c;
    let table: Vec<(i64, i64)> = vec![
        (c, neg_h),
        (two_c, 0i64),
        (c, h),
        (neg_c, h),
        (neg_two_c, 0i64),
        (neg_c, neg_h),
    ];
    assert(c as int == slant_x(gr) && h as int == row_pitch(gr));
    assert forall|d: int| 0 <= d < 6 implies (#[trigger] table@[d]).0 as int == direction(d, gr).0
        && table@[d].1 as int == direction(d, gr).1 && -0x1_0000_0000 <= table@[d].0 <= 0x1_0000_0000
        && -0x1_0000_0000 <= table@[d].1 <= 0x1_0000_0000 by {}
    let mut w: Vec<(i64, i64)> = Vec::new();
    w.push((cx as i64, cy as i64));
    let mut x: i64 = cx as i64;
    let mut y: i64 = cy as i64;
    let mut ring: usize = 1;
    while ring <= 3
        invariant
            1 <= ring <= 4,
            gcx == cx as int,
            gcy == cy as int,
            gr == radius as int,
            c as int == slant_x(gr),
            h as int == row_pitch(gr),
            0 <= c <= 0x8000_0000,
            0 <= h <= 0xC000_0000,
            table@.len() == 6,
            forall|d: int| 0 <= d < 6 ==> (#[trigger] table@[d]).0 as int == direction(d, gr).0
                && table@[d].1 as int == direction(d, gr).1 && -0x1_0000_0000 <= table@[d].0
                <= 0x1_0000_0000 && -0x1_0000_0000 <= table@[d].1 <= 0x1_0000_0000,
            w@.len() == ring_start(ring as int),
            forall|k: int|
                0 <= k < w@.len() ==> (#[trigger] w@[k]).0 as int == grid_point(gcx, gcy, gr, k).0
                    && w@[k].1 as int == grid_point(gcx, gcy, gr, k).1,
            forall|k: int|
                0 <= k < w@.len() ==> -k * 0x2_0000_0000 <= (#[trigger] w@[k]).0 - gcx <= k
                    * 0x2_0000_0000 && -k * 0x2_0000_0000 <= w@[k].1 - gcy <= k * 0x2_0000_0000,
        decreases 4 - ring,
    {
        if ring > 1 {
            let prev: usize = if ring == 2 {
                1
            } else {
                7
            };
            let first = w[prev];
            assert(w@[prev as int] == first);
            assert(prev < w@.len());
            x = first.0 - c;
            y = first.1 - h;
        } else {
            x = cx as i64 + c;
            y = cy as i64 - h;
        }
        proof {
            let i = w@.len() as int;
            assert(ring_of(i) == ring as int);
            assert(x as int == grid_point(gcx, gcy, gr, i).0);
            assert(y as int == grid_point(gcx, gcy, gr, i).1);
        }
        w.push((x, y));
        let ghost len0 = w@.len() as int - 1;
        let n: usize = 6 * ring;
        let mut j: usize = 1;
        while j < n
            invariant
                1 <= ring <= 3,
                gcx == cx as int,
                gcy == cy as int,
                gr == radius as int,
                n == 6 * ring,
                1 <= j <= n,
                len0 == ring_start(ring as int),
                w@.len() == len0 + j,
                c as int == slant_x(gr),
                h as int == row_pitch(gr),
                0 <= c <= 0x8000_0000,
                0 <= h <= 0xC000_0000,
                table@.len() == 6,
                forall|d: int| 0 <= d < 6 ==> (#[trigger] table@[d]).0 as int == direction(d, gr).0
                    && table@[d].1 as int == direction(d, gr).1 && -0x1_0000_0000 <= table@[d].0
                    <= 0x1_0000_0000 && -0x1_0000_0000 <= table@[d].1 <= 0x1_0000_0000,
                forall|k: int|
                    0 <= k < w@.len() ==> (#[trigger] w@[k]).0 as int == grid_point(gcx, gcy, gr, k).0
                        && w@[k].1 as int == grid_point(gcx, gcy, gr, k).1,
                forall|k: int|
                    0 <= k < w@.len() ==> -k * 0x2_0000_0000 <= (#[trigger] w@[k]).0 - gcx <= k
                        * 0x2_0000_0000 && -k * 0x2_0000_0000 <= w@[k].1 - gcy <= k * 0x2_0000_0000,
                x == w@[w@.len() - 1].0 && y == w@[w@.len() - 1].1,
            decreases n - j,
        {
            let d: usize = (j / ring + 1) % 6;
            let step = table[d];
            assert(table@[d as int] == step);
            let ghost i = w@.len() as int;
            proof {
                let last = w@[i - 1];
                assert(w@.len() <= 37);
                assert(-(i - 1) * 0x2_0000_0000 <= last.0 - gcx);
                assert(ring_of(i) == ring as int);
                assert(i - ring_start(ring as int) == j as int);
            }
            x = x + step.0;
            y = y + step.1;
            proof {
                assert(x as int == grid_point(gcx, gcy, gr, i).0);
                assert(y as int == grid_point(gcx, gcy, gr, i).1);
            }
            w.push((x, y));
            j += 1;
        }
        ring += 1;
    }
    assert(wide_view(w@) =~= grid_spec(gcx, gcy, gr));
    w
}

/// The grid of 37 hexagon centres around the focal point `(cx, cy)`.
///
/// Point 0 is the focal point; points 1 to 6, 7 to 18 and 19 to 36 are the
/// three rings, each walked step by step from the point before it.
pub fn make_grid(cx: i32, cy: i32, radius: i32) -> (g: Vec<Point>)
    requires
        radius > 0,
        all_fit(grid_spec(cx as int, cy as int, radius as int)),
    ensures
        points_view(g@) == grid_spec(cx as int, cy as int, radius as int),
        g@.len() == GRID_LEN,
        g@[0] == (Point { x: cx, y: cy }),
{
    let w = walk(cx, cy, radius);
    let g = narrow(&w);
    assert(points_view(g@)[0] == grid_spec(cx as int, cy as int, radius as int)[0]);
    g
}

/// The grid of [`make_grid`], or why it cannot be made: a radius that is not
/// positive, or a point outside the `i32` coordinate range.
pub fn checked_grid(cx: i32, cy: i32, radius: i32) -> (r: Result<Vec<Point>, GridError>)
    ensures
        radius <= 0 ==> r == Err::<Vec<Point>, GridError>(GridError::NonPositiveRadius),
        radius > 0 && !all_fit(grid_spec(cx as int, cy as int, radius as int)) ==> r == Err::<
            Vec<Point>,
            GridError,
        >(GridError::OutOfRange),
        radius > 0 && all_fit(grid_spec(cx as int, cy as int, radius as int)) ==> r is Ok
            && points_view(r->Ok_0@) == grid_spec(cx as int, cy as int, radius as int),
{
    if radius <= 0 {
        return Err(GridError::NonPositiveRadius);
    }
    let w = walk(cx, cy, radius);
    if !all_fit_wide(&w) {
        return Err(GridError::OutOfRange);
    }
    Ok(narrow(&w))
}

} // verus!
