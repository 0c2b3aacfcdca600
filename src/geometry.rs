use vstd::prelude::*;

verus! {

/// A pixel position in frame coordinates.
#[derive(Clone, Copy, Debug, PartialEq, Eq, Structural)]
pub struct Point {
    pub x: i32,
    pub y: i32,
}

impl View for Point {
    type V = (int, int);

    open spec fn view(&self) -> (int, int) {
        (self.x as int, self.y as int)
    }
}

/// Whether a mathematical integer can be stored as an `i32` coordinate.
pub open spec fn fits_i32(v: int) -> bool {
    i32::MIN <= v <= i32::MAX
}

/// Whether every coordinate of every position fits in an `i32`.
pub open spec fn all_fit(s: Seq<(int, int)>) -> bool {
    forall|i: int| 0 <= i < s.len() ==> fits_i32((#[trigger] s[i]).0) && fits_i32(s[i].1)
}

/// The positions of a sequence of points, as pairs of integers.
pub open spec fn points_view(s: Seq<Point>) -> Seq<(int, int)> {
    s.map_values(|p: Point| p@)
}

/// The horizontal half-width of a hexagon's slanted edge: `floor(0.866 * radius)`.
pub open spec fn slant_x(radius: int) -> int {
    (866 * radius) / 1000
}

/// The vertical offset of a hexagon's slanted edge: `floor(0.5 * radius)`.
pub open spec fn slant_y(radius: int) -> int {
    radius / 2
}

/// The vertical distance between the centres of two diagonal neighbours.
pub open spec fn row_pitch(radius: int) -> int {
    radius + slant_y(radius)
}

/// The six walking directions, in walking order, as offsets `(dx, dy)`.
pub open spec fn direction(d: int, radius: int) -> (int, int) {
    let c = slant_x(radius);
    let h = row_pitch(radius);
    if d == 0 {
        (c, -h)
    } else if d == 1 {
        (2 * c, 0)
    } else if d == 2 {
        (c, h)
    } else if d == 3 {
        (-c, h)
    } else if d == 4 {
        (-2 * c, 0)
    } else {
        (-c, -h)
    }
}

/// Corner `k` of the hexagon centred at `(cx, cy)`, counted clockwise from the
/// right-bottom corner.
pub open spec fn corner(cx: int, cy: int, radius: int, k: int) -> (int, int) {
    let c = slant_x(radius);
    let s = slant_y(radius);
    if k == 0 {
        (cx + c, cy + s)
    } else if k == 1 {
        (cx, cy + radius)
    } else if k == 2 {
        (cx - c, cy + s)
    } else if k == 3 {
        (cx - c, cy - s)
    } else if k == 4 {
        (cx, cy - radius)
    } else {
        (cx + c, cy - s)
    }
}

/// The six corners of the hexagon centred at `(cx, cy)`, clockwise from the
/// right-bottom corner.
pub open spec fn hexagon_spec(cx: int, cy: int, radius: int) -> Seq<(int, int)> {
    Seq::new(6, |k: int| corner(cx, cy, radius, k))
}

/// Computes `floor(0.866 * radius)` for a positive radius.
pub fn half_width(radius: i32) -> (c: i32)
    requires
        radius > 0,
    ensures
        c as int == slant_x(radius as int),
        0 <= c <= radius,
{
    let wide: i64 = 866i64 * (radius as i64);
    (wide / 1000) as i32
}

/// Computes `floor(0.5 * radius)` for a positive radius.
pub fn half_height(radius: i32) -> (s: i32)
    requires
        radius > 0,
    ensures
        s as int == slant_y(radius as int),
        0 <= s <= radius,
{
    radius / 2
}

/// Whether every corner of the hexagon around `center` has `i32` coordinates.
pub fn hexagon_fits(center: Point, radius: i32) -> (b: bool)
    requires
        radius > 0,
    ensures
        b == all_fit(hexagon_spec(center.x as int, center.y as int, radius as int)),
{
    let c = half_width(radius) as i64;
    let r = radius as i64;
    let x = center.x as i64;
    let y = center.y as i64;
    let lo = i32::MIN as i64;
    let hi = i32::MAX as i64;
    let b = lo <= x - c && x + c <= hi && lo <= y - r && y + r <= hi;
    let ghost hex = hexagon_spec(center.x as int, center.y as int, radius as int);
    proof {
        if b {
            assert forall|i: int| 0 <= i < hex.len() implies fits_i32((#[trigger] hex[i]).0)
                && fits_i32(hex[i].1) by {}
        } else {
            if !(lo <= x - c) {
                assert(!fits_i32(hex[2].0));
            } else if !(x + c <= hi) {
                assert(!fits_i32(hex[0].0));
            } else if !(lo <= y - r) {
                assert(!fits_i32(hex[4].1));
            } else {
                assert(!fits_i32(hex[1].1));
            }
        }
    }
    b
}

/// The corners of the hexagon of the given radius centred at `center`,
/// clockwise from the right-bottom corner: a convex polygon ready to fill.
pub fn hexagon_vertices(center: Point, radius: i32) -> (v: Vec<Point>)
    requires
        radius > 0,
        all_fit(hexagon_spec(center.x as int, center.y as int, radius as int)),
    ensures
        points_view(v@) == hexagon_spec(center.x as int, center.y as int, radius as int),
        v@.len() == 6,
{
    let ghost hex = hexagon_spec(center.x as int, center.y as int, radius as int);
    let c = half_width(radius);
    let s = half_height(radius);
    proof {
        assert(fits_i32(hex[0].0) && fits_i32(hex[1].1) && fits_i32(hex[2].0));
        assert(fits_i32(hex[4].1));
    }
    let left = center.x - c;
    let right = center.x + c;
    let top = center.y - radius;
    let bottom = center.y + radius;
    let upper = center.y - s;
    let lower = center.y + s;
    let v = vec![
        Point { x: right, y: lower },
        Point { x: center.x, y: bottom },
        Point { x: left, y: lower },
        Point { x: left, y: upper },
        Point { x: center.x, y: top },
        Point { x: right, y: upper },
    ];
    assert(points_view(v@) =~= hex);
    v
}

/// The positions held by a sequence of wide integer pairs.
pub open spec fn wide_view(s: Seq<(i64, i64)>) -> Seq<(int, int)> {
    s.map_values(|p: (i64, i64)| (p.0 as int, p.1 as int))
}

/// Whether every wide pair fits in `i32` coordinates.
pub(crate) fn all_fit_wide(w: &Vec<(i64, i64)>) -> (b: bool)
    ensures
        b == all_fit(wide_view(w@)),
{
    let lo = i32::MIN as i64;
    let hi = i32::MAX as i64;
    let mut i: usize = 0;
    while i < w.len()
        invariant
            i <= w.len(),
            lo == i32::MIN,
            hi == i32::MAX,
            forall|k: int| 0 <= k < i ==> fits_i32((#[trigger] wide_view(w@)[k]).0)
                && fits_i32(wide_view(w@)[k].1),
        decreases w.len() - i,
    {
        let p = w[i];
        assert(wide_view(w@)[i as int] == (p.0 as int, p.1 as int));
        if p.0 < lo || p.0 > hi || p.1 < lo || p.1 > hi {
            assert(!fits_i32(wide_view(w@)[i as int].0) || !fits_i32(wide_view(w@)[i as int].1));
            return false;
        }
        i += 1;
    }
    true
}

/// Turns wide pairs that fit in `i32` into points.
pub(crate) fn narrow(w: &Vec<(i64, i64)>) -> (g: Vec<Point>)
    requires
        all_fit(wide_view(w@)),
    ensures
        points_view(g@) == wide_view(w@),
{
    let mut g: Vec<Point> = Vec::new();
    let mut i: usize = 0;
    while i < w.len()
        invariant
            i <= w.len(),
            all_fit(wide_view(w@)),
            g@.len() == i,
            points_view(g@) =~= wide_view(w@).take(i as int),
        decreases w.len() - i,
    {
        let p = w[i];
        assert(fits_i32(wide_view(w@)[i as int].0) && fits_i32(wide_view(w@)[i as int].1));
        assert(wide_view(w@)[i as int] == (p.0 as int, p.1 as int));
        let ghost before = g@;
        g.push(Point { x: p.0 as i32, y: p.1 as i32 });
        assert(g@ == before.push(Point { x: p.0 as i32, y: p.1 as i32 }));
        assert(points_view(g@)[i as int] == (p.0 as int, p.1 as int));
        assert(points_view(g@) =~= wide_view(w@).take(i + 1));
        i += 1;
    }
    assert(wide_view(w@).take(w.len() as int) =~= wide_view(w@));
    g
}

} // verus!
