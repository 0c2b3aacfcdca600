use vstd::prelude::*;

use crate::geometry::{all_fit, fits_i32, points_view, Point};

verus! {

/// Each position reflected across the vertical line `x == axis`.
pub open spec fn mirror_spec(pts: Seq<(int, int)>, axis: int) -> Seq<(int, int)> {
    pts.map_values(|p: (int, int)| (axis - p.0, p.1))
}

/// Reflecting twice across the same axis gives back the original positions.
pub proof fn lemma_mirror_involution(pts: Seq<(int, int)>, axis: int)
    ensures
        mirror_spec(mirror_spec(pts, axis), axis) == pts,
{
    assert(mirror_spec(mirror_spec(pts, axis), axis) =~= pts);
}

/// Whether every reflected position has `i32` coordinates.
pub fn mirror_fits(points: &Vec<Point>, axis: i32) -> (b: bool)
    ensures
        b == all_fit(mirror_spec(points_view(points@), axis as int)),
{
    let ghost m = mirror_spec(points_view(points@), axis as int);
    let mut i: usize = 0;
    while i < points.len()
        invariant
            i <= points.len(),
            m == mirror_spec(points_view(points@), axis as int),
            forall|k: int| 0 <= k < i ==> fits_i32((#[trigger] m[k]).0) && fits_i32(m[k].1),
        decreases points.len() - i,
    {
        let x = axis as i64 - points[i].x as i64;
        assert(m[i as int] == (x as int, points@[i as int].y as int));
        if x < i32::MIN as i64 || x > i32::MAX as i64 {
            return false;
        }
        i += 1;
    }
    true
}

/// Reflects every point across the vertical line `x == axis`, keeping the order.
pub fn mirror(points: &Vec<Point>, axis: i32) -> (r: Vec<Point>)
    requires
        all_fit(mirror_spec(points_view(points@), axis as int)),
    ensures
        points_view(r@) == mirror_spec(points_view(points@), axis as int),
        r@.len() == points@.len(),
{
    let ghost m = mirror_spec(points_view(points@), axis as int);
    let mut r: Vec<Point> = Vec::new();
    let mut i: usize = 0;
    while i < points.len()
        invariant
            i <= points.len(),
            m == mirror_spec(points_view(points@), axis as int),
            all_fit(m),
            r@.len() == i,
            points_view(r@) =~= m.take(i as int),
        decreases points.len() - i,
    {
        let p = points[i];
        assert(m[i as int] == (axis - p.x, p.y as int));
        assert(fits_i32(m[i as int].0));
        let q = Point { x: axis - p.x, y: p.y };
        let ghost before = r@;
        r.push(q);
        assert(r@ == before.push(q));
        assert(points_view(r@)[i as int] == m[i as int]);
        assert(points_view(r@) =~= m.take(i + 1));
        i += 1;
    }
    assert(m.take(points.len() as int) =~= m);
    r
}

} // verus!
