use hex_mosaic::geometry::{half_height, half_width, hexagon_fits, hexagon_vertices, Point};
use hex_mosaic::grid::{checked_grid, make_grid, GridError, GRID_LEN};

fn pt(x: i32, y: i32) -> Point {
    Point { x, y }
}

#[test]
fn offsets_truncate() {
    assert_eq!(half_width(64), 55);
    assert_eq!(half_height(64), 32);
    assert_eq!(half_width(1), 0);
    assert_eq!(half_height(1), 0);
    assert_eq!(half_width(1000), 866);
    assert_eq!(half_width(999), 865);
    assert_eq!(half_width(i32::MAX), 1859720838);
    assert_eq!(half_height(i32::MAX), 1073741823);
}

#[test]
fn grid_scenario_first_points() {
    let g = make_grid(100, 100, 64);
    assert_eq!(g.len(), 37);
    assert_eq!(g[0], pt(100, 100));
    assert_eq!(g[1], pt(155, 4));
    // the inner ring is the focal point plus each direction: point 2 is
    // (100 + 2 * 55, 100), one step right of the focal point
    assert_eq!(g[2], pt(210, 100));
}

#[test]
fn grid_has_37_points_and_focal_first() {
    for &(cx, cy, r) in &[(0, 0, 1), (100, 100, 64), (-500, 700, 10), (320, 240, 3), (1, -1, 200)] {
        let g = make_grid(cx, cy, r);
        assert_eq!(g.len(), GRID_LEN);
        assert_eq!(g[0], pt(cx, cy));
    }
}

#[test]
fn grid_rings_are_concentric() {
    let g = make_grid(100, 100, 64);
    let expected = [
        (100, 100), (155, 4), (210, 100), (155, 196), (45, 196), (-10, 100), (45, 4),
        (100, -92), (210, -92), (265, 4), (320, 100), (265, 196), (210, 292), (100, 292),
        (-10, 292), (-65, 196), (-120, 100), (-65, 4), (-10, -92),
        (45, -188), (155, -188), (265, -188), (320, -92), (375, 4), (430, 100), (375, 196),
        (320, 292), (265, 388), (155, 388), (45, 388), (-65, 388), (-120, 292), (-175, 196),
        (-230, 100), (-175, 4), (-120, -92), (-65, -188),
    ];
    assert_eq!(g.len(), expected.len());
    for (i, &(x, y)) in expected.iter().enumerate() {
        assert_eq!(g[i], pt(x, y), "point {}", i);
    }
}

#[test]
fn grid_is_determined_by_its_inputs() {
    assert_eq!(make_grid(10, 20, 30), make_grid(10, 20, 30));
    assert_ne!(make_grid(10, 20, 30), make_grid(10, 20, 31));
}

#[test]
fn checked_grid_rejects_non_positive_radius() {
    assert_eq!(checked_grid(100, 100, 0), Err(GridError::NonPositiveRadius));
    assert_eq!(checked_grid(100, 100, -5), Err(GridError::NonPositiveRadius));
}

#[test]
fn checked_grid_rejects_overflow() {
    assert_eq!(checked_grid(i32::MAX, 0, 64), Err(GridError::OutOfRange));
    assert_eq!(checked_grid(0, i32::MIN, 64), Err(GridError::OutOfRange));
    assert_eq!(checked_grid(0, 0, i32::MAX), Err(GridError::OutOfRange));
}

#[test]
fn checked_grid_matches_make_grid() {
    assert_eq!(checked_grid(100, 100, 64), Ok(make_grid(100, 100, 64)));
}

#[test]
fn hexagon_corners_in_order() {
    let v = hexagon_vertices(pt(100, 100), 64);
    assert_eq!(
        v,
        vec![pt(155, 132), pt(100, 164), pt(45, 132), pt(45, 68), pt(100, 36), pt(155, 68)]
    );
}

#[test]
fn hexagon_fit_check() {
    assert!(hexagon_fits(pt(100, 100), 64));
    assert!(!hexagon_fits(pt(i32::MAX - 10, 0), 64));
    assert!(!hexagon_fits(pt(0, i32::MIN + 63), 64));
    assert!(hexagon_fits(pt(0, i32::MIN + 64), 64));
}

#[test]
fn grid_points_are_distinct_and_symmetric() {
    let g = make_grid(320, 240, 64);
    for i in 0..37 {
        for j in 0..i {
            assert_ne!(g[i], g[j], "points {} and {}", i, j);
        }
        let mirrored = pt(640 - g[i].x, g[i].y);
        assert!(g.contains(&mirrored), "reflection of point {}", i);
    }
}

#[test]
fn grid_near_range_edge() {
    // six radii inside the range horizontally, five vertically
    let g = make_grid(i32::MAX - 6 * 64, i32::MIN + 1 + 5 * 64, 64);
    assert_eq!(g[0], pt(i32::MAX - 384, i32::MIN + 321));
    assert_eq!(checked_grid(0, -(i32::MAX - 10), 2).map(|g| g.len()), Ok(37));
}
