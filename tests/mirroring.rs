use hex_mosaic::geometry::Point;
use hex_mosaic::grid::make_grid;
use hex_mosaic::reflection::{mirror, mirror_fits};

fn pt(x: i32, y: i32) -> Point {
    Point { x, y }
}

#[test]
fn mirror_scenario() {
    let m = mirror(&vec![pt(10, 5), pt(20, 7)], 100);
    assert_eq!(m, vec![pt(90, 5), pt(80, 7)]);
}

#[test]
fn mirror_twice_is_identity() {
    let g = make_grid(320, 240, 64);
    assert_eq!(mirror(&mirror(&g, 640), 640), g);
    let h = make_grid(-40, 9, 7);
    assert_eq!(mirror(&mirror(&h, -13), -13), h);
}

#[test]
fn mirror_of_empty_is_empty() {
    assert_eq!(mirror(&Vec::new(), 5), Vec::<Point>::new());
}

#[test]
fn mirror_fit_check() {
    assert!(mirror_fits(&vec![pt(10, 5)], 100));
    assert!(!mirror_fits(&vec![pt(-10, 5)], i32::MAX));
    assert!(!mirror_fits(&vec![pt(1, 0)], i32::MIN));
}
