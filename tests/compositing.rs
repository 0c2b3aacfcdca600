use hex_mosaic::compose::{compose, hexagons_fit, next_action, plan_frame, LoopAction, LoopEvent};
use hex_mosaic::geometry::{hexagon_vertices, Point};
use hex_mosaic::grid::{make_grid, GridError};
use hex_mosaic::reflection::mirror;
use hex_mosaic::sample::{sample_at, Color, Frame, Pixel};

fn pt(x: i32, y: i32) -> Point {
    Point { x, y }
}

fn plain_frame(width: usize, height: usize) -> Frame {
    Frame::new(width, height, vec![Pixel { c0: 1, c1: 2, c2: 3 }; width * height]).unwrap()
}

#[test]
fn compose_one_hexagon_per_point() {
    let positions = vec![pt(100, 100), pt(0, 0)];
    let colors = vec![Color::new(1, 2, 3, 0), Color::new(4, 5, 6, 0)];
    let draws = compose(&positions, &colors, 64);
    assert_eq!(draws.len(), 2);
    assert_eq!(draws[0].vertices, hexagon_vertices(pt(100, 100), 64));
    assert_eq!(draws[0].color, Color::new(1, 2, 3, 0));
    assert_eq!(draws[1].vertices, vec![pt(55, 32), pt(0, 64), pt(-55, 32), pt(-55, -32), pt(0, -64), pt(55, -32)]);
    assert_eq!(draws[1].color, Color::new(4, 5, 6, 0));
}

#[test]
fn hexagon_geometry_ignores_order_and_neighbours() {
    let a = vec![pt(10, 10), pt(300, 40), pt(-7, 2)];
    let b = vec![pt(-7, 2), pt(5, 5), pt(10, 10)];
    let ca = vec![Color::black(); 3];
    let cb = vec![Color::grey(); 3];
    let da = compose(&a, &ca, 20);
    let db = compose(&b, &cb, 20);
    assert_eq!(da[0].vertices, db[2].vertices);
    assert_eq!(da[2].vertices, db[0].vertices);
}

#[test]
fn hexagon_fit_over_positions() {
    assert!(hexagons_fit(&vec![pt(0, 0), pt(100, 100)], 64));
    assert!(!hexagons_fit(&vec![pt(0, 0), pt(i32::MAX, 100)], 64));
}

#[test]
fn plan_frame_mirrored() {
    let frame = plain_frame(200, 200);
    let plan = plan_frame(&frame, 64, true, Color::grey()).unwrap();
    assert_eq!(plan.background, Color::grey());
    assert_eq!((plan.width, plan.height), (200, 200));
    assert_eq!(plan.hexagons.len(), 37);
    let grid = make_grid(100, 100, 64);
    let colors = sample_at(&frame, &grid);
    let flipped = mirror(&grid, 200);
    for i in 0..37 {
        assert_eq!(plan.hexagons[i].vertices, hexagon_vertices(flipped[i], 64));
        assert_eq!(plan.hexagons[i].color, colors[i]);
    }
    // point 1 (155, 4) is drawn at (45, 4)
    assert_eq!(plan.hexagons[1].vertices[0], pt(45 + 55, 4 + 32));
}

#[test]
fn plan_frame_unmirrored() {
    let frame = plain_frame(300, 100);
    let plan = plan_frame(&frame, 10, false, Color::black()).unwrap();
    let grid = make_grid(150, 50, 10);
    for i in 0..37 {
        assert_eq!(plan.hexagons[i].vertices, hexagon_vertices(grid[i], 10));
    }
    assert_eq!(plan.hexagons[0].color, Color::black());
    assert_eq!(plan.hexagons[1].color, Color::new(1, 2, 3, 0));
}

#[test]
fn plan_frame_errors() {
    let frame = plain_frame(20, 20);
    assert_eq!(plan_frame(&frame, 0, true, Color::grey()).err(), Some(GridError::NonPositiveRadius));
    assert_eq!(plan_frame(&frame, i32::MAX / 2, true, Color::grey()).err(), Some(GridError::OutOfRange));
}

#[test]
fn loop_decisions() {
    assert_eq!(next_action(LoopEvent::Captured { width: 0 }), LoopAction::BackOff);
    assert_eq!(next_action(LoopEvent::Captured { width: 640 }), LoopAction::Render);
    assert_eq!(next_action(LoopEvent::KeyPolled { key: 27 }), LoopAction::Stop);
    assert_eq!(next_action(LoopEvent::KeyPolled { key: -1 }), LoopAction::NextFrame);
    assert_eq!(next_action(LoopEvent::KeyPolled { key: 0 }), LoopAction::NextFrame);
}
