use hex_mosaic::geometry::Point;
use hex_mosaic::grid::make_grid;
use hex_mosaic::sample::{color_at, sample_at, Color, Frame, Pixel};

fn px(c0: u8, c1: u8, c2: u8) -> Pixel {
    Pixel { c0, c1, c2 }
}

fn frame_with(width: usize, height: usize, set: &[(usize, usize, Pixel)]) -> Frame {
    let mut pixels = vec![px(1, 2, 3); width * height];
    for &(x, y, p) in set {
        pixels[y * width + x] = p;
    }
    Frame::new(width, height, pixels).unwrap()
}

#[test]
fn sampling_scenario() {
    let frame = frame_with(200, 200, &[(155, 4, px(10, 20, 30)), (100, 100, px(200, 201, 202))]);
    let grid = make_grid(100, 100, 64);
    let colors = sample_at(&frame, &grid);
    assert_eq!(colors.len(), 37);
    assert_eq!(colors[1], Color::new(10, 20, 30, 0));
    assert_eq!(colors[0], Color::new(0, 0, 0, 0));
    assert_eq!(colors[0], Color::black());
}

#[test]
fn sampling_out_of_frame_is_black() {
    let frame = frame_with(200, 200, &[]);
    let grid = make_grid(100, 100, 64);
    let colors = sample_at(&frame, &grid);
    // point 7 is (100, -92), above the frame
    assert_eq!(grid[7], Point { x: 100, y: -92 });
    assert_eq!(colors[7], Color::black());
    // point 5 is (-10, 100), left of the frame
    assert_eq!(grid[5], Point { x: -10, y: 100 });
    assert_eq!(colors[5], Color::black());
    // point 10 is (320, 100), right of the frame
    assert_eq!(colors[10], Color::black());
    // point 3 is (155, 196), inside it
    assert_eq!(grid[3], Point { x: 155, y: 196 });
    assert_eq!(colors[3], Color::new(1, 2, 3, 0));
}

#[test]
fn sampling_twice_gives_same_samples() {
    let frame = frame_with(400, 300, &[(155, 4, px(9, 8, 7)), (265, 4, px(4, 5, 6))]);
    let grid = make_grid(100, 100, 64);
    assert_eq!(sample_at(&frame, &grid), sample_at(&frame, &grid));
}

#[test]
fn focal_sample_ignores_frame() {
    let a = frame_with(200, 200, &[(100, 100, px(255, 255, 255))]);
    let b = frame_with(200, 200, &[(100, 100, px(7, 7, 7))]);
    let grid = make_grid(100, 100, 64);
    assert_eq!(sample_at(&a, &grid)[0], Color::black());
    assert_eq!(sample_at(&b, &grid)[0], Color::black());
}

#[test]
fn color_at_reads_pixel_or_black() {
    let frame = frame_with(3, 2, &[(2, 1, px(10, 20, 30))]);
    assert_eq!(color_at(&frame, Point { x: 2, y: 1 }), Color::new(10, 20, 30, 0));
    assert_eq!(color_at(&frame, Point { x: 0, y: 0 }), Color::new(1, 2, 3, 0));
    assert_eq!(color_at(&frame, Point { x: 3, y: 1 }), Color::black());
    assert_eq!(color_at(&frame, Point { x: 2, y: 2 }), Color::black());
    assert_eq!(color_at(&frame, Point { x: -1, y: 0 }), Color::black());
    assert_eq!(color_at(&frame, Point { x: 0, y: -1 }), Color::black());
}

#[test]
fn frame_needs_one_pixel_per_position() {
    assert!(Frame::new(3, 2, vec![px(0, 0, 0); 6]).is_some());
    assert!(Frame::new(3, 2, vec![px(0, 0, 0); 5]).is_none());
    assert!(Frame::new(0, 0, Vec::new()).is_some());
    assert!(Frame::new(usize::MAX, 2, Vec::new()).is_none());
}

#[test]
fn pixel_read() {
    let frame = frame_with(4, 3, &[(3, 2, px(5, 6, 7))]);
    assert_eq!(frame.pixel(3, 2), Some(px(5, 6, 7)));
    assert_eq!(frame.pixel(4, 2), None);
    assert_eq!(frame.pixel(-1, 2), None);
}

#[test]
fn sampling_empty_grid() {
    let frame = frame_with(2, 2, &[]);
    assert!(sample_at(&frame, &Vec::new()).is_empty());
}

#[test]
fn named_colors() {
    assert_eq!(Color::grey(), Color::new(192, 192, 192, 0));
    assert_eq!(Color::black(), Color { c0: 0, c1: 0, c2: 0, c3: 0 });
}
