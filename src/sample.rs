use vstd::prelude::*;

use crate::geometry::{points_view, Point};

verus! {

/// The three channel values of one frame pixel, in the frame's channel order.
#[derive(Clone, Copy, Debug, PartialEq, Eq, Structural)]
pub struct Pixel {
    pub c0: u8,
    pub c1: u8,
    pub c2: u8,
}

/// A colour: three channel values and a fourth, unused channel.
#[derive(Clone, Copy, Debug, PartialEq, Eq, Structural)]
pub struct Color {
    pub c0: u8,
    pub c1: u8,
    pub c2: u8,
    pub c3: u8,
}

/// The colour given where nothing is sampled: all channels zero.
pub open spec fn black_spec() -> Color {
    Color { c0: 0, c1: 0, c2: 0, c3: 0 }
}

/// The default background of a rendered frame: a neutral grey.
pub open spec fn grey_spec() -> Color {
    Color { c0: 192, c1: 192, c2: 192, c3: 0 }
}

impl Color {
    /// A colour from its four channel values.
    pub fn new(c0: u8, c1: u8, c2: u8, c3: u8) -> (r: Color)
        ensures
            r == (Color { c0, c1, c2, c3 }),
    {
        Color { c0, c1, c2, c3 }
    }

    /// The colour given where nothing is sampled.
    pub fn black() -> (r: Color)
        ensures
            r == black_spec(),
    {
        Color { c0: 0, c1: 0, c2: 0, c3: 0 }
    }

    /// The default background colour.
    pub fn grey() -> (r: Color)
        ensures
            r == grey_spec(),
    {
        Color { c0: 192, c1: 192, c2: 192, c3: 0 }
    }
}

/// A frame buffer: `height` rows of `width` pixels, stored row after row.
pub struct Frame {
    pub width: usize,
    pub height: usize,
    pub pixels: Vec<Pixel>,
}

impl Frame {
    /// The pixel store holds exactly one pixel per position.
    pub open spec fn wf(&self) -> bool {
        self.pixels@.len() == self.width * self.height
    }

    /// The pixel at column `x` and row `y`, or `None` outside the frame.
    pub open spec fn pixel_spec(&self, x: int, y: int) -> Option<Pixel> {
        if 0 <= x < self.width && 0 <= y < self.height {
            Some(self.pixels@[y * self.width + x])
        } else {
            None
        }
    }

    /// A frame from its size and its pixels row after row; `None` unless
    /// there is exactly one pixel per position.
    pub fn new(width: usize, height: usize, pixels: Vec<Pixel>) -> (r: Option<Frame>)
        ensures
            r is Some <==> pixels@.len() == width * height,
            r matches Some(f) ==> f.wf() && f.width == width && f.height == height && f.pixels@
                == pixels@,
    {
        let count = pixels.len();
        match width.checked_mul(height) {
            Some(n) => {
                if n == count {
                    Some(Frame { width, height, pixels })
                } else {
                    None
                }
            },
            None => {
                proof {
                    assert(count <= usize::MAX);
                }
                None
            },
        }
    }

    /// Reads the pixel at column `x` and row `y`; `None` where the position
    /// lies outside the frame.
    pub fn pixel(&self, x: i32, y: i32) -> (r: Option<Pixel>)
        requires
            self.wf(),
        ensures
            r == self.pixel_spec(x as int, y as int),
    {
        if x < 0 || y < 0 || x as usize >= self.width || y as usize >= self.height {
            return None;
        }
        let col = x as usize;
        let row = y as usize;
        let count = self.pixels.len();
        proof {
            let w = self.width as int;
            let h = self.height as int;
            assert(row * w + col < w * h) by (nonlinear_arith)
                requires
                    0 <= col < w,
                    0 <= row < h,
            ;
            assert(0 <= row * w <= row * w + col) by (nonlinear_arith)
                requires
                    0 <= col,
                    0 <= row,
                    0 <= w,
            ;
            assert(count == w * h);
        }
        Some(self.pixels[row * self.width + col])
    }
}

/// The colour read from a pixel, with the unused channel zero; black where the
/// read failed.
pub open spec fn read_color(p: Option<Pixel>) -> Color {
    match p {
        Some(px) => Color { c0: px.c0, c1: px.c1, c2: px.c2, c3: 0 },
        None => black_spec(),
    }
}

/// The colour sampled for each point: black for the focal point at index 0,
/// the colour read at the point for every other index.
pub open spec fn samples_spec(frame: Frame, pts: Seq<(int, int)>) -> Seq<Color> {
    Seq::new(
        pts.len(),
        |i: int|
            if i == 0 {
                black_spec()
            } else {
                read_color(frame.pixel_spec(pts[i].0, pts[i].1))
            },
    )
}

/// The colour of the frame at `pt`, or black where the point lies outside it.
pub fn color_at(frame: &Frame, pt: Point) -> (r: Color)
    requires
        frame.wf(),
    ensures
        r == read_color(frame.pixel_spec(pt.x as int, pt.y as int)),
{
    match frame.pixel(pt.x, pt.y) {
        Some(p) => Color { c0: p.c0, c1: p.c1, c2: p.c2, c3: 0 },
        None => Color::black(),
    }
}

/// One colour per point, index for index: black for the focal point at index
/// 0, whatever the frame holds there, and the frame's colour at every other
/// point (black where it lies outside the frame).
pub fn sample_at(frame: &Frame, points: &Vec<Point>) -> (r: Vec<Color>)
    requires
        frame.wf(),
    ensures
        r@ == samples_spec(*frame, points_view(points@)),
        r@.len() == points@.len(),
        points@.len() > 0 ==> r@[0] == black_spec(),
{
    let ghost want = samples_spec(*frame, points_view(points@));
    let mut r: Vec<Color> = Vec::new();
    let mut i: usize = 0;
    while i < points.len()
        invariant
            frame.wf(),
            i <= points.len(),
            want == samples_spec(*frame, points_view(points@)),
            r@ =~= want.take(i as int),
        decreases points.len() - i,
    {
        let color = if i == 0 {
            Color::black()
        } else {
            color_at(frame, points[i])
        };
        r.push(color);
        assert(r@ =~= want.take(i + 1));
        i += 1;
    }
    assert(want.take(points.len() as int) =~= want);
    r
}

/// Sampling depends on the frame only through the pixels under the points
/// other than the focal point: two frames that agree there give the same
/// samples, so sampling one frame twice gives the same samples.
pub proof fn lemma_sampling_deterministic(f: Frame, g: Frame, pts: Seq<(int, int)>)
    requires
        forall|i: int|
            1 <= i < pts.len() ==> #[trigger] f.pixel_spec(pts[i].0, pts[i].1) == g.pixel_spec(
                pts[i].0,
                pts[i].1,
            ),
    ensures
        samples_spec(f, pts) == samples_spec(g, pts),
{
    assert(samples_spec(f, pts) =~= samples_spec(g, pts));
}

/// The sample of the focal point is black whatever either frame holds.
pub proof fn lemma_focal_sample_black(f: Frame, g: Frame, pts: Seq<(int, int)>)
    requires
        pts.len() > 0,
    ensures
        samples_spec(f, pts)[0] == black_spec(),
        samples_spec(f, pts)[0] == samples_spec(g, pts)[0],
{
}

} // verus!
