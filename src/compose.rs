use vstd::prelude::*;

use crate::geometry::{all_fit, fits_i32, hexagon_fits, hexagon_spec, hexagon_vertices, points_view, Point};
use crate::grid::{checked_grid, grid_spec, GridError};
use crate::reflection::{mirror, mirror_fits, mirror_spec};
use crate::sample::{sample_at, samples_spec, Color, Frame};

verus! {

/// One filled hexagon to draw: its corners in drawing order and its colour.
pub struct HexDraw {
    pub vertices: Vec<Point>,
    pub color: Color,
}

/// Whether `draws` holds, index for index, the hexagon of the given radius
/// around each position, filled with the colour of the same index.
pub open spec fn composes(
    draws: Seq<HexDraw>,
    positions: Seq<(int, int)>,
    colors: Seq<Color>,
    radius: int,
) -> bool {
    &&& draws.len() == positions.len()
    &&& forall|i: int|
        0 <= i < draws.len() ==> points_view((#[trigger] draws[i]).vertices@) == hexagon_spec(
            positions[i].0,
            positions[i].1,
            radius,
        ) && draws[i].color == colors[i]
}

/// Whether the hexagon around every position has `i32` corners.
pub open spec fn hexagons_fit_spec(positions: Seq<(int, int)>, radius: int) -> bool {
    forall|i: int|
        0 <= i < positions.len() ==> all_fit(
            hexagon_spec((#[trigger] positions[i]).0, positions[i].1, radius),
        )
}

/// Whether the hexagon around every point has `i32` corners.
pub fn hexagons_fit(positions: &Vec<Point>, radius: i32) -> (b: bool)
    requires
        radius > 0,
    ensures
        b == hexagons_fit_spec(points_view(positions@), radius as int),
{
    let ghost pv = points_view(positions@);
    let mut i: usize = 0;
    while i < positions.len()
        invariant
            radius > 0,
            i <= positions.len(),
            pv == points_view(positions@),
            forall|k: int|
                0 <= k < i ==> all_fit(hexagon_spec((#[trigger] pv[k]).0, pv[k].1, radius as int)),
        decreases positions.len() - i,
    {
        assert(pv[i as int] == positions@[i as int]@);
        if !hexagon_fits(positions[i], radius) {
            return false;
        }
        i += 1;
    }
    true
}

/// The hexagons to draw, one per position and in index order: hexagon `i` has
/// the given radius, is centred at `positions[i]` and is filled with
/// `colors[i]`.
pub fn compose(positions: &Vec<Point>, colors: &Vec<Color>, radius: i32) -> (r: Vec<HexDraw>)
    requires
        radius > 0,
        positions@.len() == colors@.len(),
        hexagons_fit_spec(points_view(positions@), radius as int),
    ensures
        composes(r@, points_view(positions@), colors@, radius as int),
{
    let ghost pv = points_view(positions@);
    let mut r: Vec<HexDraw> = Vec::new();
    let mut i: usize = 0;
    while i < positions.len()
        invariant
            radius > 0,
            i <= positions.len(),
            positions@.len() == colors@.len(),
            pv == points_view(positions@),
            hexagons_fit_spec(pv, radius as int),
            r@.len() == i,
            forall|k: int|
                0 <= k < i ==> points_view((#[trigger] r@[k]).vertices@) == hexagon_spec(
                    pv[k].0,
                    pv[k].1,
                    radius as int,
                ) && r@[k].color == colors@[k],
        decreases positions.len() - i,
    {
        let center = positions[i];
        assert(pv[i as int] == center@);
        let vertices = hexagon_vertices(center, radius);
        r.push(HexDraw { vertices, color: colors[i] });
        i += 1;
    }
    r
}

/// The vertices drawn for hexagon `i` depend only on its position and the
/// radius: two compositions that place hexagons `i` and `j` at the same
/// position draw them with the same corners, whatever else they hold and in
/// whatever order they are drawn.
pub proof fn lemma_hexagon_depends_on_position_only(
    a: Seq<HexDraw>,
    pa: Seq<(int, int)>,
    ca: Seq<Color>,
    i: int,
    b: Seq<HexDraw>,
    pb: Seq<(int, int)>,
    cb: Seq<Color>,
    j: int,
    radius: int,
)
    requires
        composes(a, pa, ca, radius),
        composes(b, pb, cb, radius),
        0 <= i < a.len(),
        0 <= j < b.len(),
        pa[i] == pb[j],
    ensures
        points_view(a[i].vertices@) == points_view(b[j].vertices@),
{
    assert(points_view(a[i].vertices@) == hexagon_spec(pa[i].0, pa[i].1, radius));
    assert(points_view(b[j].vertices@) == hexagon_spec(pb[j].0, pb[j].1, radius));
}

/// What to draw on a frame: the background over the whole frame, then the
/// hexagons in order.
pub struct RenderPlan {
    pub background: Color,
    pub width: usize,
    pub height: usize,
    pub hexagons: Vec<HexDraw>,
}

/// The grid laid around the centre of a frame of the given size.
pub open spec fn focal_grid(width: int, height: int, radius: int) -> Seq<(int, int)> {
    grid_spec(width / 2, height / 2, radius)
}

/// Where the hexagons are drawn: at the grid points, or at their reflections
/// across the line `x == width`.
pub open spec fn draw_positions(width: int, height: int, radius: int, mirrored: bool) -> Seq<(int, int)> {
    if mirrored {
        mirror_spec(focal_grid(width, height, radius), width)
    } else {
        focal_grid(width, height, radius)
    }
}

/// Whether every coordinate of a frame's plan fits in `i32`.
pub open spec fn plan_fits(width: int, height: int, radius: int, mirrored: bool) -> bool {
    &&& fits_i32(width)
    &&& fits_i32(height)
    &&& all_fit(focal_grid(width, height, radius))
    &&& all_fit(draw_positions(width, height, radius, mirrored))
    &&& hexagons_fit_spec(draw_positions(width, height, radius, mirrored), radius)
}

/// The plan for one frame: the grid around the frame's centre, sampled from
/// the frame, drawn at the grid points (or at their reflections across
/// `x == width` when `mirrored`) over the background colour.
pub fn plan_frame(frame: &Frame, radius: i32, mirrored: bool, background: Color) -> (r: Result<
    RenderPlan,
    GridError,
>)
    requires
        frame.wf(),
    ensures
        radius <= 0 ==> r == Err::<RenderPlan, GridError>(GridError::NonPositiveRadius),
        radius > 0 && !plan_fits(frame.width as int, frame.height as int, radius as int, mirrored)
            ==> r == Err::<RenderPlan, GridError>(GridError::OutOfRange),
        radius > 0 && plan_fits(frame.width as int, frame.height as int, radius as int, mirrored)
            ==> (r matches Ok(plan) && plan.background == background && plan.width == frame.width
            && plan.height == frame.height && composes(
            plan.hexagons@,
            draw_positions(frame.width as int, frame.height as int, radius as int, mirrored),
            samples_spec(*frame, focal_grid(frame.width as int, frame.height as int, radius as int)),
            radius as int,
        )),
{
    if radius <= 0 {
        return Err(GridError::NonPositiveRadius);
    }
    let ghost w = frame.width as int;
    let ghost h = frame.height as int;
    if frame.width > i32::MAX as usize || frame.height > i32::MAX as usize {
        return Err(GridError::OutOfRange);
    }
    let width = frame.width as i32;
    let height = frame.height as i32;
    let points = match checked_grid(width / 2, height / 2, radius) {
        Ok(points) => points,
        Err(e) => {
            return Err(e);
        },
    };
    let colors = sample_at(frame, &points);
    let positions = if mirrored {
        if !mirror_fits(&points, width) {
            return Err(GridError::OutOfRange);
        }
        mirror(&points, width)
    } else {
        points
    };
    assert(points_view(positions@) == draw_positions(w, h, radius as int, mirrored));
    if !hexagons_fit(&positions, radius) {
        return Err(GridError::OutOfRange);
    }
    let hexagons = compose(&positions, &colors, radius);
    Ok(RenderPlan { background, width: frame.width, height: frame.height, hexagons })
}

/// What the frame loop has just observed.
#[derive(Clone, Copy, Debug, PartialEq, Eq, Structural)]
pub enum LoopEvent {
    /// A frame was captured; a width of zero means no frame was ready yet.
    Captured { width: i32 },
    /// The display was polled for a key; a positive code means a key was pressed.
    KeyPolled { key: i32 },
}

/// What the frame loop does next.
#[derive(Clone, Copy, Debug, PartialEq, Eq, Structural)]
pub enum LoopAction {
    /// Wait, then capture again.
    BackOff,
    /// Render and show the captured frame.
    Render,
    /// Capture the next frame.
    NextFrame,
    /// Leave the loop.
    Stop,
}

/// The frame loop's decision after an event: back off on an empty frame,
/// render a real one, stop once a key was pressed, and otherwise go on.
pub fn next_action(event: LoopEvent) -> (a: LoopAction)
    ensures
        event matches LoopEvent::Captured { width } ==> a == (if width == 0 {
            LoopAction::BackOff
        } else {
            LoopAction::Render
        }),
        event matches LoopEvent::KeyPolled { key } ==> a == (if key > 0 {
            LoopAction::Stop
        } else {
            LoopAction::NextFrame
        }),
{
    match event {
        LoopEvent::Captured { width } => {
            if width == 0 {
                LoopAction::BackOff
            } else {
                LoopAction::Render
            }
        },
        LoopEvent::KeyPolled { key } => {
            if key > 0 {
                LoopAction::Stop
            } else {
                LoopAction::NextFrame
            }
        },
    }
}

} // verus!
