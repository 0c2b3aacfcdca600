//! A hexagonal mosaic over video frames.
//!
//! `geometry` holds points and the corners of one hexagon; `grid` lays out
//! the 37 hexagon centres around a focal point; `sample` reads a colour under
//! each centre; `reflection` reflects centres across a vertical axis; `compose`
//! turns centres and colours into the hexagons to draw on a frame.

pub mod compose;
pub mod geometry;
pub mod grid;
pub mod reflection;
pub mod sample;
