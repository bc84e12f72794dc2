//! Badge canvas compositing library.
//!
//! Turns a profile's achievement badges into a single composited canvas
//! image: it resolves each badge's destination on the canvas, decodes the
//! fetched image bytes under a format-dependent policy, generates the
//! background (a procedural grid or a tiled bitmap pattern), overlays the
//! decoded badges, and serializes the result.  Network and file work stay
//! outside this crate; every function here is verified.

pub mod models;
pub mod position;
pub mod background;
pub mod canvas;
pub mod compose;
pub mod decode;
pub mod encode;
pub mod run;
pub mod sched;
pub mod hexcolor;
pub mod text;

use vstd::prelude::*;

verus! {

/// Width of the output canvas in pixels.
pub const CANVAS_WIDTH: usize = 440;

/// Height of the output canvas in pixels.
pub const CANVAS_HEIGHT: usize = 100;

} // verus!
