//! Paints a decoded RGB raster as a child window nested inside another
//! window, at a pixel offset derived from a terminal's cell grid.
//!
//! The modules hold the decisions of that pipeline: where the image goes
//! (`geometry`), which colour layout the display uses (`visual`), how pixels
//! are re-encoded for it (`layout`), which window has the focus (`focus`) and
//! in which order the display requests are issued (`display`).

pub mod display;
pub mod focus;
pub mod geometry;
pub mod layout;
pub mod raster;
pub mod visual;
