//! Multi-channel true signed distance fields: the integer core of the edge
//! colouring (channel masks, seed extraction, the colouring plan of each
//! contour), the order in which a contour's edges are visited by the distance
//! evaluation, and the error type of the windowing layer.

pub mod color;
pub mod coloring;
pub mod contour;
pub mod error;
