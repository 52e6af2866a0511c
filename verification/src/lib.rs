//! Verified core of a tiled ray-casting renderer: the raster is cut into
//! dispatch-sized tiles of primary rays, the tiles travel through a
//! producer / compute-adapter / collector pipeline, and the colours that
//! come back are gathered on a canvas.

pub mod animation;
pub mod canvas;
pub mod geometry;
pub mod noise;
pub mod pipeline;
pub mod raster;
pub mod ray;
pub mod scene;
pub mod square;
