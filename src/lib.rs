//! A minimal ray tracer's integer core: the frame buffer that a render fills,
//! the synchronous and the row-by-row render drivers, and the conversion of a
//! finished frame to the packed pixels that a display window shows.
//!
//! The colour of each pixel comes from a shading function supplied by the
//! caller; everything about where that colour lands in the frame is proved here.

pub mod display;
pub mod frame;
pub mod hex;
pub mod render;
