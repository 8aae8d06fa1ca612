//! Verified discrete core of a small sphere ray tracer: the layout of the
//! pixel buffer and the loop that fills it, the choice of the nearest
//! intersection along a ray, and the encoding of a finished frame.

pub mod encode;
pub mod frame;
pub mod nearest;
