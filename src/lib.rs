//! Pieces of a small path tracer that are checked by Verus: the plain-text
//! pixmap format that a render can be written to, and the control logic of
//! the recursive colour integrator (when a path stops, and why).

pub mod decimal;
pub mod formats;
pub mod path;
pub mod ppm;
