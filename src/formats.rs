//! The image formats that a render can be written in.

pub use crate::ppm::{Pixel, PPM};
