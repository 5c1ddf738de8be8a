//! Help with drawing.

pub mod bits;
pub mod solid_color;
