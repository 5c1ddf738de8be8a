//! The screen: outputs, their modes, and the frames drawn on them.

pub mod drawing_laws;
pub mod elements;
pub mod frame_laws;
pub mod output_laws;
pub mod outputs;
pub mod redraw;
pub mod scanout;
