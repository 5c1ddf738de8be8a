//! What keys and the pointer do.

pub mod deed_laws;
pub mod keys;
pub mod layers;
pub mod pointer;
pub mod pointer_laws;
