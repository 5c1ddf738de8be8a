//! What the compositor does when a client asks for something.

pub mod compositor;
pub mod foreign;
pub mod grabs;
pub mod laws;
pub mod layer_shell;
pub mod request_laws;
pub mod retiling_laws;
pub mod xdg_shell;
