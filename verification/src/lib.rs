//! The decisions of the Raven Wayland compositor: configuration, workspaces, layout, focus,
//! fullscreen, window rules, output setup and the commands it spawns.

pub mod backend;
pub mod cli;
pub mod config;
pub mod cursor;
pub mod errors;
pub mod geometry;
pub mod handlers;
pub mod input;
pub mod ipc;
pub mod numbers;
pub mod protocols;
pub mod render_helpers;
pub mod report_laws;
pub mod session;
pub mod state;
pub mod text;

pub use errors::CompositorError;
