//! The compositor's state and what changes it.

pub mod entering_laws;
pub mod focus;
pub mod fullscreen;
pub mod fullscreen_laws;
pub mod gathering;
pub mod interactive;
pub mod interactive_laws;
pub mod invariants;
pub mod keeping;
pub mod keyboard;
pub mod laws;
pub mod layout;
pub mod lifecycle;
pub mod lists;
pub mod placement;
pub mod placing_laws;
pub mod raven;
pub mod rule_laws;
pub mod rules;
pub mod settling;
pub mod showing;
pub mod space;
pub mod staying;
pub mod switching_laws;
pub mod tiling_laws;
pub mod toggling_laws;
pub mod toplevel;
pub mod windows;
pub mod workspace_laws;
pub mod workspaces;
