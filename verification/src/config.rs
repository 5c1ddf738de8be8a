//! The configuration: what the user's Lua file says, checked and put into types.

pub mod action_laws;
pub mod combos;
pub mod floats;
pub mod groups;
pub mod key_laws;
pub mod keybinds;
pub mod modifier_laws;
pub mod monitors;
pub mod runtime;
pub mod scalars;
pub mod setting_laws;
pub mod template;
pub mod values;
pub mod watch;
pub mod window_rules;
