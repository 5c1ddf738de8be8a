//! The session around the compositor: the programs it starts, their environment, and the services
//! that are told of it.

pub mod activation;
pub mod commands;
pub mod environment_laws;
pub mod portals;
pub mod satellite;
pub mod spawn;
pub mod spawn_laws;
pub mod startup;
pub mod wallpaper;
