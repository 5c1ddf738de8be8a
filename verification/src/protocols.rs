//! What other programs are told of workspaces and windows.

pub mod ext_workspace;
pub mod foreign_toplevel;
pub mod numbering;
pub mod telling_laws;
pub mod toplevel_client_laws;
pub mod toplevel_clients;
pub mod workspace_client_laws;
pub mod workspace_clients;
