//! Safety-first planning and validation logic for Git worktree workspaces
//! that may run isolated DDEV environments.

pub mod text;
pub mod command;
pub mod paths;
pub mod config;
pub mod git;
pub mod ddev;
pub mod state;
pub mod workspace;
