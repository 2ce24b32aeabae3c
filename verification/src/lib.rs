//! Contribution reporting around git: which command line asks for what,
//! where git runs, how the API URL and key are resolved and saved, and when
//! and where a contribution report goes.

pub mod cli;
pub mod config;
pub mod git_context;
pub mod git_exec;
pub mod reporter;
pub mod text;
