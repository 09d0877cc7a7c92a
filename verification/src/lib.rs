//! branchyard: paired Git worktrees across several repositories, each with
//! its own port slot, variables, Docker Compose services and terminal session.
//!
//! The library holds the decisions and the texts; the command-line program
//! around it performs the file, process and terminal work they describe.
use vstd::prelude::*;

pub mod commands;
pub mod config;
pub mod docker;
pub mod ports;
pub mod terminal;
pub mod text;
pub mod worktree;
