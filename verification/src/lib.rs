//! Conservative cleanup of stale Git worktrees.
pub mod cleanup;
pub mod cli;
pub mod command;
pub mod config;
pub mod decision;
pub mod discovery;
pub mod filepath;
pub mod flow;
pub mod herdr;
pub mod inspection;
pub mod integration;
pub mod launch_agent;
pub mod lock;
pub mod output;
pub mod paths;
pub mod run;
pub mod schedule;
pub mod state;
pub mod text;
pub mod textmap;

pub use crate::run::{run, run_with_paths, Error};
