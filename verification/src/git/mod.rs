//! What okena knows of a git repository: its status, its branches, its CI
//! checks, and the commands it runs.

pub mod branches;
pub mod ci;
pub mod commands;
pub mod commit_log;
pub mod diff;
pub mod paths;
pub mod pull_requests;
pub mod status;
pub mod types;
pub mod worktrees;
