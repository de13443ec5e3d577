//! tuitree: the state, rules and texts of a terminal dashboard for git worktrees and GitHub
//! pull requests.
pub mod app;
pub mod cmd;
pub mod config;
pub mod gh;
pub mod git;
pub mod model;
pub mod paths;
pub mod text;
pub mod ui;
pub mod worker;
