//! A tmux command-line compatibility layer for zellij.
pub mod cli;
pub mod error;
pub mod idmap;
pub mod text;
pub mod search;
pub mod zellij;
pub mod format;
pub mod env;
pub mod exchange;
pub mod session;
pub mod cmd;
