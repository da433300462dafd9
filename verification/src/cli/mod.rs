//! Command-line handling for the tmux argument vector.
pub mod args;
