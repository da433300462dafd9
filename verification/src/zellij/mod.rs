//! The zellij side: data models of its JSON reports and the typed command
//! requests the shim sends to the `zellij` binary.
pub mod types;
pub mod client;
pub mod runner;
