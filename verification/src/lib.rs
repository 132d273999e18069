//! Wraps an external command: resolves a small key-value configuration,
//! runs the command, and summarizes the run in a push notification.
//! The verified core covers configuration parsing and lookup, the
//! config-file search precedence, message construction, and the
//! orchestrator's state transitions.

pub mod config;
pub mod message;
pub mod orchestrator;
pub mod search;
pub mod text;
