//! Verified core of a desktop notifier for coding-agent sessions: payload
//! validation, configuration defaults, the decisions that drive tmux, the
//! editor and the window manager, and the queue of notifications waiting
//! for the front end.

pub mod text;
pub mod config;
pub mod bridge;
pub mod cli;
pub mod daemon;
pub mod ipc;
