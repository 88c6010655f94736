//! The daemon's side of a session.
pub mod backlog;
pub mod daemon;
pub mod pty;
pub mod reader;
