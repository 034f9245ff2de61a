//! Verified core of a tool that streams a local payload into a command
//! running inside a remote container and captures what the command prints.

pub mod command;
pub mod progress;
pub mod pump;
pub mod readiness;
pub mod session;
pub mod sink;
pub mod source;
