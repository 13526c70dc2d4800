//! Session coordination for long-running, interruptible writing sessions
//! against a version-controlled book repository.

pub mod text;
pub mod context;
pub mod instructions;
pub mod config;
pub mod state;
pub mod lock;
pub mod clock;
pub mod progress;
pub mod git;
pub mod session;
pub mod maintenance;
pub mod init;
