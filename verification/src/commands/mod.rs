//! The decisions of the command handlers.

pub mod config;
pub mod init;
pub mod theme;
