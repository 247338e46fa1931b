//! The command line: what it accepts, what it comes to, and how it ends.

pub mod args;
pub mod commands;
pub mod dispatch;
pub mod exit;
