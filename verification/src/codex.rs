//! Integration with the second assistant CLI: its command builder and its
//! stream-event handling.

pub mod command;
pub mod runner;
