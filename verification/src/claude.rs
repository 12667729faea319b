//! Integration with the first assistant CLI: its command builder and its
//! stream-event handling.

pub mod command;
pub mod runner;
