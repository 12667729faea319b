//! Verified backend core of a desktop mascot assistant.
//!
//! The library holds the logic of the mascot application's backend: building
//! command lines for the two supported assistant CLIs, parsing their
//! line-delimited JSON event streams into one internal event vocabulary,
//! routing events to frontend notifications, and keeping the cross-turn
//! session state. Process spawning and all I/O live outside the library.

pub mod claude;
pub mod claude_command;
pub mod codex;
pub mod json;
pub mod mcp;
pub mod media;
pub mod notify;
pub mod sidecar;
pub mod state;
pub mod text;
