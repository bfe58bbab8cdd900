//! Security gates run before every tool call.
pub mod gate;
