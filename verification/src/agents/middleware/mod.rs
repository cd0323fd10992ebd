//! Middleware that inspects and rewrites agent traffic.

pub mod execution;
pub mod file_search;
pub mod human_in_the_loop;
pub mod pii;
pub mod summarization;
pub mod redaction;
pub mod retry;
pub mod todo;
pub mod tool_emulator;
pub mod types;
