//! Agent middleware: PII redaction, file search, task lists and related policies.

pub mod executor;
pub mod middleware;
pub mod structured_output;
