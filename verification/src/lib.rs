//! Building blocks for LLM agent pipelines: PII redaction, prompt and
//! schema rendering, request validation and callback bookkeeping.

pub mod text;
pub mod error;
pub mod json;
pub mod keyed;
pub mod regexes;
pub mod agents;
pub mod messages;
pub mod callbacks;
pub mod chains;
