//! The error type shared by chains and middleware.

use vstd::prelude::*;

verus! {

/// Errors raised by chains, agents and middleware.
#[derive(Debug, Clone)]
pub enum RustChainError {
    /// A failure that fits no more specific kind.
    Other(String),
    /// A required key was missing from an input or a spec.
    InvalidKey(String),
    /// A value had another type than the one expected.
    TypeMismatch { expected: String, got: String },
    /// Model output could not be parsed.
    OutputParserError { message: String, observation: Option<String>, llm_output: Option<String> },
    /// An agent ran out of iterations or time.
    RecursionLimitExceeded(String),
    /// A tool reported a failure.
    ToolException(String),
    /// An HTTP call answered with an error status.
    HttpError { status: u16, body: String },
}

} // verus!
