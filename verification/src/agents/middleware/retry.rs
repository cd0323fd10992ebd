//! Retrying failed model calls: when to try again, and what is answered once
//! the retries are spent.

use vstd::prelude::*;
use vstd::string::*;
use crate::error::RustChainError;
use crate::messages::{Message, MessageType};
use crate::text::{contains_seq, contains_str, decimal, push_string, usize_to_string};

verus! {

/// Strategy for handling failures after retries are exhausted.
#[derive(Debug, Clone, Copy, PartialEq, Eq, Structural)]
pub enum OnFailure {
    /// Continue with an error message injected into the conversation.
    Continue,
    /// Re-raise the error.
    Error,
}

/// Whether some of `subs` occurs in `msg`.
pub open spec fn mentions_any(msg: Seq<char>, subs: Seq<String>) -> bool {
    exists|i: int| 0 <= i < subs.len() && contains_seq(msg, (#[trigger] subs[i])@)
}

/// Whether an error message names one of the given substrings; this is
/// how `ErrorContains` conditions decide.
pub fn message_contains_any(msg: &str, substrings: &[String]) -> (r: bool)
    ensures
        r == mentions_any(msg@, substrings@),
{
    let mut i: usize = 0;
    while i < substrings.len()
        invariant
            i <= substrings@.len(),
            forall|k: int| 0 <= k < i ==> !contains_seq(msg@, (#[trigger] substrings@[k])@),
        decreases substrings.len() - i,
    {
        if contains_str(msg, substrings[i].as_str()) {
            return true;
        }
        i = i + 1;
    }
    false
}

/// Whether attempt `attempt` (from 0) is followed by another one: the error
/// must be retryable and attempts must be left.
pub fn retry_again(attempt: usize, max_retries: usize, retryable: bool) -> (r: bool)
    ensures
        r == (retryable && attempt < max_retries),
{
    retryable && attempt < max_retries
}

/// The message a model call that failed for good is answered with.
pub open spec fn failure_text(max_retries: usize, error: Seq<char>) -> Seq<char> {
    "Model call failed after "@ + decimal(max_retries as nat) + " retries: "@ + error
}

/// What a model call that failed for good gives: the error itself under
/// `Error`, or an AI message that reports it under `Continue`.
pub fn exhausted(
    on_failure: OnFailure,
    max_retries: usize,
    error: RustChainError,
    error_text: &str,
) -> (r: Result<Message, RustChainError>)
    ensures
        on_failure == OnFailure::Error ==> r == Err::<Message, RustChainError>(error),
        on_failure == OnFailure::Continue ==> (r matches Ok(m) && m.message_type == MessageType::Ai
            && m.content@ == failure_text(max_retries, error_text@)),
{
    match on_failure {
        OnFailure::Error => Err(error),
        OnFailure::Continue => {
            let mut text = String::from_str("Model call failed after ");
            let n = usize_to_string(max_retries);
            push_string(&mut text, &n);
            text.append(" retries: ");
            text.append(error_text);
            Ok(Message::ai(text.as_str()))
        },
    }
}

} // verus!
