//! Summarization middleware: when the conversation grows past a limit, the
//! older messages are replaced by a summary and the recent ones kept.

use vstd::prelude::*;
use vstd::string::*;
use crate::messages::{role_name, Message, MessageType};
use crate::text::push_string;

verus! {

/// A size of conversation: a number of estimated tokens, of messages, or of
/// content bytes.
#[derive(Debug, Clone, Copy, PartialEq, Eq, Structural)]
pub enum ContextLimit {
    /// Estimated tokens, about four bytes each.
    Tokens(usize),
    /// Messages.
    Messages(usize),
    /// Bytes of content.
    Bytes(usize),
}

/// The byte length of a text.
pub open spec fn byte_len(s: String) -> nat {
    vstd::utf8::encode_utf8(s@).len()
}

/// The sum over `v[0..n)` of each content's bytes divided by `d`.
pub open spec fn content_sum(v: Seq<Message>, d: nat, n: nat) -> nat
    decreases n,
{
    if n == 0 || n > v.len() {
        0
    } else {
        content_sum(v, d, (n - 1) as nat) + byte_len(v[n - 1].content) / d
    }
}

/// Whether a conversation has grown past the limit.
pub open spec fn past_limit(limit: ContextLimit, v: Seq<Message>) -> bool {
    match limit {
        ContextLimit::Messages(max) => v.len() > max,
        ContextLimit::Tokens(max) => content_sum(v, 4, v.len()) > max,
        ContextLimit::Bytes(max) => content_sum(v, 1, v.len()) > max,
    }
}

/// Where the kept part of a conversation starts when the last `keep`
/// messages are kept, moved back so that tool results stay with the AI
/// message they answer; 0 when nothing is left to summarize.
pub open spec fn keep_boundary(v: Seq<Message>, keep: nat) -> nat {
    if v.len() <= keep {
        0
    } else {
        back_over_tools(v, (v.len() - keep) as nat)
    }
}

/// `b`, moved back over tool messages.
pub open spec fn back_over_tools(v: Seq<Message>, b: nat) -> nat
    decreases b,
{
    if b == 0 || b >= v.len() {
        b
    } else if v[b as int].message_type == MessageType::Tool {
        back_over_tools(v, (b - 1) as nat)
    } else {
        b
    }
}

/// `role: content` for each of `v[0..n)`, one per line.
pub open spec fn transcript(v: Seq<Message>, n: nat) -> Seq<char>
    decreases n,
{
    if n == 0 || n > v.len() {
        Seq::<char>::empty()
    } else if n == 1 {
        role_name(v[0].message_type) + ": "@ + v[0].content@
    } else {
        transcript(v, (n - 1) as nat) + "\n"@ + role_name(v[n - 1].message_type) + ": "@ + v[n
            - 1].content@
    }
}

/// The default prompt of the summarizing model.
pub open spec fn default_summary_prompt() -> Seq<char> {
    "You are a conversation summarizer. Summarize the following conversation concisely but thoroughly. Preserve all key information including: decisions made, tool results, important facts, user preferences, and any pending tasks or open questions. Focus on information that would be needed to continue the conversation effectively."@
}

/// The settings of summarization.
#[derive(Debug, Clone)]
pub struct SummarizationConfig {
    /// When to summarize.
    pub trigger: ContextLimit,
    /// How many recent messages to keep.
    pub keep: ContextLimit,
    /// The prompt of the summarizing model.
    pub summary_prompt: String,
}

impl Default for SummarizationConfig {
    /// Summarizing past three quarters of a window of about 100 000 content
    /// bytes, keeping the last 10 messages, with the default prompt.
    fn default() -> (r: Self)
        ensures
            r.trigger == ContextLimit::Bytes(75000),
            r.keep == ContextLimit::Messages(10),
            r.summary_prompt@ == default_summary_prompt(),
    {
        SummarizationConfig {
            trigger: ContextLimit::Bytes(75000),
            keep: ContextLimit::Messages(10),
            summary_prompt: String::from_str(
                "You are a conversation summarizer. Summarize the following conversation concisely but thoroughly. Preserve all key information including: decisions made, tool results, important facts, user preferences, and any pending tasks or open questions. Focus on information that would be needed to continue the conversation effectively.",
            ),
        }
    }
}

/// Middleware that summarizes the older part of a long conversation.
pub struct SummarizationMiddleware {
    /// The settings.
    pub config: SummarizationConfig,
}

impl Default for SummarizationMiddleware {
    /// A middleware with the default settings.
    fn default() -> (r: Self)
        ensures
            r.config.trigger == ContextLimit::Bytes(75000),
            r.config.keep == ContextLimit::Messages(10),
            r.config.summary_prompt@ == default_summary_prompt(),
    {
        SummarizationMiddleware { config: SummarizationConfig::default() }
    }
}

impl SummarizationMiddleware {
    /// A middleware with the given settings.
    pub fn new(config: SummarizationConfig) -> (r: Self)
        ensures
            r.config == config,
    {
        SummarizationMiddleware { config }
    }

    /// The middleware's name.
    pub fn name(&self) -> (r: &'static str)
        ensures
            r@ == "SummarizationMiddleware"@,
    {
        "SummarizationMiddleware"
    }

    /// How many recent messages are kept: the message count of the `keep`
    /// setting, 10 for the other kinds.
    pub fn keep_count(&self) -> (r: usize)
        ensures
            r == match self.config.keep {
                ContextLimit::Messages(n) => n,
                _ => 10,
            },
    {
        match self.config.keep {
            ContextLimit::Messages(n) => n,
            _ => 10,
        }
    }

    /// Whether the conversation has grown past the trigger.
    pub fn should_trigger(&self, messages: &[Message]) -> (r: bool)
        ensures
            r == past_limit(self.config.trigger, messages@),
    {
        match self.config.trigger {
            ContextLimit::Messages(max) => messages.len() > max,
            ContextLimit::Tokens(max) => content_total(messages, 4) > max as u128,
            ContextLimit::Bytes(max) => content_total(messages, 1) > max as u128,
        }
    }

    /// Where the kept part starts: the last `keep_count` messages are kept,
    /// and a tool result at the boundary stays with its AI message.
    pub fn compute_keep_boundary(&self, messages: &[Message], keep_count: usize) -> (r: usize)
        requires
            keep_count > 0 || messages@.len() == 0,
        ensures
            r == keep_boundary(messages@, keep_count as nat),
    {
        if messages.len() <= keep_count {
            return 0;
        }
        let mut boundary = messages.len() - keep_count;
        while boundary > 0
            invariant
                boundary < messages@.len(),
                back_over_tools(messages@, boundary as nat) == keep_boundary(
                    messages@,
                    keep_count as nat,
                ),
            decreases boundary,
        {
            if messages[boundary].message_type == MessageType::Tool {
                boundary = boundary - 1;
            } else {
                return boundary;
            }
        }
        boundary
    }

    /// The conversation as text, `role: content` per line.
    pub fn fallback_summarize(&self, messages: &[Message]) -> (r: String)
        ensures
            r@ == transcript(messages@, messages@.len()),
    {
        let mut out = String::new();
        let mut i: usize = 0;
        while i < messages.len()
            invariant
                i <= messages@.len(),
                out@ == transcript(messages@, i as nat),
            decreases messages.len() - i,
        {
            if i > 0 {
                out.append("\n");
            }
            out.append(messages[i].message_type.as_str());
            out.append(": ");
            push_string(&mut out, &messages[i].content);
            i = i + 1;
        }
        out
    }

    /// The request sent to the summarizing model about `messages`.
    pub fn summary_request(&self, messages: &[Message]) -> (r: Vec<Message>)
        ensures
            r@.len() == 2,
            r@[0].message_type == MessageType::System,
            r@[0].content@ == self.config.summary_prompt@,
            r@[1].message_type == MessageType::Human,
            r@[1].content@ == "Please summarize the following conversation:\n\n"@ + transcript(
                messages@,
                messages@.len(),
            ),
    {
        let mut text = String::from_str("Please summarize the following conversation:\n\n");
        let t = self.fallback_summarize(messages);
        push_string(&mut text, &t);
        let mut v: Vec<Message> = Vec::new();
        v.push(Message::system(self.config.summary_prompt.as_str()));
        v.push(Message::human(text.as_str()));
        v
    }

    /// The conversation after summarizing: one system message with the
    /// summary, then the kept messages from `boundary` on.
    pub fn summarized(&self, messages: Vec<Message>, boundary: usize, summary: &str) -> (r: Vec<Message>)
        requires
            boundary <= messages@.len(),
        ensures
            r@.len() == messages@.len() - boundary + 1,
            r@[0].message_type == MessageType::System,
            r@[0].content@ == "[Summary of previous conversation]\n"@ + summary@,
            r@.subrange(1, r@.len() as int) == messages@.subrange(boundary as int, messages@.len() as int),
    {
        let mut text = String::from_str("[Summary of previous conversation]\n");
        text.append(summary);
        let mut out: Vec<Message> = Vec::new();
        out.push(Message::system(text.as_str()));
        let mut rest = messages;
        let mut kept = rest.split_off(boundary);
        out.append(&mut kept);
        assert(out@.subrange(1, out@.len() as int) =~= messages@.subrange(boundary as int, messages@.len() as int));
        out
    }
}

/// The sum over `v` of each content's bytes divided by `d`.
fn content_total(v: &[Message], d: usize) -> (r: u128)
    requires
        d > 0,
    ensures
        r == content_sum(v@, d as nat, v@.len()),
{
    let mut total: u128 = 0;
    let mut i: usize = 0;
    while i < v.len()
        invariant
            d > 0,
            i <= v@.len(),
            total == content_sum(v@, d as nat, i as nat),
            total <= i * (usize::MAX as nat),
        decreases v.len() - i,
    {
        let n = v[i].content.as_str().as_bytes().len();
        assert(n as nat == byte_len(v@[i as int].content));
        let part = n / d;
        assert(part <= usize::MAX);
        assert(total + part <= (i + 1) * (usize::MAX as nat)) by (nonlinear_arith)
            requires
                total <= i * (usize::MAX as nat),
                part <= usize::MAX,
        ;
        assert((i + 1) * (usize::MAX as nat) <= u128::MAX) by (nonlinear_arith)
            requires
                i < usize::MAX,
        ;
        total = total + part as u128;
        i = i + 1;
    }
    total
}

} // verus!
