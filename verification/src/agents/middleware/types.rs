//! The agent state that middleware reads and updates, model responses,
//! and control flow between middleware and the agent loop.

use vstd::prelude::*;
use crate::json::JsonValue;
use crate::keyed::{find_key, lemma_value_at_index, lemma_value_at_push, lemma_value_at_update, unique_keys, value_at};
use crate::messages::Message;
use crate::text::str_eq;

verus! {

/// Destination for middleware-driven control flow.
#[derive(Debug, Clone, Copy, PartialEq, Eq, Structural)]
pub enum JumpTo {
    /// Route to tool execution.
    Tools,
    /// Route back to model invocation.
    Model,
    /// End the agent loop.
    End,
}

/// The name a destination is written with.
pub open spec fn jump_name(j: JumpTo) -> Seq<char> {
    match j {
        JumpTo::Tools => "tools"@,
        JumpTo::Model => "model"@,
        JumpTo::End => "end"@,
    }
}

impl JumpTo {
    /// The name this destination is written with.
    pub fn as_str(&self) -> (r: &'static str)
        ensures
            r@ == jump_name(*self),
    {
        match self {
            JumpTo::Tools => "tools",
            JumpTo::Model => "model",
            JumpTo::End => "end",
        }
    }
}

/// The destination named `s`, if any.
pub open spec fn jump_named(s: Seq<char>) -> Option<JumpTo> {
    if s == "tools"@ {
        Some(JumpTo::Tools)
    } else if s == "model"@ {
        Some(JumpTo::Model)
    } else if s == "end"@ {
        Some(JumpTo::End)
    } else {
        None
    }
}

/// The destination a JSON value reads as: its name as a string, or an
/// object whose one member is named after it and holds null.
pub open spec fn jump_from_json(v: JsonValue) -> Option<JumpTo> {
    match v {
        JsonValue::Str(s) => jump_named(s@),
        JsonValue::Object(m) => if m@.len() == 1 && m@[0].1 is Null {
            jump_named(m@[0].0@)
        } else {
            None
        },
        _ => None,
    }
}

/// The destination named `s`, if any.
fn jump_of_name(s: &str) -> (r: Option<JumpTo>)
    ensures
        r == jump_named(s@),
{
    if str_eq(s, "tools") {
        Some(JumpTo::Tools)
    } else if str_eq(s, "model") {
        Some(JumpTo::Model)
    } else if str_eq(s, "end") {
        Some(JumpTo::End)
    } else {
        None
    }
}

impl JumpTo {
    /// Reads a destination from JSON: its name as a string (`"end"`), or
    /// an object with one null member named after it; nothing for any other
    /// value.
    pub fn from_json(v: &JsonValue) -> (r: Option<JumpTo>)
        ensures
            r == jump_from_json(*v),
    {
        match v {
            JsonValue::Str(s) => jump_of_name(s.as_str()),
            JsonValue::Object(m) => {
                if m.len() == 1 {
                    match &m[0].1 {
                        JsonValue::Null => jump_of_name(m[0].0.as_str()),
                        _ => None,
                    }
                } else {
                    None
                }
            },
            _ => None,
        }
    }
}

/// The state of an agent run that middleware sees and updates.
#[derive(Debug)]
pub struct AgentState {
    /// Conversation history.
    pub messages: Vec<Message>,
    /// Structured response from the model, if any.
    pub structured_response: Option<JsonValue>,
    /// Where to route next, when overridden.
    pub jump_to: Option<JumpTo>,
    /// Extra fields added by middleware, each key once.
    pub extra: Vec<(String, JsonValue)>,
}

impl Default for AgentState {
    /// An empty state.
    fn default() -> (r: Self)
        ensures
            r.messages@.len() == 0,
            r.structured_response is None,
            r.jump_to is None,
            r.extra@.len() == 0,
    {
        AgentState::new(Vec::new())
    }
}

impl AgentState {
    /// A state holding `messages` and nothing else.
    pub fn new(messages: Vec<Message>) -> (r: Self)
        ensures
            r.messages == messages,
            r.structured_response is None,
            r.jump_to is None,
            r.extra@.len() == 0,
    {
        AgentState { messages, structured_response: None, jump_to: None, extra: Vec::new() }
    }

    /// The extra field `key`, if set.
    pub fn get_extra(&self, key: &str) -> (r: Option<&JsonValue>)
        requires
            unique_keys(self.extra@),
        ensures
            match r {
                Some(v) => value_at(self.extra@, key@) == Some(*v),
                None => value_at(self.extra@, key@) is None,
            },
    {
        match find_key(&self.extra, key) {
            Some(i) => {
                proof {
                    lemma_value_at_index(self.extra@, i as int);
                }
                Some(&self.extra[i].1)
            },
            None => None,
        }
    }

    /// Sets the extra field `key` to `value`.
    pub fn set_extra(&mut self, key: &str, value: JsonValue)
        requires
            unique_keys(old(self).extra@),
        ensures
            unique_keys(final(self).extra@),
            final(self).messages == old(self).messages,
            final(self).structured_response == old(self).structured_response,
            final(self).jump_to == old(self).jump_to,
            forall|q: Seq<char>| #[trigger] value_at(final(self).extra@, q) == if q == key@ {
                Some(value)
            } else {
                value_at(old(self).extra@, q)
            },
    {
        let e = (String::from_str(key), value);
        match find_key(&self.extra, key) {
            Some(i) => {
                proof {
                    lemma_value_at_update(self.extra@, i as int, e);
                }
                self.extra.set(i, e);
            },
            None => {
                proof {
                    lemma_value_at_push(self.extra@, e);
                }
                self.extra.push(e);
            },
        }
    }

    /// Merges updates into the state, in order: `jump_to` sets the
    /// destination it reads as (none when it reads as none),
    /// `structured_response` sets the structured response, and any other key
    /// sets that extra field.
    pub fn apply_updates(&mut self, updates: Vec<(String, JsonValue)>)
        requires
            unique_keys(old(self).extra@),
        ensures
            unique_keys(final(self).extra@),
            final(self).messages == old(self).messages,
            final(self).jump_to == jump_after(old(self).jump_to, updates@, updates@.len()),
            final(self).structured_response == structured_after(
                old(self).structured_response,
                updates@,
                updates@.len(),
            ),
            forall|q: Seq<char>| #[trigger] value_at(final(self).extra@, q) == extra_after(
                old(self).extra@,
                updates@,
                updates@.len(),
                q,
            ),
    {
        let ghost all = updates@;
        let ghost start_jump = self.jump_to;
        let ghost start_structured = self.structured_response;
        let ghost start_extra = self.extra@;
        let mut updates = updates;
        let total = updates.len();
        let mut i: usize = 0;
        proof {
            reveal_strlit("jump_to");
            reveal_strlit("structured_response");
            assert("jump_to"@.len() != "structured_response"@.len());
        }
        while updates.len() > 0
            invariant
                all.len() == total,
                "jump_to"@ != "structured_response"@,
                i + updates@.len() == all.len(),
                updates@ == all.subrange(i as int, all.len() as int),
                unique_keys(self.extra@),
                self.messages == old(self).messages,
                self.jump_to == jump_after(start_jump, all, i as nat),
                self.structured_response == structured_after(start_structured, all, i as nat),
                forall|q: Seq<char>| #[trigger] value_at(self.extra@, q) == extra_after(start_extra, all, i as nat, q),
            decreases updates.len(),
        {
            let ghost before = updates@;
            let (key, value) = updates.remove(0);
            assert(all[i as int] == before[0]);
            assert(updates@ =~= all.subrange(i + 1, all.len() as int));
            if str_eq(key.as_str(), "jump_to") {
                self.jump_to = JumpTo::from_json(&value);
            } else if str_eq(key.as_str(), "structured_response") {
                self.structured_response = Some(value);
            } else {
                self.set_extra(key.as_str(), value);
            }
            i = i + 1;
        }
    }
}

/// Whether an update key is one of the state's own fields.
pub open spec fn own_field(k: Seq<char>) -> bool {
    k == "jump_to"@ || k == "structured_response"@
}

/// The destination after the first `n` updates.
pub open spec fn jump_after(start: Option<JumpTo>, ups: Seq<(String, JsonValue)>, n: nat) -> Option<JumpTo>
    decreases n,
{
    if n == 0 || n > ups.len() {
        start
    } else if ups[n - 1].0@ == "jump_to"@ {
        jump_from_json(ups[n - 1].1)
    } else {
        jump_after(start, ups, (n - 1) as nat)
    }
}

/// The structured response after the first `n` updates.
pub open spec fn structured_after(start: Option<JsonValue>, ups: Seq<(String, JsonValue)>, n: nat) -> Option<JsonValue>
    decreases n,
{
    if n == 0 || n > ups.len() {
        start
    } else if ups[n - 1].0@ == "structured_response"@ {
        Some(ups[n - 1].1)
    } else {
        structured_after(start, ups, (n - 1) as nat)
    }
}

/// The extra field `q` after the first `n` updates.
pub open spec fn extra_after(
    start: Seq<(String, JsonValue)>,
    ups: Seq<(String, JsonValue)>,
    n: nat,
    q: Seq<char>,
) -> Option<JsonValue>
    decreases n,
{
    if n == 0 || n > ups.len() {
        value_at(start, q)
    } else if ups[n - 1].0@ == q && !own_field(q) {
        Some(ups[n - 1].1)
    } else {
        extra_after(start, ups, (n - 1) as nat, q)
    }
}

/// What a model call returned.
#[derive(Debug)]
pub struct ModelResponse {
    /// The messages returned, usually one AI message.
    pub result: Vec<Message>,
    /// The structured output, when a response format was given.
    pub structured_response: Option<JsonValue>,
}

impl ModelResponse {
    /// A response of `result` without structured output.
    pub fn new(result: Vec<Message>) -> (r: Self)
        ensures
            r.result == result,
            r.structured_response is None,
    {
        ModelResponse { result, structured_response: None }
    }

    /// Sets the structured output.
    pub fn with_structured_response(self, response: JsonValue) -> (r: Self)
        ensures
            r.result == self.result,
            r.structured_response == Some(response),
    {
        ModelResponse { structured_response: Some(response), ..self }
    }
}

/// A model response with state updates to apply after the model step.
#[derive(Debug)]
pub struct ExtendedModelResponse {
    /// The response itself.
    pub model_response: ModelResponse,
    /// State updates, if any.
    pub state_update: Option<Vec<(String, JsonValue)>>,
}

/// What a wrapped model call may return.
#[derive(Debug)]
pub enum ModelCallResult {
    /// A full response.
    Response(ModelResponse),
    /// A single AI message.
    Message(Message),
    /// A response with state updates.
    Extended(ExtendedModelResponse),
}

/// Turns any model call result into a response: a single message becomes a
/// response of that message, and state updates are dropped.
pub fn normalize_model_call_result(result: ModelCallResult) -> (r: ModelResponse)
    ensures
        match result {
            ModelCallResult::Response(x) => r == x,
            ModelCallResult::Message(m) => r.result@ == seq![m] && r.structured_response is None,
            ModelCallResult::Extended(e) => r == e.model_response,
        },
{
    match result {
        ModelCallResult::Response(r) => r,
        ModelCallResult::Message(m) => ModelResponse::new(vec![m]),
        ModelCallResult::Extended(e) => e.model_response,
    }
}

} // verus!
