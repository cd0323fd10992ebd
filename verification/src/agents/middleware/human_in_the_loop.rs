//! Human-in-the-loop review of agent actions: which tool calls need review,
//! the request shown to the human, and what the human's decisions mean
//! for the agent state.
//!
//! Tool arguments and edited actions are carried as JSON text.

use vstd::prelude::*;
use vstd::string::*;
use crate::json::{parse_json, parsed_json, JsonValue};
use crate::messages::{Message, MessageType, ToolCall};
use crate::text::{decimal, push_string, str_eq, usize_to_string};

verus! {

/// An action that the agent wants to take, presented for human review.
#[derive(Debug, Clone)]
pub struct Action {
    /// The name of the tool to call.
    pub name: String,
    /// The arguments for the tool call, as JSON text.
    pub args: String,
}

/// A request for human review of an action.
#[derive(Debug, Clone)]
pub struct ActionRequest {
    /// The proposed action.
    pub action: Action,
    /// A human-readable description of the action.
    pub description: Option<String>,
}

/// The full review request, grouping one or more action requests.
#[derive(Debug, Clone)]
pub struct HITLRequest {
    /// The action requests that need human review.
    pub action_requests: Vec<ActionRequest>,
    /// A message to display to the human.
    pub message: Option<String>,
}

/// The human's decision about an action.
#[derive(Debug, Clone)]
pub enum Decision {
    /// Approve the action to proceed.
    Approve,
    /// Edit the action before proceeding, providing modified arguments (JSON text).
    Edit { edited_action: String },
    /// Reject the action entirely.
    Reject { message: Option<String> },
}

/// The human's response to a review request.
#[derive(Debug, Clone)]
pub struct HITLResponse {
    /// The decision for each action request (parallel to action_requests).
    pub decisions: Vec<Decision>,
    /// Optional feedback message from the human.
    pub feedback: Option<String>,
}

/// What to interrupt on.
#[derive(Debug, Clone, Hash)]
pub enum InterruptOn {
    /// Interrupt before any tool call.
    ToolCall,
    /// Interrupt before a specific tool call.
    SpecificTool(String),
    /// Interrupt before model response is used.
    ModelResponse,
}

/// Whether two triggers are the same.
pub open spec fn same_trigger(a: InterruptOn, b: InterruptOn) -> bool {
    match (a, b) {
        (InterruptOn::ToolCall, InterruptOn::ToolCall) => true,
        (InterruptOn::ModelResponse, InterruptOn::ModelResponse) => true,
        (InterruptOn::SpecificTool(x), InterruptOn::SpecificTool(y)) => x@ == y@,
        _ => false,
    }
}

impl PartialEq for InterruptOn {
    fn eq(&self, other: &Self) -> (r: bool) {
        match (self, other) {
            (InterruptOn::ToolCall, InterruptOn::ToolCall) => true,
            (InterruptOn::ModelResponse, InterruptOn::ModelResponse) => true,
            (InterruptOn::SpecificTool(x), InterruptOn::SpecificTool(y)) => str_eq(x.as_str(), y.as_str()),
            _ => false,
        }
    }
}

impl vstd::std_specs::cmp::PartialEqSpecImpl for InterruptOn {
    open spec fn obeys_eq_spec() -> bool {
        true
    }

    open spec fn eq_spec(&self, other: &InterruptOn) -> bool {
        same_trigger(*self, *other)
    }
}

impl Eq for InterruptOn {

}

impl InterruptOn {
    /// A copy of this trigger.
    pub fn copy(&self) -> (r: InterruptOn)
        ensures
            same_trigger(r, *self),
    {
        match self {
            InterruptOn::ToolCall => InterruptOn::ToolCall,
            InterruptOn::SpecificTool(s) => InterruptOn::SpecificTool(s.clone()),
            InterruptOn::ModelResponse => InterruptOn::ModelResponse,
        }
    }
}

/// The flag set for `event` among `entries[0..n)`: the last entry for it
/// wins, and an event without entry is off.
pub open spec fn flag_for(entries: Seq<(InterruptOn, bool)>, event: InterruptOn, n: nat) -> bool
    decreases n,
{
    if n == 0 || n > entries.len() {
        false
    } else if same_trigger(entries[n - 1].0, event) {
        entries[n - 1].1
    } else {
        flag_for(entries, event, (n - 1) as nat)
    }
}

/// Middleware that requests human review before certain actions proceed.
///
/// When the model produces tool calls that match the interrupt settings, the
/// middleware builds a [`HITLRequest`]; the human's [`Decision`]s then say
/// which calls proceed, which are edited and whether any was rejected.
pub struct HumanInTheLoopMiddleware {
    /// The events that trigger a review request, each with its flag; a later
    /// entry for the same event overrides an earlier one.
    pub interrupt_on: Vec<(InterruptOn, bool)>,
    /// Optional message for the review request.
    pub message_template: Option<String>,
}

/// The message of a request, from the template or the given default.
pub open spec fn request_message(template: Option<String>, default: Seq<char>) -> Seq<char> {
    match template {
        Some(t) => t@,
        None => default,
    }
}

/// The description of a call to `name`.
pub open spec fn call_description(name: Seq<char>) -> Seq<char> {
    "Call tool '"@ + name + "'"@
}

/// The default message of a batch review request.
pub open spec fn batch_message() -> Seq<char> {
    "The agent wants to execute tool calls. Please review."@
}

/// Whether an action request stands for the tool call `c`.
pub open spec fn request_for(r: ActionRequest, c: ToolCall) -> bool {
    &&& r.action.name@ == c.name@
    &&& r.action.args@ == c.args@
    &&& r.description matches Some(d) && d@ == call_description(c.name@)
}

/// The tool calls among `calls[0..n)` that need review.
pub open spec fn calls_for_review(m: HumanInTheLoopMiddleware, calls: Seq<ToolCall>, n: nat) -> Seq<ToolCall>
    decreases n,
{
    if n == 0 || n > calls.len() {
        Seq::<ToolCall>::empty()
    } else if interrupts_tool(m, calls[n - 1].name@) {
        calls_for_review(m, calls, (n - 1) as nat).push(calls[n - 1])
    } else {
        calls_for_review(m, calls, (n - 1) as nat)
    }
}

/// Whether a call to the tool `name` is reviewed: all tool calls are, or
/// this tool is.
pub open spec fn interrupts_tool(m: HumanInTheLoopMiddleware, name: Seq<char>) -> bool {
    flag_for(m.interrupt_on@, InterruptOn::ToolCall, m.interrupt_on@.len()) || exists|s: String|
        s@ == name && flag_for(m.interrupt_on@, InterruptOn::SpecificTool(s), m.interrupt_on@.len())
}

/// The position of the last AI message in `v[0..n)`, if any.
pub open spec fn last_ai(v: Seq<Message>, n: nat) -> Option<int>
    decreases n,
{
    if n == 0 || n > v.len() {
        None
    } else if v[n - 1].message_type == MessageType::Ai {
        Some(n - 1)
    } else {
        last_ai(v, (n - 1) as nat)
    }
}

/// What the human's decisions change in the agent state.
#[derive(Debug, Clone)]
pub struct ReviewOutcome {
    /// The edited arguments (JSON text) by position of the decision.
    pub edits: Vec<(usize, String)>,
    /// Whether any action was rejected.
    pub rejected: bool,
    /// The message of the first rejection that gave one.
    pub rejection_message: Option<String>,
}

/// The edits among `ds[0..n)`, with their positions.
pub open spec fn edits_of(ds: Seq<Decision>, n: nat) -> Seq<(nat, Seq<char>)>
    decreases n,
{
    if n == 0 || n > ds.len() {
        Seq::empty()
    } else {
        match ds[n - 1] {
            Decision::Edit { edited_action } => edits_of(ds, (n - 1) as nat).push(
                ((n - 1) as nat, edited_action@),
            ),
            _ => edits_of(ds, (n - 1) as nat),
        }
    }
}

/// Whether one of `ds[0..n)` is a rejection.
pub open spec fn any_rejection(ds: Seq<Decision>, n: nat) -> bool {
    exists|i: int| 0 <= i < n && i < ds.len() && (#[trigger] ds[i]) is Reject
}

/// The message of the first rejection among `ds[0..n)` that gives one.
pub open spec fn rejection_message_of(ds: Seq<Decision>, n: nat) -> Option<Seq<char>>
    decreases n,
{
    if n == 0 || n > ds.len() {
        None
    } else {
        match rejection_message_of(ds, (n - 1) as nat) {
            Some(m) => Some(m),
            None => match ds[n - 1] {
                Decision::Reject { message: Some(m) } => Some(m@),
                _ => None,
            },
        }
    }
}

impl HumanInTheLoopMiddleware {
    /// A middleware that interrupts on all tool calls.
    pub fn on_tool_calls() -> (r: Self)
        ensures
            r.interrupt_on@.len() == 1,
            r.interrupt_on@[0].0 == InterruptOn::ToolCall,
            r.interrupt_on@[0].1,
            r.message_template is None,
    {
        let mut v: Vec<(InterruptOn, bool)> = Vec::new();
        v.push((InterruptOn::ToolCall, true));
        HumanInTheLoopMiddleware { interrupt_on: v, message_template: None }
    }

    /// A middleware with custom interrupt settings.
    pub fn new(interrupt_on: Vec<(InterruptOn, bool)>) -> (r: Self)
        ensures
            r.interrupt_on == interrupt_on,
            r.message_template is None,
    {
        HumanInTheLoopMiddleware { interrupt_on, message_template: None }
    }

    /// Sets the message of review requests.
    pub fn with_message_template(self, template: &str) -> (r: Self)
        ensures
            r.interrupt_on == self.interrupt_on,
            r.message_template matches Some(t) && t@ == template@,
    {
        HumanInTheLoopMiddleware { message_template: Some(String::from_str(template)), ..self }
    }

    /// Adds an interrupt trigger.
    pub fn on(self, trigger: InterruptOn) -> (r: Self)
        ensures
            r.interrupt_on@ == self.interrupt_on@.push((trigger, true)),
            r.message_template == self.message_template,
    {
        let mut m = self;
        m.interrupt_on.push((trigger, true));
        m
    }

    /// The middleware's name.
    pub fn name(&self) -> (r: &'static str)
        ensures
            r@ == "HumanInTheLoopMiddleware"@,
    {
        "HumanInTheLoopMiddleware"
    }

    /// Check if we should interrupt for a given event.
    pub fn should_interrupt(&self, event: &InterruptOn) -> (r: bool)
        ensures
            r == flag_for(self.interrupt_on@, *event, self.interrupt_on@.len()),
    {
        let mut i = self.interrupt_on.len();
        while i > 0
            invariant
                i <= self.interrupt_on@.len(),
                flag_for(self.interrupt_on@, *event, self.interrupt_on@.len()) == flag_for(
                    self.interrupt_on@,
                    *event,
                    i as nat,
                ),
            decreases i,
        {
            if self.interrupt_on[i - 1].0 == *event {
                return self.interrupt_on[i - 1].1;
            }
            i = i - 1;
        }
        false
    }

    /// Check if we should interrupt for a specific tool name.
    pub fn should_interrupt_tool(&self, tool_name: &str) -> (r: bool)
        ensures
            r == interrupts_tool(*self, tool_name@),
    {
        if self.should_interrupt(&InterruptOn::ToolCall) {
            return true;
        }
        let s = String::from_str(tool_name);
        let ev = InterruptOn::SpecificTool(s);
        let r = self.should_interrupt(&ev);
        proof {
            if !r {
                assert forall|t: String| t@ == tool_name@ implies !flag_for(
                    self.interrupt_on@,
                    InterruptOn::SpecificTool(t),
                    self.interrupt_on@.len(),
                ) by {
                    lemma_flag_for_same(self.interrupt_on@, ev, InterruptOn::SpecificTool(t), self.interrupt_on@.len());
                }
            }
        }
        r
    }

    /// Create a review request for a tool call.
    pub fn create_tool_request(&self, tool_name: &str, tool_input: &str) -> (r: HITLRequest)
        ensures
            r.action_requests@.len() == 1,
            r.action_requests@[0].action.name@ == tool_name@,
            r.action_requests@[0].action.args@ == tool_input@,
            r.action_requests@[0].description matches Some(d) && d@ == call_description(tool_name@),
            r.message matches Some(m) && m@ == request_message(
                self.message_template,
                "The agent wants to call tool '"@ + tool_name@ + "'. Approve?"@,
            ),
    {
        let mut desc = String::from_str("Call tool '");
        desc.append(tool_name);
        desc.append("'");
        let mut reqs: Vec<ActionRequest> = Vec::new();
        reqs.push(
            ActionRequest {
                action: Action { name: String::from_str(tool_name), args: String::from_str(tool_input) },
                description: Some(desc),
            },
        );
        let message = match &self.message_template {
            Some(t) => t.clone(),
            None => {
                let mut m = String::from_str("The agent wants to call tool '");
                m.append(tool_name);
                m.append("'. Approve?");
                m
            },
        };
        HITLRequest { action_requests: reqs, message: Some(message) }
    }

    /// The review request for the tool calls of the last AI message, when
    /// some of them need review; `None` when there is no AI message, it has
    /// no tool calls, or none needs review.
    pub fn review_request(&self, messages: &[Message]) -> (r: Option<HITLRequest>)
        ensures
            match last_ai(messages@, messages@.len()) {
                None => r is None,
                Some(k) => {
                    let calls = calls_for_review(
                        *self,
                        messages@[k].tool_calls@,
                        messages@[k].tool_calls@.len(),
                    );
                    &&& calls.len() == 0 ==> r is None
                    &&& calls.len() > 0 ==> (r matches Some(req) && {
                        &&& req.action_requests@.len() == calls.len()
                        &&& forall|j: int|
                            0 <= j < calls.len() ==> request_for(
                                #[trigger] req.action_requests@[j],
                                calls[j],
                            )
                        &&& req.message matches Some(m) && m@ == request_message(
                            self.message_template,
                            batch_message(),
                        )
                    })
                },
            },
    {
        let k = match last_ai_index(messages) {
            Some(k) => k,
            None => {
                return None;
            },
        };
        let calls = &messages[k].tool_calls;
        let ghost want = calls_for_review(*self, calls@, calls@.len());
        let mut reqs: Vec<ActionRequest> = Vec::new();
        let mut i: usize = 0;
        while i < calls.len()
            invariant
                i <= calls@.len(),
                reqs@.len() == calls_for_review(*self, calls@, i as nat).len(),
                forall|j: int|
                    0 <= j < reqs@.len() ==> request_for(
                        #[trigger] reqs@[j],
                        calls_for_review(*self, calls@, i as nat)[j],
                    ),
            decreases calls.len() - i,
        {
            let c = &calls[i];
            if self.should_interrupt_tool(c.name.as_str()) {
                let mut desc = String::from_str("Call tool '");
                push_string(&mut desc, &c.name);
                desc.append("'");
                reqs.push(
                    ActionRequest {
                        action: Action { name: c.name.clone(), args: c.args.clone() },
                        description: Some(desc),
                    },
                );
            }
            i = i + 1;
        }
        if reqs.len() == 0 {
            return None;
        }
        let message = match &self.message_template {
            Some(t) => t.clone(),
            None => String::from_str("The agent wants to execute tool calls. Please review."),
        };
        Some(HITLRequest { action_requests: reqs, message: Some(message) })
    }

    /// What the human's decisions change: the edited arguments by
    /// position, whether any action was rejected and the first rejection
    /// message given.
    pub fn resolve(&self, response: &HITLResponse) -> (r: ReviewOutcome)
        ensures
            r.edits@.len() == edits_of(response.decisions@, response.decisions@.len()).len(),
            forall|j: int|
                0 <= j < r.edits@.len() ==> (#[trigger] r.edits@[j]).0 == edits_of(
                    response.decisions@,
                    response.decisions@.len(),
                )[j].0 && r.edits@[j].1@ == edits_of(
                    response.decisions@,
                    response.decisions@.len(),
                )[j].1,
            r.rejected == any_rejection(response.decisions@, response.decisions@.len()),
            match rejection_message_of(response.decisions@, response.decisions@.len()) {
                Some(m) => r.rejection_message matches Some(x) && x@ == m,
                None => r.rejection_message is None,
            },
    {
        let ds = &response.decisions;
        let mut edits: Vec<(usize, String)> = Vec::new();
        let mut rejected = false;
        let mut message: Option<String> = None;
        let mut i: usize = 0;
        while i < ds.len()
            invariant
                i <= ds@.len(),
                edits@.len() == edits_of(ds@, i as nat).len(),
                forall|j: int|
                    0 <= j < edits@.len() ==> (#[trigger] edits@[j]).0 == edits_of(ds@, i as nat)[j].0
                        && edits@[j].1@ == edits_of(ds@, i as nat)[j].1,
                rejected == any_rejection(ds@, i as nat),
                match rejection_message_of(ds@, i as nat) {
                    Some(m) => message matches Some(x) && x@ == m,
                    None => message is None,
                },
            decreases ds.len() - i,
        {
            match &ds[i] {
                Decision::Approve => {},
                Decision::Edit { edited_action } => {
                    edits.push((i, edited_action.clone()));
                },
                Decision::Reject { message: m } => {
                    rejected = true;
                    if message.is_none() {
                        message = match m {
                            Some(x) => Some(x.clone()),
                            None => None,
                        };
                    }
                },
            }
            proof {
                if ds@[i as int] is Reject {
                    assert(any_rejection(ds@, (i + 1) as nat));
                } else {
                    assert(any_rejection(ds@, (i + 1) as nat) == any_rejection(ds@, i as nat)) by {
                        if any_rejection(ds@, (i + 1) as nat) {
                            let k = choose|k: int| 0 <= k < i + 1 && k < ds@.len() && (#[trigger] ds@[k]) is Reject;
                            assert(k < i);
                        }
                    }
                }
            }
            i = i + 1;
        }
        ReviewOutcome { edits, rejected, rejection_message: message }
    }
}

proof fn lemma_last_ai_range(v: Seq<Message>, n: nat)
    ensures
        last_ai(v, n) matches Some(k) ==> 0 <= k < n && k < v.len() && v[k].message_type
            == MessageType::Ai,
    decreases n,
{
    if n > 0 && n <= v.len() && v[n - 1].message_type != MessageType::Ai {
        lemma_last_ai_range(v, (n - 1) as nat);
    }
}

/// The position of the last AI message.
fn last_ai_index(messages: &[Message]) -> (r: Option<usize>)
    ensures
        match last_ai(messages@, messages@.len()) {
            Some(k) => r == Some(k as usize) && 0 <= k < messages@.len(),
            None => r is None,
        },
{
    proof {
        lemma_last_ai_range(messages@, messages@.len());
    }
    let mut k = messages.len();
    while k > 0
        invariant
            k <= messages@.len(),
            last_ai(messages@, messages@.len()) == last_ai(messages@, k as nat),
        decreases k,
    {
        if messages[k - 1].message_type == MessageType::Ai {
            return Some(k - 1);
        }
        k = k - 1;
    }
    None
}

/// Two triggers that are the same get the same flag.
proof fn lemma_flag_for_same(entries: Seq<(InterruptOn, bool)>, a: InterruptOn, b: InterruptOn, n: nat)
    requires
        same_trigger(a, b),
    ensures
        flag_for(entries, a, n) == flag_for(entries, b, n),
    decreases n,
{
    if n > 0 && n <= entries.len() {
        lemma_flag_for_same(entries, a, b, (n - 1) as nat);
    }
}

// ---------------------------------------------------------------------------
// State updates after a review
// ---------------------------------------------------------------------------

/// Whether `v` is the JSON value of the JSON text `t`: the value `t` parses
/// to, or the text itself as a string when it does not parse.
pub open spec fn json_of_text(v: JsonValue, t: Seq<char>) -> bool {
    match parsed_json(t) {
        Ok(x) => v == x,
        Err(_) => v is Str && v->Str_0@ == t,
    }
}

/// Whether `v` is an optional text as JSON: the string, or null.
pub open spec fn opt_text_json(v: JsonValue, t: Option<String>) -> bool {
    match t {
        Some(x) => v is Str && v->Str_0@ == x@,
        None => v is Null,
    }
}

/// Whether `v` is the JSON object of an action, keys in sorted order:
/// `args` (the arguments' value) and `name`.
pub open spec fn action_object(v: JsonValue, a: Action) -> bool {
    match v {
        JsonValue::Object(ms) => {
            &&& ms@.len() == 2
            &&& ms@[0].0@ == "args"@
            &&& json_of_text(ms@[0].1, a.args@)
            &&& ms@[1].0@ == "name"@
            &&& ms@[1].1 is Str
            &&& ms@[1].1->Str_0@ == a.name@
        },
        _ => false,
    }
}

/// Whether `v` is the JSON object of an action request: `action` and
/// `description`.
pub open spec fn action_request_object(v: JsonValue, r: ActionRequest) -> bool {
    match v {
        JsonValue::Object(ms) => {
            &&& ms@.len() == 2
            &&& ms@[0].0@ == "action"@
            &&& action_object(ms@[0].1, r.action)
            &&& ms@[1].0@ == "description"@
            &&& opt_text_json(ms@[1].1, r.description)
        },
        _ => false,
    }
}

/// Whether `v` is the JSON object of a review request: `action_requests`
/// (one object per request, in order) and `message`.
pub open spec fn request_object(v: JsonValue, req: HITLRequest) -> bool {
    match v {
        JsonValue::Object(ms) => {
            &&& ms@.len() == 2
            &&& ms@[0].0@ == "action_requests"@
            &&& ms@[0].1 is Array
            &&& ms@[0].1->Array_0@.len() == req.action_requests@.len()
            &&& forall|j: int|
                0 <= j < req.action_requests@.len() ==> action_request_object(
                    #[trigger] ms@[0].1->Array_0@[j],
                    req.action_requests@[j],
                )
            &&& ms@[1].0@ == "message"@
            &&& opt_text_json(ms@[1].1, req.message)
        },
        _ => false,
    }
}

/// Whether `e` is the update `(key, true/false)`.
pub open spec fn flag_update(e: (String, JsonValue), key: Seq<char>, b: bool) -> bool {
    e.0@ == key && e.1 == JsonValue::Bool(b)
}

/// The JSON value of a JSON text.
fn value_of_text(t: &String) -> (r: JsonValue)
    ensures
        json_of_text(r, t@),
{
    match parse_json(t.as_str()) {
        Ok(v) => v,
        Err(_) => JsonValue::Str(t.clone()),
    }
}

/// An optional text as JSON.
fn opt_text_value(t: &Option<String>) -> (r: JsonValue)
    ensures
        opt_text_json(r, *t),
{
    match t {
        Some(x) => JsonValue::Str(x.clone()),
        None => JsonValue::Null,
    }
}

/// The JSON object of a review request.
pub fn request_json(req: &HITLRequest) -> (r: JsonValue)
    ensures
        request_object(r, *req),
{
    let mut items: Vec<JsonValue> = Vec::new();
    let mut j: usize = 0;
    while j < req.action_requests.len()
        invariant
            j <= req.action_requests@.len(),
            items@.len() == j,
            forall|k: int| 0 <= k < j ==> action_request_object(#[trigger] items@[k], req.action_requests@[k]),
        decreases req.action_requests.len() - j,
    {
        let ar = &req.action_requests[j];
        let mut action: Vec<(String, JsonValue)> = Vec::new();
        action.push((String::from_str("args"), value_of_text(&ar.action.args)));
        action.push((String::from_str("name"), JsonValue::Str(ar.action.name.clone())));
        let mut members: Vec<(String, JsonValue)> = Vec::new();
        members.push((String::from_str("action"), JsonValue::Object(action)));
        members.push((String::from_str("description"), opt_text_value(&ar.description)));
        items.push(JsonValue::Object(members));
        j = j + 1;
    }
    let mut top: Vec<(String, JsonValue)> = Vec::new();
    top.push((String::from_str("action_requests"), JsonValue::Array(items)));
    top.push((String::from_str("message"), opt_text_value(&req.message)));
    JsonValue::Object(top)
}

/// The state updates while a review is pending, no handler having decided:
/// `hitl_pending` set to true, and the request under `hitl_request`.
pub fn pending_updates(request: &HITLRequest) -> (r: Vec<(String, JsonValue)>)
    ensures
        r@.len() == 2,
        flag_update(r@[0], "hitl_pending"@, true),
        r@[1].0@ == "hitl_request"@,
        request_object(r@[1].1, *request),
{
    let mut u: Vec<(String, JsonValue)> = Vec::new();
    u.push((String::from_str("hitl_pending"), JsonValue::Bool(true)));
    u.push((String::from_str("hitl_request"), request_json(request)));
    u
}

/// The state updates once the human's decisions are resolved: for each
/// edit, in order, `hitl_edit_<position>` with the edited arguments' value;
/// when an action was rejected, `hitl_rejected` set to true and, when the
/// rejection gave one, its message under `hitl_rejection_message`; then
/// `hitl_pending` false and `hitl_resolved` true.
pub fn review_updates(outcome: &ReviewOutcome) -> (r: Vec<(String, JsonValue)>)
    ensures
        ({
            let n = outcome.edits@.len();
            let rej: int = if outcome.rejected { 1 } else { 0 };
            let msg: int = if outcome.rejected && outcome.rejection_message is Some { 1 } else { 0 };
            &&& r@.len() == n + rej + msg + 2
            &&& forall|j: int|
                0 <= j < n ==> (#[trigger] r@[j]).0@ == "hitl_edit_"@ + decimal(outcome.edits@[j].0 as nat)
                    && json_of_text(r@[j].1, outcome.edits@[j].1@)
            &&& outcome.rejected ==> flag_update(r@[n as int], "hitl_rejected"@, true)
            &&& msg == 1 ==> r@[n as int + 1].0@ == "hitl_rejection_message"@ && opt_text_json(
                r@[n as int + 1].1,
                outcome.rejection_message,
            )
            &&& flag_update(r@[n + rej + msg], "hitl_pending"@, false)
            &&& flag_update(r@[n + rej + msg + 1], "hitl_resolved"@, true)
        }),
{
    let mut u: Vec<(String, JsonValue)> = Vec::new();
    let mut j: usize = 0;
    while j < outcome.edits.len()
        invariant
            j <= outcome.edits@.len(),
            u@.len() == j,
            forall|k: int|
                0 <= k < j ==> (#[trigger] u@[k]).0@ == "hitl_edit_"@ + decimal(outcome.edits@[k].0 as nat)
                    && json_of_text(u@[k].1, outcome.edits@[k].1@),
        decreases outcome.edits.len() - j,
    {
        let mut key = String::from_str("hitl_edit_");
        let idx = usize_to_string(outcome.edits[j].0);
        push_string(&mut key, &idx);
        u.push((key, value_of_text(&outcome.edits[j].1)));
        j = j + 1;
    }
    if outcome.rejected {
        u.push((String::from_str("hitl_rejected"), JsonValue::Bool(true)));
        match &outcome.rejection_message {
            Some(m) => u.push((String::from_str("hitl_rejection_message"), JsonValue::Str(m.clone()))),
            None => {},
        }
    }
    u.push((String::from_str("hitl_pending"), JsonValue::Bool(false)));
    u.push((String::from_str("hitl_resolved"), JsonValue::Bool(true)));
    u
}

} // verus!
