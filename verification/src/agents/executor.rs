//! The decisions of the agent loop: model, tool calls, tool results, model
//! again, until the model stops calling tools or a limit is reached.
//!
//! [`AgentRun`] holds the conversation and answers each event (a model reply,
//! a tool outcome, the start of an iteration) with the next thing to do. The
//! caller performs the model and tool calls and reports what came back.

use vstd::prelude::*;
use vstd::string::*;
use crate::error::RustChainError;
use crate::json::{compact_json_text, member, member_position, str_member, JsonValue};
use crate::messages::{Message, MessageType, ToolCall};
use crate::text::{decimal, push_string, usize_to_string};

verus! {

/// What to do when the agent hits the iteration or time limit.
#[derive(Debug, Clone, Copy, PartialEq, Eq, Structural)]
pub enum EarlyStoppingMethod {
    /// Return whatever we have accumulated so far (the last AI message content).
    Force,
    /// Ask the LLM to generate a final answer given the conversation so far.
    GenerateResponse,
}

/// An action the agent takes: a tool invocation.
#[derive(Debug, Clone)]
pub struct AgentAction {
    /// The name of the tool to call.
    pub tool_name: String,
    /// The input passed to the tool, as JSON text.
    pub tool_input: String,
    /// A human-readable log describing the action.
    pub log: String,
}

/// A single intermediate step in the agent loop.
#[derive(Debug, Clone)]
pub struct AgentStep {
    /// The action the agent took.
    pub action: AgentAction,
    /// The observation returned by the tool.
    pub observation: String,
}

/// The result of running an agent to completion.
#[derive(Debug)]
pub struct AgentResult {
    /// The full message history, initial messages included.
    pub messages: Vec<Message>,
    /// The final text output.
    pub output: String,
    /// The intermediate steps, when they were asked for.
    pub intermediate_steps: Vec<AgentStep>,
}

/// The settings that steer the loop.
#[derive(Debug, Clone, Copy, PartialEq, Eq, Structural)]
pub struct AgentSettings {
    /// Maximum iterations before stopping.
    pub max_iterations: usize,
    /// Whether to include intermediate steps in the result.
    pub return_intermediate_steps: bool,
    /// What to do when a limit is reached; `None` fails with
    /// `RecursionLimitExceeded`.
    pub early_stopping_method: Option<EarlyStoppingMethod>,
    /// Whether a reply that is not an AI message is answered with a retry.
    pub handle_parsing_errors: bool,
}

impl AgentSettings {
    /// The defaults: 10 iterations, no intermediate steps, no early stopping,
    /// parsing errors not handled.
    pub fn new() -> (r: Self)
        ensures
            r == (AgentSettings {
                max_iterations: 10,
                return_intermediate_steps: false,
                early_stopping_method: None,
                handle_parsing_errors: false,
            }),
    {
        AgentSettings {
            max_iterations: 10,
            return_intermediate_steps: false,
            early_stopping_method: None,
            handle_parsing_errors: false,
        }
    }
}

/// What a model call gave.
#[derive(Debug)]
pub enum ModelOutcome {
    /// The first generation's message.
    Reply(Message),
    /// The model answered with no generation.
    NoGeneration,
    /// The call failed.
    Failed(RustChainError),
}

/// What a tool call gave.
#[derive(Debug)]
pub enum ToolOutcome {
    /// The tool's output.
    Output(JsonValue),
    /// The tool failed; its error as text.
    Failed(String),
    /// No tool has the requested name.
    NotFound,
}

/// An event the loop reacts to.
#[derive(Debug)]
pub enum AgentEvent {
    /// An iteration is about to start; says whether the time budget is spent.
    IterationStart { time_exceeded: bool },
    /// The reply to `CallModel`.
    Model(ModelOutcome),
    /// The outcome of `RunTool`.
    Tool(ToolOutcome),
    /// The reply to `CallFinalModel`.
    FinalModel(ModelOutcome),
}

/// What the caller does next.
#[derive(Debug)]
pub enum AgentDirective {
    /// Check the time budget and report `IterationStart`.
    NextIteration,
    /// Call the model with the conversation.
    CallModel,
    /// Run the tool call with this position in the last AI message.
    RunTool { index: usize },
    /// Call the model with the conversation for a final answer.
    CallFinalModel,
    /// The run is over with this result.
    Finish(AgentResult),
    /// The run is over with this error.
    Fail(RustChainError),
}

/// Where the loop stands.
#[derive(Debug, Clone, Copy, PartialEq, Eq, Structural)]
pub enum AgentPhase {
    /// Waiting for `IterationStart`.
    BeforeIteration,
    /// Waiting for the model's reply.
    AwaitingModel,
    /// Waiting for the outcome of tool call `next` of the AI message at `ai`.
    AwaitingTool { ai: usize, next: usize },
    /// Waiting for the final answer after an early stop.
    AwaitingFinal,
    /// The run is over.
    Done,
}

/// A run of the agent loop.
pub struct AgentRun {
    settings: AgentSettings,
    messages: Vec<Message>,
    steps: Vec<AgentStep>,
    iteration: usize,
    phase: AgentPhase,
}

/// The prompt added before asking for a final answer.
pub open spec fn final_answer_prompt() -> Seq<char> {
    "Based on everything above, please provide your final answer now."@
}

/// The prompt added after a reply that is not an AI message.
pub open spec fn retry_prompt() -> Seq<char> {
    "Error: expected an AI message from the model. Please try again."@
}

/// The reason given when the iteration limit is reached.
pub open spec fn iteration_limit_reason(max: usize) -> Seq<char> {
    "Agent exceeded maximum iterations ("@ + decimal(max as nat) + ")"@
}

/// The reason given when the time budget is spent.
pub open spec fn time_limit_reason() -> Seq<char> {
    "Agent exceeded time limit"@
}

/// The content of the last AI message among `v[0..n)`, if any.
pub open spec fn last_ai_text(v: Seq<Message>, n: nat) -> Option<Seq<char>>
    decreases n,
{
    if n == 0 || n > v.len() {
        None
    } else if v[n - 1].message_type == MessageType::Ai {
        Some(v[n - 1].content@)
    } else {
        last_ai_text(v, (n - 1) as nat)
    }
}

/// The output of a forced stop: the last AI message's content, or a note
/// with the reason.
pub open spec fn forced_output(v: Seq<Message>, reason: Seq<char>) -> Seq<char> {
    match last_ai_text(v, v.len()) {
        Some(t) => t,
        None => "Agent stopped early: "@ + reason,
    }
}

/// How a tool's output reads as an observation: a string as itself,
/// anything else as its JSON text.
pub open spec fn output_text(v: JsonValue) -> Seq<char> {
    match v {
        JsonValue::Str(s) => s@,
        other => compact_json_text(other),
    }
}

/// The observation recorded for a tool outcome.
pub open spec fn observation(call: ToolCall, o: ToolOutcome) -> Seq<char> {
    match o {
        ToolOutcome::Output(v) => output_text(v),
        ToolOutcome::Failed(e) => "Error: "@ + e@,
        ToolOutcome::NotFound => "Error: tool '"@ + call.name@ + "' not found"@,
    }
}

/// The log line of a tool call.
pub open spec fn call_log(call: ToolCall) -> Seq<char> {
    "Calling tool `"@ + call.name@ + "` with args: "@ + call.args@
}

/// The steps a result reports.
pub open spec fn reported_steps(s: AgentSettings, steps: Seq<AgentStep>) -> Seq<AgentStep> {
    if s.return_intermediate_steps {
        steps
    } else {
        Seq::<AgentStep>::empty()
    }
}

impl AgentRun {
    /// The settings.
    pub closed spec fn settings(&self) -> AgentSettings {
        self.settings
    }

    /// The conversation so far.
    pub closed spec fn conversation(&self) -> Seq<Message> {
        self.messages@
    }

    /// The steps taken so far.
    pub closed spec fn steps_taken(&self) -> Seq<AgentStep> {
        self.steps@
    }

    /// The iterations begun so far.
    pub closed spec fn iterations(&self) -> nat {
        self.iteration as nat
    }

    /// Where the loop stands.
    pub closed spec fn phase(&self) -> AgentPhase {
        self.phase
    }

    /// The loop's state is consistent: no more iterations than allowed, and a
    /// pending tool call points into an AI message of the conversation.
    pub open spec fn wf(&self) -> bool {
        &&& self.iterations() <= self.settings().max_iterations
        &&& match self.phase() {
            AgentPhase::AwaitingTool { ai, next } => {
                &&& ai < self.conversation().len()
                &&& self.conversation()[ai as int].message_type == MessageType::Ai
                &&& next < self.conversation()[ai as int].tool_calls@.len()
            },
            _ => true,
        }
    }

    /// Starts a run on the given conversation.
    pub fn start(settings: AgentSettings, initial_messages: Vec<Message>) -> (r: Self)
        ensures
            r.wf(),
            r.settings() == settings,
            r.conversation() == initial_messages@,
            r.steps_taken().len() == 0,
            r.iterations() == 0,
            r.phase() == AgentPhase::BeforeIteration,
    {
        AgentRun {
            settings,
            messages: initial_messages,
            steps: Vec::new(),
            iteration: 0,
            phase: AgentPhase::BeforeIteration,
        }
    }

    /// Where the loop stands.
    pub fn current_phase(&self) -> (r: AgentPhase)
        ensures
            r == self.phase(),
    {
        self.phase
    }

    /// The conversation so far.
    pub fn messages(&self) -> (r: &Vec<Message>)
        ensures
            r@ == self.conversation(),
    {
        &self.messages
    }

    /// The content of the last AI message, if any.
    fn last_ai_content(&self) -> (r: Option<String>)
        ensures
            match r {
                Some(t) => last_ai_text(self.conversation(), self.conversation().len()) == Some(t@),
                None => last_ai_text(self.conversation(), self.conversation().len()) is None,
            },
    {
        let mut i = self.messages.len();
        while i > 0
            invariant
                i <= self.messages@.len(),
                last_ai_text(self.messages@, self.messages@.len()) == last_ai_text(
                    self.messages@,
                    i as nat,
                ),
            decreases i,
        {
            if self.messages[i - 1].message_type == MessageType::Ai {
                return Some(self.messages[i - 1].content.clone());
            }
            i = i - 1;
        }
        None
    }

    /// The result of the run: the conversation, the output and the steps
    /// (when asked for). Ends the run.
    fn finish(&mut self, output: String) -> (r: AgentDirective)
        ensures
            final(self).phase() == AgentPhase::Done,
            final(self).settings() == old(self).settings(),
            final(self).iterations() == old(self).iterations(),
            r matches AgentDirective::Finish(res) && res.output == output && res.messages@
                == old(self).conversation() && res.intermediate_steps@ == reported_steps(
                old(self).settings(),
                old(self).steps_taken(),
            ),
    {
        let mut messages: Vec<Message> = Vec::new();
        std::mem::swap(&mut messages, &mut self.messages);
        let mut taken: Vec<AgentStep> = Vec::new();
        std::mem::swap(&mut taken, &mut self.steps);
        let steps = if self.settings.return_intermediate_steps {
            taken
        } else {
            Vec::new()
        };
        self.phase = AgentPhase::Done;
        AgentDirective::Finish(AgentResult { messages, output, intermediate_steps: steps })
    }

    /// The run stops early for `reason`: fail without an early stopping
    /// method, return what there is under `Force`, ask for a final answer
    /// under `GenerateResponse`.
    fn stop_early(&mut self, reason: String) -> (r: AgentDirective)
        requires
            old(self).wf(),
        ensures
            final(self).wf(),
            final(self).settings() == old(self).settings(),
            final(self).iterations() == old(self).iterations(),
            match old(self).settings().early_stopping_method {
                None => {
                    &&& final(self).phase() == AgentPhase::Done
                    &&& (r matches AgentDirective::Fail(RustChainError::RecursionLimitExceeded(m))
                        && m@ == reason@)
                },
                Some(EarlyStoppingMethod::Force) => {
                    &&& final(self).phase() == AgentPhase::Done
                    &&& (r matches AgentDirective::Finish(res) && res.output@ == forced_output(
                        old(self).conversation(),
                        reason@,
                    ) && res.messages@ == old(self).conversation() && res.intermediate_steps@
                        == reported_steps(old(self).settings(), old(self).steps_taken()))
                },
                Some(EarlyStoppingMethod::GenerateResponse) => final(self).phase()
                    == AgentPhase::AwaitingFinal && r is CallFinalModel && final(self).conversation().len()
                    == old(self).conversation().len() + 1 && final(self).conversation().subrange(
                    0,
                    old(self).conversation().len() as int,
                ) == old(self).conversation() && final(self).conversation().last().message_type
                    == MessageType::Human && final(self).conversation().last().content@
                    == final_answer_prompt() && final(self).steps_taken() == old(self).steps_taken(),
            },
    {
        match self.settings.early_stopping_method {
            None => {
                self.phase = AgentPhase::Done;
                AgentDirective::Fail(RustChainError::RecursionLimitExceeded(reason))
            },
            Some(EarlyStoppingMethod::Force) => {
                let output = match self.last_ai_content() {
                    Some(t) => t,
                    None => {
                        let mut o = String::from_str("Agent stopped early: ");
                        push_string(&mut o, &reason);
                        o
                    },
                };
                self.finish(output)
            },
            Some(EarlyStoppingMethod::GenerateResponse) => {
                self.messages.push(
                    Message::human(
                        "Based on everything above, please provide your final answer now.",
                    ),
                );
                self.phase = AgentPhase::AwaitingFinal;
                AgentDirective::CallFinalModel
            },
        }
    }

    /// Records the outcome of tool call `next` of the AI message at `ai` and
    /// says what comes next.
    fn record_tool(&mut self, ai: usize, next: usize, outcome: ToolOutcome) -> (r: AgentDirective)
        requires
            old(self).wf(),
            old(self).phase() == (AgentPhase::AwaitingTool { ai, next }),
        ensures
            final(self).wf(),
            final(self).settings() == old(self).settings(),
            final(self).iterations() == old(self).iterations(),
            ({
                let call = old(self).conversation()[ai as int].tool_calls@[next as int];
                let text = observation(call, outcome);
                &&& final(self).steps_taken().len() == old(self).steps_taken().len() + 1
                &&& final(self).steps_taken().subrange(0, old(self).steps_taken().len() as int)
                    == old(self).steps_taken()
                &&& final(self).steps_taken().last().action.tool_name@ == call.name@
                &&& final(self).steps_taken().last().action.tool_input@ == call.args@
                &&& final(self).steps_taken().last().action.log@ == call_log(call)
                &&& final(self).steps_taken().last().observation@ == text
                &&& final(self).conversation().len() == old(self).conversation().len() + 1
                &&& final(self).conversation().subrange(0, old(self).conversation().len() as int)
                    == old(self).conversation()
                &&& final(self).conversation().last().message_type == MessageType::Tool
                &&& final(self).conversation().last().content@ == text
                &&& (final(self).conversation().last().tool_call_id matches Some(id) && id@ == match call.id {
                    Some(x) => x@,
                    None => Seq::<char>::empty(),
                })
            }),
            next + 1 < old(self).conversation()[ai as int].tool_calls@.len() ==> (r
                == AgentDirective::RunTool { index: (next + 1) as usize } && final(self).phase() == (
            AgentPhase::AwaitingTool { ai, next: (next + 1) as usize })),
            next + 1 >= old(self).conversation()[ai as int].tool_calls@.len() ==> (r
                is NextIteration && final(self).phase() == AgentPhase::BeforeIteration),
    {
        let ncalls = self.messages[ai].tool_calls.len();
        let call = &self.messages[ai].tool_calls[next];
        let text = match outcome {
            ToolOutcome::Output(v) => match v {
                JsonValue::Str(s) => s,
                other => other.to_json_text(),
            },
            ToolOutcome::Failed(e) => {
                let mut t = String::from_str("Error: ");
                push_string(&mut t, &e);
                t
            },
            ToolOutcome::NotFound => {
                let mut t = String::from_str("Error: tool '");
                push_string(&mut t, &call.name);
                t.append("' not found");
                t
            },
        };
        let mut log = String::from_str("Calling tool `");
        push_string(&mut log, &call.name);
        log.append("` with args: ");
        push_string(&mut log, &call.args);
        let call_id = match &call.id {
            Some(x) => x.clone(),
            None => String::new(),
        };
        let step = AgentStep {
            action: AgentAction { tool_name: call.name.clone(), tool_input: call.args.clone(), log },
            observation: text.clone(),
        };
        let msg = Message::tool(text.as_str(), call_id.as_str());
        self.steps.push(step);
        self.messages.push(msg);
        if next + 1 < ncalls {
            self.phase = AgentPhase::AwaitingTool { ai, next: next + 1 };
            AgentDirective::RunTool { index: next + 1 }
        } else {
            self.phase = AgentPhase::BeforeIteration;
            AgentDirective::NextIteration
        }
    }

    /// Reacts to one event and says what the caller does next.
    ///
    /// - `IterationStart`: with all iterations spent, or the time budget
    ///   spent, the run stops early; otherwise an iteration begins with a
    ///   model call.
    /// - `Model`: a failed call fails the run; a missing generation fails
    ///   with "No generations returned"; a reply that is not an AI message is
    ///   answered with a retry prompt and a new iteration when parsing errors
    ///   are handled, and fails otherwise; an AI message joins the
    ///   conversation and either finishes the run (no tool calls, its content
    ///   is the output) or starts its first tool call.
    /// - `Tool`: the observation joins the steps and the conversation, then
    ///   the next tool call runs, or a new iteration begins.
    /// - `FinalModel`: the reply's content is the output.
    pub fn step(&mut self, event: AgentEvent) -> (r: AgentDirective)
        requires
            old(self).wf(),
        ensures
            final(self).wf(),
            final(self).settings() == old(self).settings(),
            final(self).iterations() >= old(self).iterations(),
            old(self).phase() == AgentPhase::BeforeIteration && event is IterationStart ==> {
                let limit = old(self).iterations() == old(self).settings().max_iterations;
                let late = event->time_exceeded;
                &&& !limit && !late ==> (r is CallModel && final(self).phase() == AgentPhase::AwaitingModel
                    && final(self).iterations() == old(self).iterations() + 1 && final(self).conversation()
                    == old(self).conversation() && final(self).steps_taken() == old(self).steps_taken())
                &&& limit || late ==> final(self).iterations() == old(self).iterations()
                &&& limit && old(self).settings().early_stopping_method is None ==> (
                    r matches AgentDirective::Fail(RustChainError::RecursionLimitExceeded(m))
                        && m@ == iteration_limit_reason(old(self).settings().max_iterations))
                &&& !limit && late && old(self).settings().early_stopping_method is None ==> (
                    r matches AgentDirective::Fail(RustChainError::RecursionLimitExceeded(m))
                        && m@ == time_limit_reason())
                &&& (limit || late) && old(self).settings().early_stopping_method == Some(
                    EarlyStoppingMethod::Force,
                ) ==> (r matches AgentDirective::Finish(res) && res.output@ == forced_output(
                    old(self).conversation(),
                    if limit {
                        iteration_limit_reason(old(self).settings().max_iterations)
                    } else {
                        time_limit_reason()
                    },
                ) && res.messages@ == old(self).conversation() && res.intermediate_steps@
                    == reported_steps(old(self).settings(), old(self).steps_taken()))
                &&& (limit || late) && old(self).settings().early_stopping_method == Some(
                    EarlyStoppingMethod::GenerateResponse,
                ) ==> (r is CallFinalModel && final(self).phase() == AgentPhase::AwaitingFinal
                    && final(self).conversation().len() == old(self).conversation().len() + 1
                    && final(self).conversation().subrange(0, old(self).conversation().len() as int)
                    == old(self).conversation() && final(self).conversation().last().message_type
                    == MessageType::Human && final(self).conversation().last().content@
                    == final_answer_prompt() && final(self).steps_taken() == old(self).steps_taken())
            },
            old(self).phase() == AgentPhase::AwaitingModel && event is Model ==> final(self).iterations()
                == old(self).iterations(),
            old(self).phase() == AgentPhase::AwaitingModel && event is Model ==> match event->Model_0 {
                ModelOutcome::Failed(e) => {
                    &&& r == AgentDirective::Fail(e)
                    &&& final(self).phase() == AgentPhase::Done
                },
                ModelOutcome::NoGeneration => r matches AgentDirective::Fail(RustChainError::Other(m))
                    && m@ == "No generations returned"@,
                ModelOutcome::Reply(msg) => if msg.message_type != MessageType::Ai {
                    if old(self).settings().handle_parsing_errors {
                        &&& r is NextIteration
                        &&& final(self).phase() == AgentPhase::BeforeIteration
                        &&& final(self).conversation().len() == old(self).conversation().len() + 1
                        &&& final(self).conversation().subrange(0, old(self).conversation().len() as int)
                            == old(self).conversation()
                        &&& final(self).conversation().last().message_type == MessageType::Human
                        &&& final(self).conversation().last().content@ == retry_prompt()
                        &&& final(self).steps_taken() == old(self).steps_taken()
                    } else {
                        r matches AgentDirective::Fail(RustChainError::Other(m)) && m@
                            == "Expected AIMessage from model generation"@
                    }
                } else if msg.tool_calls@.len() == 0 {
                    r matches AgentDirective::Finish(res) && res.output@ == msg.content@
                        && res.messages@ == old(self).conversation().push(msg) && res.intermediate_steps@
                        == reported_steps(old(self).settings(), old(self).steps_taken())
                } else {
                    &&& r == AgentDirective::RunTool { index: 0 }
                    &&& final(self).conversation() == old(self).conversation().push(msg)
                    &&& final(self).steps_taken() == old(self).steps_taken()
                    &&& final(self).phase() == (AgentPhase::AwaitingTool {
                        ai: old(self).conversation().len() as usize,
                        next: 0,
                    })
                },
            },
            old(self).phase() == AgentPhase::AwaitingFinal && event is FinalModel ==> match event->FinalModel_0 {
                ModelOutcome::Failed(e) => r == AgentDirective::Fail(e),
                ModelOutcome::NoGeneration => r matches AgentDirective::Fail(RustChainError::Other(m))
                    && m@ == "No generations returned"@,
                ModelOutcome::Reply(msg) => r matches AgentDirective::Finish(res) && res.output@
                    == msg.content@ && res.messages@ == old(self).conversation().push(msg)
                    && res.intermediate_steps@ == reported_steps(
                    old(self).settings(),
                    old(self).steps_taken(),
                ),
            },
            old(self).phase() matches AgentPhase::AwaitingTool { ai, next } && event is Tool ==> {
                let ai = old(self).phase()->ai;
                let next = old(self).phase()->next;
                let call = old(self).conversation()[ai as int].tool_calls@[next as int];
                let text = observation(call, event->Tool_0);
                &&& final(self).iterations() == old(self).iterations()
                &&& final(self).steps_taken().len() == old(self).steps_taken().len() + 1
                &&& final(self).steps_taken().subrange(0, old(self).steps_taken().len() as int)
                    == old(self).steps_taken()
                &&& final(self).steps_taken().last().action.tool_name@ == call.name@
                &&& final(self).steps_taken().last().action.tool_input@ == call.args@
                &&& final(self).steps_taken().last().action.log@ == call_log(call)
                &&& final(self).steps_taken().last().observation@ == text
                &&& final(self).conversation().len() == old(self).conversation().len() + 1
                &&& final(self).conversation().subrange(0, old(self).conversation().len() as int)
                    == old(self).conversation()
                &&& final(self).conversation().last().message_type == MessageType::Tool
                &&& final(self).conversation().last().content@ == text
                &&& (final(self).conversation().last().tool_call_id matches Some(id) && id@ == match call.id {
                    Some(x) => x@,
                    None => Seq::<char>::empty(),
                })
                &&& next + 1 < old(self).conversation()[ai as int].tool_calls@.len() ==> (r
                    == AgentDirective::RunTool { index: (next + 1) as usize } && final(self).phase() == (
                AgentPhase::AwaitingTool { ai, next: (next + 1) as usize }))
                &&& next + 1 >= old(self).conversation()[ai as int].tool_calls@.len() ==> (r is NextIteration
                    && final(self).phase() == AgentPhase::BeforeIteration)
            },
            !(old(self).phase() == AgentPhase::BeforeIteration && event is IterationStart)
                && !(old(self).phase() == AgentPhase::AwaitingModel && event is Model)
                && !(old(self).phase() == AgentPhase::AwaitingFinal && event is FinalModel)
                && !(old(self).phase() is AwaitingTool && event is Tool) ==> (r matches AgentDirective::Fail(
                RustChainError::Other(m),
            ) && m@ == "Agent event does not fit the loop's state"@),
    {
        match (self.phase, event) {
            (AgentPhase::BeforeIteration, AgentEvent::IterationStart { time_exceeded }) => {
                if self.iteration >= self.settings.max_iterations {
                    let mut reason = String::from_str("Agent exceeded maximum iterations (");
                    let n = usize_to_string(self.settings.max_iterations);
                    push_string(&mut reason, &n);
                    reason.append(")");
                    self.stop_early(reason)
                } else if time_exceeded {
                    self.stop_early(String::from_str("Agent exceeded time limit"))
                } else {
                    self.iteration = self.iteration + 1;
                    self.phase = AgentPhase::AwaitingModel;
                    AgentDirective::CallModel
                }
            },
            (AgentPhase::AwaitingModel, AgentEvent::Model(outcome)) => match outcome {
                ModelOutcome::Failed(e) => {
                    self.phase = AgentPhase::Done;
                    AgentDirective::Fail(e)
                },
                ModelOutcome::NoGeneration => {
                    self.phase = AgentPhase::Done;
                    AgentDirective::Fail(RustChainError::Other(String::from_str("No generations returned")))
                },
                ModelOutcome::Reply(msg) => {
                    if msg.message_type != MessageType::Ai {
                        if self.settings.handle_parsing_errors {
                            self.messages.push(
                                Message::human(
                                    "Error: expected an AI message from the model. Please try again.",
                                ),
                            );
                            self.phase = AgentPhase::BeforeIteration;
                            AgentDirective::NextIteration
                        } else {
                            self.phase = AgentPhase::Done;
                            AgentDirective::Fail(
                                RustChainError::Other(
                                    String::from_str("Expected AIMessage from model generation"),
                                ),
                            )
                        }
                    } else if msg.tool_calls.len() == 0 {
                        let output = msg.content.clone();
                        self.messages.push(msg);
                        self.finish(output)
                    } else {
                        let ai = self.messages.len();
                        self.messages.push(msg);
                        self.phase = AgentPhase::AwaitingTool { ai, next: 0 };
                        AgentDirective::RunTool { index: 0 }
                    }
                },
            },
            (AgentPhase::AwaitingTool { ai, next }, AgentEvent::Tool(outcome)) => {
                self.record_tool(ai, next, outcome)
            },
            (AgentPhase::AwaitingFinal, AgentEvent::FinalModel(outcome)) => match outcome {
                ModelOutcome::Failed(e) => {
                    self.phase = AgentPhase::Done;
                    AgentDirective::Fail(e)
                },
                ModelOutcome::NoGeneration => {
                    self.phase = AgentPhase::Done;
                    AgentDirective::Fail(RustChainError::Other(String::from_str("No generations returned")))
                },
                ModelOutcome::Reply(msg) => {
                    let output = msg.content.clone();
                    self.messages.push(msg);
                    self.finish(output)
                },
            },
            _ => {
                self.phase = AgentPhase::Done;
                AgentDirective::Fail(
                    RustChainError::Other(String::from_str("Agent event does not fit the loop's state")),
                )
            },
        }
    }
}

/// What an agent's input stands for: messages to start from, or JSON that
/// encodes a list of messages, which the caller decodes with its message
/// format.
#[derive(Debug)]
pub enum AgentInput {
    /// The messages to start from.
    Messages(Vec<Message>),
    /// A JSON list of encoded messages.
    Encoded(JsonValue),
}

/// Whether `r` is the one human message `text`.
pub open spec fn one_human(r: AgentInput, text: Seq<char>) -> bool {
    match r {
        AgentInput::Messages(v) => v@.len() == 1 && v@[0].message_type == MessageType::Human
            && v@[0].content@ == text,
        _ => false,
    }
}

/// Reads an agent's input: a string is one human message; an array encodes
/// messages; an object's `messages` member encodes messages, else its string
/// `input` member is one human message; anything else is refused.
pub fn parse_agent_input(input: JsonValue) -> (r: Result<AgentInput, RustChainError>)
    ensures
        match input {
            JsonValue::Str(s) => r matches Ok(a) && one_human(a, s@),
            JsonValue::Array(_) => r == Ok::<AgentInput, RustChainError>(AgentInput::Encoded(input)),
            JsonValue::Object(_) => match (member(input, "messages"@), str_member(input, "input"@)) {
                (Some(m), _) => r == Ok::<AgentInput, RustChainError>(AgentInput::Encoded(m)),
                (None, Some(t)) => r matches Ok(a) && one_human(a, t),
                (None, None) => r matches Err(RustChainError::TypeMismatch { expected, got })
                    && expected@ == "String, Array, or Object with 'messages'/'input'"@ && got@
                    == "Object without recognized keys"@,
            },
            _ => r matches Err(RustChainError::TypeMismatch { expected, got }) && expected@
                == "String or Array of Messages"@ && got@ == compact_json_text(input),
        },
{
    match input {
        JsonValue::Str(s) => {
            let mut v: Vec<Message> = Vec::new();
            v.push(Message::human(s.as_str()));
            Ok(AgentInput::Messages(v))
        },
        JsonValue::Array(items) => Ok(AgentInput::Encoded(JsonValue::Array(items))),
        JsonValue::Object(mut ms) => {
            match member_position(&ms, "messages") {
                Some(i) => {
                    let (_, m) = ms.remove(i);
                    return Ok(AgentInput::Encoded(m));
                },
                None => {},
            }
            let rest = JsonValue::Object(ms);
            match rest.get_str("input") {
                Some(t) => {
                    let mut v: Vec<Message> = Vec::new();
                    v.push(Message::human(t));
                    Ok(AgentInput::Messages(v))
                },
                None => Err(
                    RustChainError::TypeMismatch {
                        expected: String::from_str("String, Array, or Object with 'messages'/'input'"),
                        got: String::from_str("Object without recognized keys"),
                    },
                ),
            }
        },
        _ => Err(
            RustChainError::TypeMismatch {
                expected: String::from_str("String or Array of Messages"),
                got: input.to_json_text(),
            },
        ),
    }
}


/// A callback notification of an agent run. A run opens with `ChainStart`;
/// after that, each step reports what [`notices`] lists, in that order.
#[derive(Debug, Clone, Copy, PartialEq, Eq, Structural)]
pub enum AgentNotice {
    ChainStart,
    ChainEnd,
    ChainError,
    LlmStart,
    LlmEnd,
    LlmError,
    ToolStart,
    ToolEnd,
    ToolError,
}

/// What the event a step received reports: the end or failure of the model
/// call or of the tool call that was waited for. The call for a final answer
/// is not reported as a model call.
pub open spec fn event_notices(before: AgentPhase, event: AgentEvent) -> Seq<AgentNotice> {
    if before == AgentPhase::AwaitingModel {
        match event {
            AgentEvent::Model(ModelOutcome::Failed(_)) => seq![AgentNotice::LlmError, AgentNotice::ChainError],
            AgentEvent::Model(_) => seq![AgentNotice::LlmEnd],
            _ => seq![],
        }
    } else if before is AwaitingTool {
        match event {
            AgentEvent::Tool(ToolOutcome::Output(_)) => seq![AgentNotice::ToolEnd],
            AgentEvent::Tool(_) => seq![AgentNotice::ToolError],
            _ => seq![],
        }
    } else {
        seq![]
    }
}

/// What the directive a step gave reports: a model call or a tool call about
/// to start, the run's end, or its failure where the run gives up (the
/// iteration or time limit with no early stop, or a failed call for a final
/// answer).
pub open spec fn directive_notices(before: AgentPhase, event: AgentEvent, directive: AgentDirective) -> Seq<
    AgentNotice,
> {
    match directive {
        AgentDirective::CallModel => seq![AgentNotice::LlmStart],
        AgentDirective::RunTool { .. } => seq![AgentNotice::ToolStart],
        AgentDirective::Finish(_) => seq![AgentNotice::ChainEnd],
        AgentDirective::Fail(_) => if (before == AgentPhase::BeforeIteration && event is IterationStart) || (
        before == AgentPhase::AwaitingFinal && event matches AgentEvent::FinalModel(ModelOutcome::Failed(_))) {
            seq![AgentNotice::ChainError]
        } else {
            seq![]
        },
        _ => seq![],
    }
}

/// The notification that opens a run.
pub fn start_notice() -> (r: AgentNotice)
    ensures
        r == AgentNotice::ChainStart,
{
    AgentNotice::ChainStart
}

/// The notifications of one step, in order: given the phase before the step,
/// the event it received and the directive it gave.
pub fn notices(before: AgentPhase, event: &AgentEvent, directive: &AgentDirective) -> (r: Vec<AgentNotice>)
    ensures
        r@ == event_notices(before, *event) + directive_notices(before, *event, *directive),
{
    let mut r: Vec<AgentNotice> = Vec::new();
    if before == AgentPhase::AwaitingModel {
        match event {
            AgentEvent::Model(ModelOutcome::Failed(_)) => {
                r.push(AgentNotice::LlmError);
                r.push(AgentNotice::ChainError);
            },
            AgentEvent::Model(_) => {
                r.push(AgentNotice::LlmEnd);
            },
            _ => {},
        }
    } else if let AgentPhase::AwaitingTool { .. } = before {
        match event {
            AgentEvent::Tool(ToolOutcome::Output(_)) => {
                r.push(AgentNotice::ToolEnd);
            },
            AgentEvent::Tool(_) => {
                r.push(AgentNotice::ToolError);
            },
            _ => {},
        }
    }
    let ghost first = r@;
    assert(first == event_notices(before, *event));
    match directive {
        AgentDirective::CallModel => {
            r.push(AgentNotice::LlmStart);
        },
        AgentDirective::RunTool { .. } => {
            r.push(AgentNotice::ToolStart);
        },
        AgentDirective::Finish(_) => {
            r.push(AgentNotice::ChainEnd);
        },
        AgentDirective::Fail(_) => {
            let gives_up = match event {
                AgentEvent::IterationStart { .. } => before == AgentPhase::BeforeIteration,
                AgentEvent::FinalModel(ModelOutcome::Failed(_)) => before == AgentPhase::AwaitingFinal,
                _ => false,
            };
            if gives_up {
                r.push(AgentNotice::ChainError);
            }
        },
        _ => {},
    }
    assert(r@ =~= first + directive_notices(before, *event, *directive));
    r
}

} // verus!
