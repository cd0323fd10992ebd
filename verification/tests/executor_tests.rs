use rustchain::agents::executor::{
    notices, parse_agent_input, start_notice, AgentDirective, AgentNotice, AgentEvent, AgentInput, AgentResult, AgentRun, AgentSettings,
    EarlyStoppingMethod, ModelOutcome, ToolOutcome,
};
use rustchain::error::RustChainError;
use rustchain::json::JsonValue;
use rustchain::messages::{Message, MessageType, ToolCall};

fn ai_calling(content: &str, tool: &str, args: &str, id: &str) -> Message {
    let mut m = Message::ai(content);
    m.tool_calls = vec![ToolCall { name: tool.into(), args: args.into(), id: Some(id.into()) }];
    m
}

/// Runs the loop the way the executor does: `model` answers each model call
/// in turn, `tool` runs each tool call, and the clock never runs out.
fn drive(
    settings: AgentSettings,
    initial: Vec<Message>,
    mut model: impl FnMut(&[Message]) -> ModelOutcome,
    tool: impl Fn(&ToolCall) -> ToolOutcome,
) -> Result<AgentResult, RustChainError> {
    let mut run = AgentRun::start(settings, initial);
    let mut directive = run.step(AgentEvent::IterationStart { time_exceeded: false });
    loop {
        directive = match directive {
            AgentDirective::NextIteration => run.step(AgentEvent::IterationStart { time_exceeded: false }),
            AgentDirective::CallModel => {
                let outcome = model(run.messages());
                run.step(AgentEvent::Model(outcome))
            }
            AgentDirective::RunTool { index } => {
                let last_ai = run
                    .messages()
                    .iter()
                    .rev()
                    .find(|m| m.message_type == MessageType::Ai)
                    .expect("an AI message asked for the tool");
                let outcome = tool(&last_ai.tool_calls[index]);
                run.step(AgentEvent::Tool(outcome))
            }
            AgentDirective::CallFinalModel => {
                let outcome = model(run.messages());
                run.step(AgentEvent::FinalModel(outcome))
            }
            AgentDirective::Finish(result) => return Ok(result),
            AgentDirective::Fail(e) => return Err(e),
        };
    }
}

/// A model answering with the given messages, one per call.
fn scripted(replies: Vec<Message>) -> impl FnMut(&[Message]) -> ModelOutcome {
    let mut replies = replies.into_iter();
    move |_| match replies.next() {
        Some(m) => ModelOutcome::Reply(m),
        None => ModelOutcome::NoGeneration,
    }
}

fn calculator(call: &ToolCall) -> ToolOutcome {
    match call.name.as_str() {
        "calculator" => ToolOutcome::Output(JsonValue::Str("4".into())),
        "echo" => ToolOutcome::Output(JsonValue::Str(call.args.clone())),
        _ => ToolOutcome::NotFound,
    }
}

#[test]
fn test_simple_qa_no_tools() {
    let result = drive(
        AgentSettings::new(),
        vec![Message::human("Hi")],
        scripted(vec![Message::ai("Hello there!")]),
        calculator,
    )
    .expect("should succeed");
    assert_eq!(result.output, "Hello there!");
    assert_eq!(result.messages.len(), 2);
    assert!(result.intermediate_steps.is_empty());
}

#[test]
fn test_single_tool_call() {
    let result = drive(
        AgentSettings::new(),
        vec![Message::human("What is 2+2?")],
        scripted(vec![
            ai_calling("I'll use the calculator", "calculator", "{\"expr\":\"2+2\"}", "call_1"),
            Message::ai("The answer is 4"),
        ]),
        calculator,
    )
    .expect("should succeed");
    assert_eq!(result.output, "The answer is 4");
    assert_eq!(result.messages.len(), 4);
    assert_eq!(result.messages[2].message_type, MessageType::Tool);
    assert_eq!(result.messages[2].tool_call_id.as_deref(), Some("call_1"));
}

#[test]
fn test_multi_step_tool_usage() {
    let mut settings = AgentSettings::new();
    settings.return_intermediate_steps = true;
    let result = drive(
        settings,
        vec![Message::human("Do two things")],
        scripted(vec![
            ai_calling("First, calculate", "calculator", "{\"expr\":\"2+2\"}", "call_1"),
            ai_calling("Now echo", "echo", "{\"text\":\"hello\"}", "call_2"),
            Message::ai("Done: 4 and hello"),
        ]),
        calculator,
    )
    .expect("should succeed");
    assert_eq!(result.output, "Done: 4 and hello");
    assert_eq!(result.intermediate_steps.len(), 2);
    assert_eq!(result.intermediate_steps[0].action.tool_name, "calculator");
    assert_eq!(result.intermediate_steps[0].observation, "4");
    assert_eq!(result.intermediate_steps[1].action.tool_name, "echo");
    assert_eq!(
        result.intermediate_steps[1].action.log,
        "Calling tool `echo` with args: {\"text\":\"hello\"}"
    );
}

#[test]
fn test_max_iterations_force() {
    let mut settings = AgentSettings::new();
    settings.max_iterations = 2;
    settings.early_stopping_method = Some(EarlyStoppingMethod::Force);
    let always = |_: &[Message]| ModelOutcome::Reply(ai_calling("calling tool", "calculator", "{}", "call_x"));
    let result = drive(settings, vec![Message::human("loop")], always, calculator)
        .expect("Force stopping should return Ok");
    assert_eq!(result.output, "calling tool");
}

#[test]
fn test_max_iterations_without_early_stopping_fails() {
    let mut settings = AgentSettings::new();
    settings.max_iterations = 2;
    let always = |_: &[Message]| ModelOutcome::Reply(ai_calling("calling tool", "calculator", "{}", "call_x"));
    let err = drive(settings, vec![Message::human("loop")], always, calculator).unwrap_err();
    match err {
        RustChainError::RecursionLimitExceeded(m) => assert_eq!(m, "Agent exceeded maximum iterations (2)"),
        other => panic!("unexpected {other:?}"),
    }
}

#[test]
fn test_return_intermediate_steps() {
    let mut settings = AgentSettings::new();
    settings.return_intermediate_steps = true;
    let result = drive(
        settings,
        vec![Message::human("Compute")],
        scripted(vec![ai_calling("use", "calculator", "{}", "call_1"), Message::ai("The answer is 4")]),
        calculator,
    )
    .expect("should succeed");
    assert_eq!(result.intermediate_steps.len(), 1);
    assert_eq!(result.intermediate_steps[0].action.tool_name, "calculator");
    assert_eq!(result.intermediate_steps[0].observation, "4");
}

#[test]
fn test_no_intermediate_steps_when_disabled() {
    let result = drive(
        AgentSettings::new(),
        vec![Message::human("Compute")],
        scripted(vec![ai_calling("use", "calculator", "{}", "call_1"), Message::ai("The answer is 4")]),
        calculator,
    )
    .expect("should succeed");
    assert!(result.intermediate_steps.is_empty());
}

#[test]
fn test_early_stopping_generate_response() {
    let mut settings = AgentSettings::new();
    settings.max_iterations = 2;
    settings.early_stopping_method = Some(EarlyStoppingMethod::GenerateResponse);
    let result = drive(
        settings,
        vec![Message::human("loop")],
        scripted(vec![
            ai_calling("calling tool", "calculator", "{}", "c1"),
            ai_calling("calling tool again", "calculator", "{}", "c2"),
            Message::ai("Final summary answer"),
        ]),
        calculator,
    )
    .expect("GenerateResponse should succeed");
    assert_eq!(result.output, "Final summary answer");
    let asked = &result.messages[result.messages.len() - 2];
    assert_eq!(asked.content, "Based on everything above, please provide your final answer now.");
}

#[test]
fn test_handle_parsing_errors() {
    let mut settings = AgentSettings::new();
    settings.handle_parsing_errors = true;
    let result = drive(
        settings,
        vec![Message::human("Hi")],
        scripted(vec![Message::human("oops"), Message::ai("recovered")]),
        calculator,
    )
    .expect("should recover from parsing error");
    assert_eq!(result.output, "recovered");
    let err = drive(
        AgentSettings::new(),
        vec![Message::human("Hi")],
        scripted(vec![Message::human("oops")]),
        calculator,
    )
    .unwrap_err();
    assert!(matches!(err, RustChainError::Other(ref m) if m == "Expected AIMessage from model generation"));
}

#[test]
fn test_empty_tools_list() {
    let result = drive(
        AgentSettings::new(),
        vec![Message::human("Question")],
        scripted(vec![Message::ai("No tools needed")]),
        |_| ToolOutcome::NotFound,
    )
    .expect("should succeed");
    assert_eq!(result.output, "No tools needed");
}

#[test]
fn agent_missing_tool_and_failures() {
    let mut settings = AgentSettings::new();
    settings.return_intermediate_steps = true;
    let result = drive(
        settings,
        vec![Message::human("x")],
        scripted(vec![ai_calling("try", "nope", "{}", "c"), Message::ai("ok")]),
        |_| ToolOutcome::NotFound,
    )
    .unwrap();
    assert_eq!(result.intermediate_steps[0].observation, "Error: tool 'nope' not found");
    let result = drive(
        AgentSettings::new(),
        vec![Message::human("x")],
        scripted(vec![ai_calling("try", "calculator", "{}", "c"), Message::ai("ok")]),
        |_| ToolOutcome::Failed("boom".into()),
    )
    .unwrap();
    assert_eq!(result.messages[2].content, "Error: boom");
    let err = drive(AgentSettings::new(), vec![], scripted(vec![]), calculator).unwrap_err();
    assert!(matches!(err, RustChainError::Other(ref m) if m == "No generations returned"));
}

#[test]
fn agent_time_limit_and_misplaced_event() {
    let mut settings = AgentSettings::new();
    settings.early_stopping_method = Some(EarlyStoppingMethod::Force);
    let mut run = AgentRun::start(settings, vec![Message::human("x")]);
    match run.step(AgentEvent::IterationStart { time_exceeded: true }) {
        AgentDirective::Finish(r) => assert_eq!(r.output, "Agent stopped early: Agent exceeded time limit"),
        other => panic!("unexpected {other:?}"),
    }
    let mut run = AgentRun::start(AgentSettings::new(), vec![]);
    match run.step(AgentEvent::Tool(ToolOutcome::NotFound)) {
        AgentDirective::Fail(RustChainError::Other(m)) => {
            assert_eq!(m, "Agent event does not fit the loop's state")
        }
        other => panic!("unexpected {other:?}"),
    }
}

#[test]
fn agent_input_forms() {
    match parse_agent_input(JsonValue::Str("Hello".into())).unwrap() {
        AgentInput::Messages(v) => {
            assert_eq!(v.len(), 1);
            assert_eq!(v[0].content, "Hello");
            assert_eq!(v[0].message_type, MessageType::Human);
        }
        other => panic!("unexpected {other:?}"),
    }
    let obj = JsonValue::Object(vec![("input".into(), JsonValue::Str("What is 2+2?".into()))]);
    match parse_agent_input(obj).unwrap() {
        AgentInput::Messages(v) => assert_eq!(v[0].content, "What is 2+2?"),
        other => panic!("unexpected {other:?}"),
    }
    let obj = JsonValue::Object(vec![
        ("input".into(), JsonValue::Str("ignored".into())),
        ("messages".into(), JsonValue::Array(vec![])),
    ]);
    match parse_agent_input(obj).unwrap() {
        AgentInput::Encoded(v) => assert_eq!(v.to_json_text(), "[]"),
        other => panic!("unexpected {other:?}"),
    }
    let e = parse_agent_input(JsonValue::Object(vec![])).unwrap_err();
    assert!(matches!(e, RustChainError::TypeMismatch { ref got, .. } if got == "Object without recognized keys"));
    let e = parse_agent_input(JsonValue::Number("3".into())).unwrap_err();
    assert!(matches!(e, RustChainError::TypeMismatch { ref got, .. } if got == "3"));
}


fn same_event(e: &AgentEvent) -> AgentEvent {
    let outcome = |o: &ModelOutcome| match o {
        ModelOutcome::Reply(m) => ModelOutcome::Reply(m.clone()),
        ModelOutcome::NoGeneration => ModelOutcome::NoGeneration,
        ModelOutcome::Failed(err) => ModelOutcome::Failed(err.clone()),
    };
    match e {
        AgentEvent::IterationStart { time_exceeded } => AgentEvent::IterationStart { time_exceeded: *time_exceeded },
        AgentEvent::Model(o) => AgentEvent::Model(outcome(o)),
        AgentEvent::FinalModel(o) => AgentEvent::FinalModel(outcome(o)),
        AgentEvent::Tool(ToolOutcome::Output(v)) => AgentEvent::Tool(ToolOutcome::Output(v.copy())),
        AgentEvent::Tool(ToolOutcome::Failed(t)) => AgentEvent::Tool(ToolOutcome::Failed(t.clone())),
        AgentEvent::Tool(ToolOutcome::NotFound) => AgentEvent::Tool(ToolOutcome::NotFound),
    }
}

/// Like `drive`, recording the notifications of the run in order.
fn drive_noting(
    settings: AgentSettings,
    initial: Vec<Message>,
    mut model: impl FnMut(&[Message]) -> ModelOutcome,
    tool: impl Fn(&ToolCall) -> ToolOutcome,
) -> (Result<AgentResult, RustChainError>, Vec<AgentNotice>) {
    let mut seen = vec![start_notice()];
    let mut run = AgentRun::start(settings, initial);
    let mut event = AgentEvent::IterationStart { time_exceeded: false };
    loop {
        let before = run.current_phase();
        let kept = same_event(&event);
        let directive = run.step(event);
        seen.extend(notices(before, &kept, &directive));
        event = match directive {
            AgentDirective::NextIteration => AgentEvent::IterationStart { time_exceeded: false },
            AgentDirective::CallModel => AgentEvent::Model(model(run.messages())),
            AgentDirective::RunTool { index } => {
                let last_ai = run
                    .messages()
                    .iter()
                    .rev()
                    .find(|m| m.message_type == MessageType::Ai)
                    .expect("an AI message asked for the tool");
                AgentEvent::Tool(tool(&last_ai.tool_calls[index]))
            }
            AgentDirective::CallFinalModel => AgentEvent::FinalModel(model(run.messages())),
            AgentDirective::Finish(result) => return (Ok(result), seen),
            AgentDirective::Fail(e) => return (Err(e), seen),
        };
    }
}

#[test]
fn test_callbacks_with_tool_calls() {
    let (result, seen) = drive_noting(
        AgentSettings::new(),
        vec![Message::human("What is 2+2?")],
        scripted(vec![ai_calling("", "calculator", "{}", "c1"), Message::ai("The answer is 4")]),
        calculator,
    );
    assert!(result.is_ok());
    assert_eq!(
        seen,
        vec![
            AgentNotice::ChainStart,
            AgentNotice::LlmStart,
            AgentNotice::LlmEnd,
            AgentNotice::ToolStart,
            AgentNotice::ToolEnd,
            AgentNotice::LlmStart,
            AgentNotice::LlmEnd,
            AgentNotice::ChainEnd,
        ]
    );
}

#[test]
fn notices_for_missing_tool_and_iteration_limit() {
    let mut settings = AgentSettings::new();
    settings.max_iterations = 1;
    let (result, seen) = drive_noting(
        settings,
        vec![Message::human("go")],
        scripted(vec![ai_calling("", "nonexistent", "{}", "c1")]),
        calculator,
    );
    assert!(result.is_err());
    assert_eq!(
        seen,
        vec![
            AgentNotice::ChainStart,
            AgentNotice::LlmStart,
            AgentNotice::LlmEnd,
            AgentNotice::ToolStart,
            AgentNotice::ToolError,
            AgentNotice::ChainError,
        ]
    );
}
