use rustchain::agents::middleware::human_in_the_loop::{
    pending_updates, review_updates, Decision, HITLRequest, HITLResponse, HumanInTheLoopMiddleware,
    InterruptOn,
};
use rustchain::json::JsonValue;
use rustchain::messages::{Message, ToolCall};

fn call(name: &str, args: &str) -> ToolCall {
    ToolCall { name: name.to_string(), args: args.to_string(), id: None }
}

fn ai_with_calls(calls: Vec<ToolCall>) -> Message {
    let mut m = Message::ai("");
    m.tool_calls = calls;
    m
}

#[test]
fn test_hitl_request_creation() {
    let mw = HumanInTheLoopMiddleware::on_tool_calls();
    let req = mw.create_tool_request("search", r#"{"q":"test"}"#);
    assert_eq!(req.action_requests.len(), 1);
    assert_eq!(req.action_requests[0].action.name, "search");
    assert!(req.message.is_some());
    assert!(req.message.unwrap().contains("search"));
}

#[test]
fn test_hitl_should_interrupt() {
    let mw = HumanInTheLoopMiddleware::on_tool_calls()
        .on(InterruptOn::SpecificTool("dangerous".into()));
    assert!(mw.should_interrupt(&InterruptOn::ToolCall));
    assert!(mw.should_interrupt(&InterruptOn::SpecificTool("dangerous".into())));
    assert!(!mw.should_interrupt(&InterruptOn::ModelResponse));
}

#[test]
fn test_hitl_middleware_name() {
    let mw = HumanInTheLoopMiddleware::on_tool_calls();
    assert_eq!(mw.name(), "HumanInTheLoopMiddleware");
}

#[test]
fn test_hitl_with_message_template() {
    let mw = HumanInTheLoopMiddleware::on_tool_calls().with_message_template("Please review: {}");
    assert_eq!(mw.message_template, Some("Please review: {}".into()));
}

#[test]
fn hitl_tool_request_message_is_exact() {
    let mw = HumanInTheLoopMiddleware::on_tool_calls();
    let req = mw.create_tool_request("search", "{}");
    assert_eq!(req.message.as_deref(), Some("The agent wants to call tool 'search'. Approve?"));
    assert_eq!(req.action_requests[0].description.as_deref(), Some("Call tool 'search'"));
    assert_eq!(req.action_requests[0].action.args, "{}");
}

#[test]
fn hitl_later_entry_overrides_earlier() {
    let mw = HumanInTheLoopMiddleware::new(vec![
        (InterruptOn::ToolCall, true),
        (InterruptOn::ToolCall, false),
    ]);
    assert!(!mw.should_interrupt(&InterruptOn::ToolCall));
    assert!(!mw.should_interrupt_tool("anything"));
    let mw = HumanInTheLoopMiddleware::new(vec![(InterruptOn::SpecificTool("rm".into()), true)]);
    assert!(mw.should_interrupt_tool("rm"));
    assert!(!mw.should_interrupt_tool("ls"));
}

#[test]
fn hitl_review_request_picks_matching_calls_of_last_ai_message() {
    let mw = HumanInTheLoopMiddleware::new(vec![(InterruptOn::SpecificTool("rm".into()), true)]);
    let messages = vec![
        ai_with_calls(vec![call("rm", "{\"old\":1}")]),
        Message::human("go"),
        ai_with_calls(vec![call("ls", "{}"), call("rm", "{\"path\":\"/\"}")]),
        Message::tool("done", "x"),
    ];
    let req = mw.review_request(&messages).unwrap();
    assert_eq!(req.action_requests.len(), 1);
    assert_eq!(req.action_requests[0].action.name, "rm");
    assert_eq!(req.action_requests[0].action.args, "{\"path\":\"/\"}");
    assert_eq!(
        req.message.as_deref(),
        Some("The agent wants to execute tool calls. Please review.")
    );
    let none = mw.review_request(&[ai_with_calls(vec![call("ls", "{}")])]);
    assert!(none.is_none());
    assert!(mw.review_request(&[Message::human("hi")]).is_none());
}

#[test]
fn hitl_resolve_collects_edits_and_rejections() {
    let mw = HumanInTheLoopMiddleware::on_tool_calls();
    let out = mw.resolve(&HITLResponse {
        decisions: vec![
            Decision::Approve,
            Decision::Edit { edited_action: "{\"q\":\"new\"}".into() },
            Decision::Reject { message: None },
            Decision::Reject { message: Some("no".into()) },
            Decision::Reject { message: Some("later".into()) },
        ],
        feedback: None,
    });
    assert_eq!(out.edits, vec![(1, "{\"q\":\"new\"}".to_string())]);
    assert!(out.rejected);
    assert_eq!(out.rejection_message.as_deref(), Some("no"));
    let ok = mw.resolve(&HITLResponse { decisions: vec![Decision::Approve], feedback: None });
    assert!(!ok.rejected);
    assert!(ok.edits.is_empty());
    assert!(ok.rejection_message.is_none());
}

/// Runs the review after a model call the way the middleware does, with
/// `handler` standing for the human.
fn after_model(
    mw: &HumanInTheLoopMiddleware,
    messages: &[Message],
    handler: Option<&dyn Fn(&HITLRequest) -> HITLResponse>,
) -> Option<Vec<(String, JsonValue)>> {
    let request = mw.review_request(messages)?;
    match handler {
        Some(h) => Some(review_updates(&mw.resolve(&h(&request)))),
        None => Some(pending_updates(&request)),
    }
}

fn update<'a>(u: &'a [(String, JsonValue)], key: &str) -> Option<String> {
    u.iter().find(|(k, _)| k == key).map(|(_, v)| v.to_json_text())
}

#[test]
fn test_after_model_with_tool_calls_and_handler() {
    let mw = HumanInTheLoopMiddleware::on_tool_calls();
    let messages = vec![ai_with_calls(vec![call("search", "{\"query\":\"test\"}")])];
    let handler = |req: &HITLRequest| {
        assert_eq!(req.action_requests.len(), 1);
        assert_eq!(req.action_requests[0].action.name, "search");
        HITLResponse { decisions: vec![Decision::Approve], feedback: None }
    };
    let updates = after_model(&mw, &messages, Some(&handler)).unwrap();
    assert_eq!(update(&updates, "hitl_resolved").as_deref(), Some("true"));
    assert_eq!(update(&updates, "hitl_pending").as_deref(), Some("false"));
}

#[test]
fn test_after_model_with_reject() {
    let mw = HumanInTheLoopMiddleware::on_tool_calls();
    let messages = vec![ai_with_calls(vec![call("dangerous_tool", "{}")])];
    let handler = |_: &HITLRequest| HITLResponse {
        decisions: vec![Decision::Reject { message: Some("Nope".into()) }],
        feedback: None,
    };
    let updates = after_model(&mw, &messages, Some(&handler)).unwrap();
    assert_eq!(update(&updates, "hitl_rejected").as_deref(), Some("true"));
    assert_eq!(update(&updates, "hitl_rejection_message").as_deref(), Some("\"Nope\""));
    assert_eq!(update(&updates, "hitl_pending").as_deref(), Some("false"));
    assert_eq!(update(&updates, "hitl_resolved").as_deref(), Some("true"));
}

#[test]
fn test_after_model_no_handler_sets_pending() {
    let mw = HumanInTheLoopMiddleware::on_tool_calls();
    let messages = vec![ai_with_calls(vec![call("search", "{}")])];
    let updates = after_model(&mw, &messages, None).unwrap();
    assert_eq!(update(&updates, "hitl_pending").as_deref(), Some("true"));
    assert_eq!(
        update(&updates, "hitl_request").as_deref(),
        Some("{\"action_requests\":[{\"action\":{\"args\":{},\"name\":\"search\"},\"description\":\"Call tool 'search'\"}],\"message\":\"The agent wants to execute tool calls. Please review.\"}")
    );
}

#[test]
fn test_after_model_no_tool_calls() {
    let mw = HumanInTheLoopMiddleware::on_tool_calls();
    assert!(after_model(&mw, &[Message::ai("No tools needed")], None).is_none());
}

#[test]
fn hitl_edit_updates_carry_position_and_value() {
    let mw = HumanInTheLoopMiddleware::on_tool_calls();
    let out = mw.resolve(&HITLResponse {
        decisions: vec![Decision::Approve, Decision::Edit { edited_action: "{\"q\":1}".into() }],
        feedback: None,
    });
    let u = review_updates(&out);
    assert_eq!(u.len(), 3);
    assert_eq!(u[0].0, "hitl_edit_1");
    assert_eq!(u[0].1.to_json_text(), "{\"q\":1}");
    assert!(update(&u, "hitl_rejected").is_none());
}
