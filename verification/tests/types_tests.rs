use rustchain::agents::middleware::types::{
    normalize_model_call_result, AgentState, JumpTo, ModelCallResult, ModelResponse,
};
use rustchain::json::JsonValue;
use rustchain::messages::Message;

fn s(x: &str) -> JsonValue {
    JsonValue::Str(x.to_string())
}

#[test]
fn test_agent_state_default() {
    let state = AgentState::new(vec![]);
    assert!(state.messages.is_empty());
    assert!(state.structured_response.is_none());
    assert!(state.jump_to.is_none());
    assert!(state.extra.is_empty());
}

#[test]
fn test_agent_state_new() {
    let state = AgentState::new(vec![Message::human("hello")]);
    assert_eq!(state.messages.len(), 1);
}

#[test]
fn test_agent_state_extra() {
    let mut state = AgentState::new(vec![]);
    state.set_extra("count", JsonValue::Number("42".into()));
    assert_eq!(state.get_extra("count").map(|v| v.to_json_text()), Some("42".to_string()));
    assert!(state.get_extra("missing").is_none());
    state.set_extra("count", JsonValue::Number("43".into()));
    assert_eq!(state.extra.len(), 1);
    assert_eq!(state.get_extra("count").map(|v| v.to_json_text()), Some("43".to_string()));
}

#[test]
fn test_agent_state_apply_updates() {
    let mut state = AgentState::new(vec![]);
    state.apply_updates(vec![("jump_to".into(), s("end")), ("my_field".into(), s("value"))]);
    assert_eq!(state.jump_to, Some(JumpTo::End));
    assert_eq!(state.get_extra("my_field").map(|v| v.to_json_text()), Some("\"value\"".to_string()));
}

#[test]
fn apply_updates_structured_and_bad_jump() {
    let mut state = AgentState::new(vec![]);
    state.apply_updates(vec![("jump_to".into(), s("tools"))]);
    assert_eq!(state.jump_to, Some(JumpTo::Tools));
    state.apply_updates(vec![
        ("structured_response".into(), JsonValue::Bool(true)),
        ("jump_to".into(), s("nowhere")),
    ]);
    assert!(state.jump_to.is_none());
    assert_eq!(state.structured_response.as_ref().map(|v| v.to_json_text()), Some("true".to_string()));
    assert!(state.extra.is_empty());
    let obj = JsonValue::Object(vec![("model".into(), JsonValue::Null)]);
    assert_eq!(JumpTo::from_json(&obj), Some(JumpTo::Model));
    assert_eq!(JumpTo::from_json(&JsonValue::Null), None);
}

#[test]
fn test_model_response_new() {
    let resp = ModelResponse::new(vec![Message::ai("hello")]);
    assert_eq!(resp.result.len(), 1);
    assert!(resp.structured_response.is_none());
}

#[test]
fn test_model_response_with_structured() {
    let resp = ModelResponse::new(vec![])
        .with_structured_response(JsonValue::Object(vec![("name".into(), s("test"))]));
    assert!(resp.structured_response.is_some());
}

#[test]
fn test_normalize_model_call_result_response() {
    let resp = ModelResponse::new(vec![Message::ai("hi")]);
    let result = normalize_model_call_result(ModelCallResult::Response(resp));
    assert_eq!(result.result.len(), 1);
}

#[test]
fn test_normalize_model_call_result_message() {
    let result = normalize_model_call_result(ModelCallResult::Message(Message::ai("hi")));
    assert_eq!(result.result.len(), 1);
    assert_eq!(result.result[0].content, "hi");
}

#[test]
fn test_jump_to_serialize() {
    assert_eq!(JumpTo::End.as_str(), "end");
    assert_eq!(JumpTo::Tools.as_str(), "tools");
    assert_eq!(JumpTo::Model.as_str(), "model");
}
