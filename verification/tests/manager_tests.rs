use rustchain::callbacks::manager::{
    handles_phase, CallbackData, CallbackDataBuilder, CallbackPhase, CallbackScope, ConsoleCallbackHandler,
    MetricsCallbackHandler,
};
use rustchain::json::JsonValue;
use std::collections::HashMap;

fn payload(text: &str) -> JsonValue {
    match text {
        "null" => JsonValue::Null,
        t if t.starts_with('"') => JsonValue::Str(t.trim_matches('"').to_string()),
        t => JsonValue::Number(t.to_string()),
    }
}

fn data(phase: CallbackPhase, run: &str, body: &str, ts: &str) -> CallbackData {
    CallbackData { phase, run_id: run.into(), parent_run_id: None, data: payload(body), timestamp: ts.into() }
}

fn event(phase: CallbackPhase, run: &str) -> CallbackData {
    CallbackDataBuilder::new(phase, run).timestamp("t").build(0)
}

fn count(m: &MetricsCallbackHandler, phase: &str) -> usize {
    m.events_by_phase().iter().find(|(k, _)| k == phase).map(|(_, c)| *c).unwrap_or(0)
}

#[test]
fn phase_as_str_builtin() {
    assert_eq!(CallbackPhase::ChainStart.as_str(), "chain_start");
    assert_eq!(CallbackPhase::ChainEnd.as_str(), "chain_end");
    assert_eq!(CallbackPhase::ChainError.as_str(), "chain_error");
    assert_eq!(CallbackPhase::LlmStart.as_str(), "llm_start");
    assert_eq!(CallbackPhase::LlmEnd.as_str(), "llm_end");
    assert_eq!(CallbackPhase::LlmError.as_str(), "llm_error");
    assert_eq!(CallbackPhase::ToolStart.as_str(), "tool_start");
    assert_eq!(CallbackPhase::ToolEnd.as_str(), "tool_end");
    assert_eq!(CallbackPhase::ToolError.as_str(), "tool_error");
    assert_eq!(CallbackPhase::RetrieverStart.as_str(), "retriever_start");
    assert_eq!(CallbackPhase::RetrieverEnd.as_str(), "retriever_end");
}

#[test]
fn phase_as_str_custom() {
    let p = CallbackPhase::Custom("my_phase".into());
    assert_eq!(p.as_str(), "my_phase");
}

#[test]
fn phase_display() {
    assert_eq!(CallbackPhase::ChainStart.to_string(), "chain_start");
    assert_eq!(CallbackPhase::Custom("x".into()).to_string(), "x");
}

#[test]
fn phase_equality() {
    assert_eq!(CallbackPhase::ChainStart, CallbackPhase::ChainStart);
    assert_ne!(CallbackPhase::ChainStart, CallbackPhase::ChainEnd);
    assert_eq!(CallbackPhase::Custom("a".into()), CallbackPhase::Custom("a".into()));
    assert_ne!(CallbackPhase::Custom("a".into()), CallbackPhase::Custom("b".into()));
}

#[test]
fn phase_clone() {
    let p = CallbackPhase::ToolStart;
    let p2 = p.clone();
    assert_eq!(p, p2);
}

#[test]
fn phase_debug() {
    let dbg = format!("{:?}", CallbackPhase::LlmEnd);
    assert!(dbg.contains("LlmEnd"));
}

#[test]
fn phase_hash() {
    let mut map = HashMap::new();
    map.insert(CallbackPhase::ChainStart, 1);
    map.insert(CallbackPhase::ChainEnd, 2);
    assert_eq!(map[&CallbackPhase::ChainStart], 1);
    assert_eq!(map[&CallbackPhase::ChainEnd], 2);
}

#[test]
fn console_handler_logs_events() {
    let mut h = ConsoleCallbackHandler::new();
    h.on_event(&data(CallbackPhase::ChainStart, "r1", "\"input\"", "t0"));
    let logs = h.logs();
    assert_eq!(logs.len(), 1);
    assert!(logs[0].contains("chain_start"));
    assert!(logs[0].contains("r1"));
    assert_eq!(logs[0], "[t0] chain_start run=r1 data=\"input\"");
}

#[test]
fn console_handler_clear() {
    let mut h = ConsoleCallbackHandler::new();
    h.on_event(&data(CallbackPhase::ChainEnd, "r1", "null", "t0"));
    assert_eq!(h.logs().len(), 1);
    h.clear();
    assert!(h.logs().is_empty());
}

#[test]
fn console_handler_name() {
    let h = ConsoleCallbackHandler::new();
    assert_eq!(h.name(), "ConsoleCallbackHandler");
}

#[test]
fn console_handler_default() {
    let h = ConsoleCallbackHandler::default();
    assert!(h.logs().is_empty());
}

#[test]
fn console_handler_multiple_events() {
    let mut h = ConsoleCallbackHandler::new();
    for i in 0..5 {
        h.on_event(&data(CallbackPhase::LlmStart, &format!("r{}", i), "null", "t"));
    }
    assert_eq!(h.logs().len(), 5);
}

#[test]
fn test_handles_phase_lists() {
    let phases = vec![CallbackPhase::ChainStart, CallbackPhase::ChainEnd, CallbackPhase::Custom("my_event".into())];
    assert!(handles_phase(&phases, &CallbackPhase::ChainStart));
    assert!(handles_phase(&phases, &CallbackPhase::ChainEnd));
    assert!(!handles_phase(&phases, &CallbackPhase::LlmStart));
    assert!(handles_phase(&phases, &CallbackPhase::Custom("my_event".into())));
    assert!(!handles_phase(&phases, &CallbackPhase::Custom("other".into())));
    assert!(!handles_phase(&[], &CallbackPhase::ChainStart));
}

#[test]
fn test_error_phase_derivation() {
    assert_eq!(CallbackPhase::ChainEnd.error_phase(), CallbackPhase::ChainError);
    assert_eq!(CallbackPhase::LlmEnd.error_phase(), CallbackPhase::LlmError);
    assert_eq!(CallbackPhase::ToolEnd.error_phase(), CallbackPhase::ToolError);
    assert_eq!(CallbackPhase::RetrieverEnd.error_phase(), CallbackPhase::RetrieverEnd);
    assert_eq!(CallbackPhase::Custom("c".into()).error_phase(), CallbackPhase::Custom("c".into()));
}

#[test]
fn builder_minimal() {
    let d = CallbackDataBuilder::new(CallbackPhase::ChainStart, "run-1").build(1_700_000_000);
    assert_eq!(d.phase, CallbackPhase::ChainStart);
    assert_eq!(d.run_id, "run-1");
    assert!(d.parent_run_id.is_none());
    assert!(matches!(d.data, JsonValue::Null));
    assert!(!d.timestamp.is_empty());
    assert_eq!(d.timestamp, "1700000000s");
}

#[test]
fn builder_full() {
    let d = CallbackDataBuilder::new(CallbackPhase::LlmEnd, "run-2")
        .parent_run_id("parent-1")
        .data(JsonValue::Object(vec![("result".into(), JsonValue::Number("42".into()))]))
        .timestamp("2026-01-01T00:00:00Z")
        .build(5);
    assert_eq!(d.run_id, "run-2");
    assert_eq!(d.parent_run_id.as_deref(), Some("parent-1"));
    assert_eq!(d.data.to_json_text(), "{\"result\":42}");
    assert_eq!(d.timestamp, "2026-01-01T00:00:00Z");
}

#[test]
fn builder_data_defaults_to_null() {
    let d = CallbackDataBuilder::new(CallbackPhase::ToolEnd, "r").build(0);
    assert!(matches!(d.data, JsonValue::Null));
}

#[test]
fn data_to_json() {
    let d = CallbackDataBuilder::new(CallbackPhase::ToolStart, "r").data(JsonValue::Str("hello".into())).timestamp("ts").build(0);
    let j = d.to_json();
    assert_eq!(j.get_str("phase"), Some("tool_start"));
    assert_eq!(j.get_str("run_id"), Some("r"));
    assert_eq!(j.get_str("data"), Some("hello"));
    assert_eq!(j.get_str("timestamp"), Some("ts"));
    assert!(matches!(j.get("parent_run_id"), Some(JsonValue::Null)));
    assert_eq!(
        j.to_json_text(),
        "{\"data\":\"hello\",\"parent_run_id\":null,\"phase\":\"tool_start\",\"run_id\":\"r\",\"timestamp\":\"ts\"}"
    );
}

#[test]
fn data_to_json_with_parent() {
    let d = CallbackDataBuilder::new(CallbackPhase::ChainEnd, "r").parent_run_id("p").timestamp("ts").build(0);
    assert_eq!(d.to_json().get_str("parent_run_id"), Some("p"));
}

#[test]
fn callback_data_clone() {
    let d = CallbackDataBuilder::new(CallbackPhase::ChainStart, "r").data(JsonValue::Bool(true)).timestamp("ts").build(0);
    let c = d.copy();
    assert_eq!(c.phase, d.phase);
    assert_eq!(c.run_id, d.run_id);
    assert_eq!(c.data.to_json_text(), "true");
    assert_eq!(c.timestamp, "ts");
}

#[test]
fn callback_data_debug() {
    let d = event(CallbackPhase::ChainStart, "r");
    let dbg = format!("{:?}", d);
    assert!(dbg.contains("ChainStart"));
}

#[test]
fn metrics_total_events() {
    let mut m = MetricsCallbackHandler::new();
    assert_eq!(m.total_events(), 0);
    m.on_event(&event(CallbackPhase::ChainStart, "r1"), 0);
    assert_eq!(m.total_events(), 1);
}

#[test]
fn metrics_events_by_phase() {
    let mut m = MetricsCallbackHandler::new();
    m.on_event(&event(CallbackPhase::ChainStart, "r1"), 0);
    m.on_event(&event(CallbackPhase::ChainStart, "r2"), 1);
    m.on_event(&event(CallbackPhase::ChainEnd, "r1"), 2);
    assert_eq!(count(&m, "chain_start"), 2);
    assert_eq!(count(&m, "chain_end"), 1);
}

#[test]
fn metrics_avg_duration() {
    let mut m = MetricsCallbackHandler::new();
    m.on_event(&event(CallbackPhase::LlmStart, "r1"), 1_000_000);
    m.on_event(&event(CallbackPhase::LlmEnd, "r1"), 3_500_000);
    assert_eq!(m.durations_nanos(&CallbackPhase::LlmEnd), vec![2_500_000]);
}

#[test]
fn metrics_avg_duration_no_data() {
    let m = MetricsCallbackHandler::new();
    assert!(m.durations_nanos(&CallbackPhase::ChainEnd).is_empty());
}

#[test]
fn metrics_multiple_durations() {
    let mut m = MetricsCallbackHandler::new();
    m.on_event(&event(CallbackPhase::ToolStart, "a"), 0);
    m.on_event(&event(CallbackPhase::ToolStart, "b"), 10);
    m.on_event(&event(CallbackPhase::ToolEnd, "a"), 100);
    m.on_event(&event(CallbackPhase::ToolEnd, "b"), 40);
    assert_eq!(m.durations_nanos(&CallbackPhase::ToolEnd), vec![100, 30]);
    m.on_event(&event(CallbackPhase::ToolEnd, "a"), 500);
    assert_eq!(m.durations_nanos(&CallbackPhase::ToolEnd).len(), 2);
}

#[test]
fn metrics_error_phase_records_duration() {
    let mut m = MetricsCallbackHandler::new();
    m.on_event(&event(CallbackPhase::ChainStart, "r"), 7);
    m.on_event(&event(CallbackPhase::ChainError, "r"), 9);
    assert_eq!(m.durations_nanos(&CallbackPhase::ChainError), vec![2]);
    assert!(m.durations_nanos(&CallbackPhase::ChainEnd).is_empty());
}

#[test]
fn metrics_custom_phase_is_only_counted() {
    let mut m = MetricsCallbackHandler::new();
    m.on_event(&event(CallbackPhase::Custom("my_start".into()), "r"), 1);
    m.on_event(&event(CallbackPhase::Custom("tick".into()), "r"), 2);
    m.on_event(&event(CallbackPhase::Custom("my_end".into()), "r"), 6);
    assert_eq!(count(&m, "tick"), 1);
    assert_eq!(m.durations_nanos(&CallbackPhase::Custom("my_end".into())), vec![5]);
    assert_eq!(m.total_events(), 3);
}

#[test]
fn metrics_name() {
    assert_eq!(MetricsCallbackHandler::new().name(), "MetricsCallbackHandler");
}

#[test]
fn metrics_default() {
    let m = MetricsCallbackHandler::default();
    assert_eq!(m.total_events(), 0);
}

#[test]
fn scope_emits_start_and_end() {
    let (scope, start) = CallbackScope::new(
        CallbackPhase::ChainStart,
        CallbackPhase::ChainEnd,
        "run-1",
        JsonValue::Str("in".into()),
        3,
    );
    assert_eq!(start.phase, CallbackPhase::ChainStart);
    assert_eq!(start.run_id, "run-1");
    assert_eq!(start.timestamp, "3s");
    let end = scope.finish(4);
    assert_eq!(end.phase, CallbackPhase::ChainEnd);
    assert_eq!(end.run_id, "run-1");
    assert_eq!(end.timestamp, "4s");
}

#[test]
fn scope_preserves_data_on_end() {
    let (scope, _) = CallbackScope::new(CallbackPhase::ToolStart, CallbackPhase::ToolEnd, "r", JsonValue::Number("7".into()), 0);
    assert_eq!(scope.finish(0).data.to_json_text(), "7");
}

#[test]
fn scope_fail_emits_error() {
    let (mut scope, _) = CallbackScope::new(CallbackPhase::LlmStart, CallbackPhase::LlmEnd, "r", JsonValue::Null, 0);
    scope.fail("boom");
    let end = scope.finish(0);
    assert_eq!(end.phase, CallbackPhase::LlmError);
    assert_eq!(end.data.to_json_text(), "{\"error\":\"boom\"}");
}

#[test]
fn scope_tool_fail_emits_tool_error() {
    let (mut scope, _) = CallbackScope::new(CallbackPhase::ToolStart, CallbackPhase::ToolEnd, "r", JsonValue::Null, 0);
    scope.fail("tool broke");
    assert_eq!(scope.finish(0).phase, CallbackPhase::ToolError);
}

#[test]
fn scope_chain_fail_emits_chain_error() {
    let (mut scope, _) = CallbackScope::new(CallbackPhase::ChainStart, CallbackPhase::ChainEnd, "r", JsonValue::Null, 0);
    scope.fail("chain broke");
    assert_eq!(scope.finish(0).phase, CallbackPhase::ChainError);
}

#[test]
fn scope_events_feed_handlers() {
    let mut metrics = MetricsCallbackHandler::new();
    let mut console = ConsoleCallbackHandler::new();
    let (scope, start) = CallbackScope::new(CallbackPhase::RetrieverStart, CallbackPhase::RetrieverEnd, "q", JsonValue::Null, 0);
    metrics.on_event(&start, 10);
    console.on_event(&start);
    let end = scope.finish(1);
    metrics.on_event(&end, 25);
    console.on_event(&end);
    assert_eq!(metrics.total_events(), 2);
    assert_eq!(metrics.durations_nanos(&CallbackPhase::RetrieverEnd), vec![15]);
    assert_eq!(console.logs()[1], "[1s] retriever_end run=q data=null");
}
