use rustchain::chains::callbacks::{
    filter_callback_name, CallbackScope, ChainEvent, LoggingCallback, MetricsCallback, RecordingCallback,
    TracingCallback,
};
use rustchain::json::JsonValue;

fn s(x: &str) -> JsonValue {
    JsonValue::Str(x.to_string())
}

fn num(n: &str) -> JsonValue {
    JsonValue::Number(n.to_string())
}

fn field(j: &JsonValue, key: &str) -> String {
    j.get(key).expect("member present").to_json_text()
}

fn start(name: &str) -> ChainEvent {
    ChainEvent::ChainStart { name: name.into(), input: JsonValue::Null }
}

fn end(name: &str) -> ChainEvent {
    ChainEvent::ChainEnd { name: name.into(), output: JsonValue::Null }
}

fn metric(cb: &MetricsCallback, name: &str) -> (usize, usize, usize, u128) {
    let m = cb.get_metrics();
    let (_, v) = m.iter().find(|(k, _)| k == name).expect("chain present");
    (v.runs, v.steps, v.errors, v.total_duration_nanos)
}

#[test]
fn test_chain_start_event_name() {
    let event = ChainEvent::ChainStart {
        name: "my_chain".into(),
        input: JsonValue::Object(vec![("q".into(), s("hello"))]),
    };
    assert_eq!(event.name(), "my_chain");
}

#[test]
fn test_chain_end_event_name() {
    let event = ChainEvent::ChainEnd { name: "my_chain".into(), output: s("result") };
    assert_eq!(event.name(), "my_chain");
}

#[test]
fn test_chain_error_event_name() {
    let event = ChainEvent::ChainError { name: "my_chain".into(), error: "boom".into() };
    assert_eq!(event.name(), "my_chain");
}

#[test]
fn test_step_start_event_name() {
    let event = ChainEvent::StepStart { chain_name: "parent".into(), step_index: 0, step_name: "step_a".into() };
    assert_eq!(event.name(), "parent");
}

#[test]
fn test_step_end_event_name() {
    let event = ChainEvent::StepEnd { chain_name: "parent".into(), step_index: 1, output: num("42") };
    assert_eq!(event.name(), "parent");
}

#[test]
fn test_step_error_event_name() {
    let event = ChainEvent::StepError { chain_name: "parent".into(), step_index: 2, error: "step failed".into() };
    assert_eq!(event.name(), "parent");
}

#[test]
fn test_is_error_chain_error() {
    let event = ChainEvent::ChainError { name: "c".into(), error: "e".into() };
    assert!(event.is_error());
}

#[test]
fn test_is_error_step_error() {
    let event = ChainEvent::StepError { chain_name: "c".into(), step_index: 0, error: "e".into() };
    assert!(event.is_error());
}

#[test]
fn test_is_error_false_for_start() {
    assert!(!start("c").is_error());
}

#[test]
fn test_is_error_false_for_end() {
    assert!(!end("c").is_error());
}

#[test]
fn test_is_error_false_for_step_start() {
    let event = ChainEvent::StepStart { chain_name: "c".into(), step_index: 0, step_name: "s".into() };
    assert!(!event.is_error());
}

#[test]
fn test_is_error_false_for_step_end() {
    let event = ChainEvent::StepEnd { chain_name: "c".into(), step_index: 0, output: JsonValue::Null };
    assert!(!event.is_error());
}

#[test]
fn test_chain_start_to_json() {
    let event = ChainEvent::ChainStart {
        name: "test".into(),
        input: JsonValue::Object(vec![("key".into(), s("value"))]),
    };
    let j = event.to_json();
    assert_eq!(field(&j, "event"), "\"chain_start\"");
    assert_eq!(field(&j, "name"), "\"test\"");
    assert_eq!(j.get("input").unwrap().get_str("key"), Some("value"));
}

#[test]
fn test_chain_end_to_json() {
    let event = ChainEvent::ChainEnd { name: "test".into(), output: num("42") };
    let j = event.to_json();
    assert_eq!(field(&j, "event"), "\"chain_end\"");
    assert_eq!(field(&j, "output"), "42");
}

#[test]
fn test_chain_error_to_json() {
    let event = ChainEvent::ChainError { name: "test".into(), error: "something broke".into() };
    let j = event.to_json();
    assert_eq!(field(&j, "event"), "\"chain_error\"");
    assert_eq!(field(&j, "error"), "\"something broke\"");
}

#[test]
fn test_step_start_to_json() {
    let event = ChainEvent::StepStart { chain_name: "c".into(), step_index: 3, step_name: "transform".into() };
    let j = event.to_json();
    assert_eq!(field(&j, "event"), "\"step_start\"");
    assert_eq!(field(&j, "chain_name"), "\"c\"");
    assert_eq!(field(&j, "step_index"), "3");
    assert_eq!(field(&j, "step_name"), "\"transform\"");
}

#[test]
fn test_step_end_to_json() {
    let event = ChainEvent::StepEnd { chain_name: "c".into(), step_index: 1, output: s("done") };
    let j = event.to_json();
    assert_eq!(field(&j, "event"), "\"step_end\"");
    assert_eq!(field(&j, "output"), "\"done\"");
}

#[test]
fn test_step_error_to_json() {
    let event = ChainEvent::StepError { chain_name: "c".into(), step_index: 0, error: "fail".into() };
    let j = event.to_json();
    assert_eq!(field(&j, "event"), "\"step_error\"");
    assert_eq!(field(&j, "error"), "\"fail\"");
}

#[test]
fn to_json_text_has_sorted_keys() {
    let event = ChainEvent::StepStart { chain_name: "c".into(), step_index: 3, step_name: "t".into() };
    assert_eq!(
        event.to_json().to_json_text(),
        "{\"chain_name\":\"c\",\"event\":\"step_start\",\"step_index\":3,\"step_name\":\"t\"}"
    );
}

#[test]
fn test_logging_callback_does_not_panic_on_chain_start() {
    let cb = LoggingCallback;
    let line = cb.log_line(&start("test"), 7);
    assert_eq!(line, "[7] [CHAIN_START] chain=test {\"event\":\"chain_start\",\"input\":null,\"name\":\"test\"}");
}

#[test]
fn test_logging_callback_does_not_panic_on_chain_end() {
    let cb = LoggingCallback;
    let line = cb.log_line(&ChainEvent::ChainEnd { name: "test".into(), output: s("ok") }, 0);
    assert!(line.starts_with("[0] [CHAIN_END] chain=test "));
}

#[test]
fn test_logging_callback_does_not_panic_on_error() {
    let cb = LoggingCallback;
    let line = cb.log_line(&ChainEvent::ChainError { name: "test".into(), error: "err".into() }, 1);
    assert!(line.contains("[CHAIN_ERROR]"));
    assert!(line.contains("\"error\":\"err\""));
}

#[test]
fn test_logging_callback_does_not_panic_on_step_events() {
    let cb = LoggingCallback;
    let a = cb.log_line(&ChainEvent::StepStart { chain_name: "c".into(), step_index: 0, step_name: "s".into() }, 1);
    let b = cb.log_line(&ChainEvent::StepEnd { chain_name: "c".into(), step_index: 0, output: num("1") }, 1);
    let c = cb.log_line(&ChainEvent::StepError { chain_name: "c".into(), step_index: 0, error: "e".into() }, 1);
    assert!(a.contains("[STEP_START] chain=c"));
    assert!(b.contains("[STEP_END] chain=c"));
    assert!(c.contains("[STEP_ERROR] chain=c"));
    assert_eq!(cb.callback_name(), "LoggingCallback");
}

#[test]
fn test_metrics_callback_counts_runs() {
    let mut cb = MetricsCallback::new();
    cb.on_event(&start("a"), 0);
    cb.on_event(&end("a"), 1);
    cb.on_event(&start("a"), 2);
    cb.on_event(&end("a"), 3);
    assert_eq!(metric(&cb, "a").0, 2);
}

#[test]
fn test_metrics_callback_counts_steps() {
    let mut cb = MetricsCallback::new();
    cb.on_event(&start("b"), 0);
    cb.on_event(&ChainEvent::StepStart { chain_name: "b".into(), step_index: 0, step_name: "s0".into() }, 1);
    cb.on_event(&ChainEvent::StepStart { chain_name: "b".into(), step_index: 1, step_name: "s1".into() }, 2);
    cb.on_event(&end("b"), 3);
    assert_eq!(metric(&cb, "b").1, 2);
}

#[test]
fn test_metrics_callback_counts_errors() {
    let mut cb = MetricsCallback::new();
    cb.on_event(&start("c"), 0);
    cb.on_event(&ChainEvent::StepError { chain_name: "c".into(), step_index: 0, error: "oops".into() }, 1);
    cb.on_event(&ChainEvent::ChainError { name: "c".into(), error: "fatal".into() }, 2);
    assert_eq!(metric(&cb, "c").2, 2);
}

#[test]
fn test_metrics_callback_tracks_duration() {
    let mut cb = MetricsCallback::new();
    cb.on_event(&start("d"), 1_000);
    cb.on_event(&end("d"), 11_000_000);
    assert_eq!(metric(&cb, "d").3, 10_999_000);
}

#[test]
fn test_metrics_callback_multiple_chains() {
    let mut cb = MetricsCallback::new();
    cb.on_event(&start("x"), 0);
    cb.on_event(&end("x"), 1);
    cb.on_event(&start("y"), 2);
    cb.on_event(&end("y"), 3);
    assert_eq!(cb.get_metrics().len(), 2);
    assert_eq!(metric(&cb, "x").0, 1);
    assert_eq!(metric(&cb, "y").0, 1);
}

#[test]
fn metrics_end_without_start_adds_no_time() {
    let mut cb = MetricsCallback::new();
    cb.on_event(&end("z"), 50);
    assert_eq!(metric(&cb, "z"), (1, 0, 0, 0));
    assert_eq!(cb.callback_name(), "MetricsCallback");
}

#[test]
fn test_tracing_callback_basic_trace() {
    let mut cb = TracingCallback::new();
    cb.on_event(&start("t"), 0);
    cb.on_event(&ChainEvent::ChainEnd { name: "t".into(), output: s("ok") }, 5);
    let traces = cb.get_traces();
    assert_eq!(traces.len(), 1);
    assert_eq!(traces[0].name, "t");
    assert_eq!(traces[0].status, "success");
}

#[test]
fn test_tracing_callback_with_steps() {
    let mut cb = TracingCallback::new();
    cb.on_event(&start("t"), 0);
    cb.on_event(&ChainEvent::StepStart { chain_name: "t".into(), step_index: 0, step_name: "prompt".into() }, 1);
    cb.on_event(&ChainEvent::StepEnd { chain_name: "t".into(), step_index: 0, output: s("formatted") }, 2);
    cb.on_event(&ChainEvent::StepStart { chain_name: "t".into(), step_index: 1, step_name: "llm".into() }, 3);
    cb.on_event(&ChainEvent::StepEnd { chain_name: "t".into(), step_index: 1, output: s("answer") }, 4);
    cb.on_event(&ChainEvent::ChainEnd { name: "t".into(), output: s("answer") }, 5);
    let traces = cb.get_traces();
    assert_eq!(traces[0].steps.len(), 2);
    assert_eq!(traces[0].steps[0].name, "prompt");
    assert_eq!(traces[0].steps[1].name, "llm");
    assert_eq!(traces[0].steps[0].output.as_ref().map(|o| o.to_json_text()), Some("\"formatted\"".to_string()));
}

#[test]
fn test_tracing_callback_error_trace() {
    let mut cb = TracingCallback::new();
    cb.on_event(&start("e"), 0);
    cb.on_event(&ChainEvent::ChainError { name: "e".into(), error: "timeout".into() }, 1);
    let traces = cb.get_traces();
    assert_eq!(traces.len(), 1);
    assert!(traces[0].status.starts_with("error"));
    assert_eq!(traces[0].status, "error: timeout");
}

#[test]
fn test_tracing_callback_step_error() {
    let mut cb = TracingCallback::new();
    cb.on_event(&start("f"), 0);
    cb.on_event(&ChainEvent::StepStart { chain_name: "f".into(), step_index: 0, step_name: "bad_step".into() }, 1);
    cb.on_event(&ChainEvent::StepError { chain_name: "f".into(), step_index: 0, error: "step boom".into() }, 2);
    cb.on_event(&ChainEvent::ChainError { name: "f".into(), error: "chain boom".into() }, 3);
    let traces = cb.get_traces();
    assert_eq!(traces[0].steps[0].error, Some("step boom".to_string()));
}

#[test]
fn test_tracing_callback_duration() {
    let mut cb = TracingCallback::new();
    cb.on_event(&start("g"), 100);
    cb.on_event(&end("g"), 10_000_100);
    let traces = cb.get_traces();
    assert_eq!(traces[0].duration_nanos, 10_000_000);
}

#[test]
fn tracing_ignores_events_of_chains_not_running() {
    let mut cb = TracingCallback::new();
    cb.on_event(&end("ghost"), 3);
    cb.on_event(&ChainEvent::StepStart { chain_name: "ghost".into(), step_index: 0, step_name: "s".into() }, 4);
    assert!(cb.get_traces().is_empty());
    assert_eq!(cb.callback_name(), "TracingCallback");
}

/// Hands each event to the callbacks the way a manager does.
fn emit(callbacks: &mut [&mut RecordingCallback], event: ChainEvent) {
    for cb in callbacks.iter_mut() {
        cb.on_event(&event);
    }
}

/// Forwards an event when the predicate holds, as a filter does.
fn filtered(inner: &mut RecordingCallback, keep: impl Fn(&ChainEvent) -> bool, event: &ChainEvent) {
    if keep(event) {
        inner.on_event(event);
    }
}

#[test]
fn test_filter_callback_forwards_matching_events() {
    let mut recorder = RecordingCallback::new("rec");
    filtered(&mut recorder, |e| e.is_error(), &start("a"));
    filtered(&mut recorder, |e| e.is_error(), &ChainEvent::ChainError { name: "a".into(), error: "err".into() });
    assert_eq!(recorder.event_count(), 1);
    assert_eq!(filter_callback_name(recorder.callback_name()), "FilterCallback(rec)");
}

#[test]
fn test_filter_callback_blocks_non_matching() {
    let mut recorder = RecordingCallback::new("rec");
    filtered(&mut recorder, |e| matches!(e, ChainEvent::ChainStart { .. }), &end("a"));
    assert_eq!(recorder.event_count(), 0);
}

#[test]
fn test_filter_callback_allows_all_with_true_predicate() {
    let mut recorder = RecordingCallback::new("rec");
    filtered(&mut recorder, |_| true, &start("a"));
    filtered(&mut recorder, |_| true, &end("a"));
    assert_eq!(recorder.event_count(), 2);
}

#[test]
fn test_callback_manager_dispatches_to_multiple() {
    let mut r1 = RecordingCallback::new("r1");
    let mut r2 = RecordingCallback::new("r2");
    emit(&mut [&mut r1, &mut r2], start("test"));
    assert_eq!(r1.event_count(), 1);
    assert_eq!(r2.event_count(), 1);
}

#[test]
fn test_callback_manager_emit_empty_no_panic() {
    emit(&mut [], start("test"));
}

#[test]
fn test_callback_scope_emits_start_and_finish() {
    let mut r = RecordingCallback::new("r");
    let (scope, ev) = CallbackScope::new("my_chain", JsonValue::Object(vec![("q".into(), s("hello"))]));
    r.on_event(&ev);
    r.on_event(&scope.finish(JsonValue::Object(vec![("a".into(), s("world"))])));
    let events = r.events();
    assert_eq!(events.len(), 2);
    assert!(matches!(&events[0], ChainEvent::ChainStart { name, .. } if name == "my_chain"));
    assert!(matches!(&events[1], ChainEvent::ChainEnd { name, .. } if name == "my_chain"));
}

#[test]
fn test_callback_scope_emits_error_on_drop() {
    let mut r = RecordingCallback::new("r");
    let (scope, ev) = CallbackScope::new("dropped_chain", JsonValue::Null);
    r.on_event(&ev);
    r.on_event(&scope.abandon());
    let events = r.events();
    assert_eq!(events.len(), 2);
    assert!(matches!(&events[1], ChainEvent::ChainError { name, error } if name == "dropped_chain" && error.contains("dropped")));
}

#[test]
fn test_callback_scope_explicit_error() {
    let mut r = RecordingCallback::new("r");
    let (scope, ev) = CallbackScope::new("err_chain", JsonValue::Null);
    r.on_event(&ev);
    r.on_event(&scope.error("explicit error"));
    let events = r.events();
    assert_eq!(events.len(), 2);
    assert!(matches!(&events[1], ChainEvent::ChainError { error, .. } if error == "explicit error"));
}

#[test]
fn test_callback_scope_with_steps() {
    let mut r = RecordingCallback::new("r");
    let (scope, ev) = CallbackScope::new("step_chain", JsonValue::Null);
    r.on_event(&ev);
    r.on_event(&scope.step(0, "format"));
    r.on_event(&scope.step_end(0, s("formatted")));
    r.on_event(&scope.step(1, "invoke"));
    r.on_event(&scope.step_end(1, s("result")));
    r.on_event(&scope.finish(s("result")));
    assert_eq!(r.events().len(), 6);
}

#[test]
fn test_callback_scope_step_error() {
    let mut r = RecordingCallback::new("r");
    let (scope, ev) = CallbackScope::new("se_chain", JsonValue::Null);
    r.on_event(&ev);
    r.on_event(&scope.step(0, "bad_step"));
    r.on_event(&scope.step_error(0, "step failed"));
    r.on_event(&scope.error("chain failed"));
    let events = r.events();
    assert_eq!(events.len(), 4);
    assert!(matches!(&events[2], ChainEvent::StepError { error, .. } if error == "step failed"));
}

#[test]
fn test_metrics_with_scope() {
    let mut metrics = MetricsCallback::new();
    let (scope, ev) = CallbackScope::new("integrated", JsonValue::Null);
    metrics.on_event(&ev, 0);
    metrics.on_event(&scope.step(0, "s0"), 1);
    metrics.on_event(&scope.step_end(0, JsonValue::Null), 2);
    metrics.on_event(&scope.finish(JsonValue::Null), 3);
    let (runs, steps, errors, _) = metric(&metrics, "integrated");
    assert_eq!(runs, 1);
    assert_eq!(steps, 1);
    assert_eq!(errors, 0);
}

#[test]
fn test_tracing_with_scope() {
    let mut tracing = TracingCallback::new();
    let (scope, ev) = CallbackScope::new("traced", JsonValue::Object(vec![("input".into(), num("1"))]));
    tracing.on_event(&ev, 0);
    tracing.on_event(&scope.step(0, "prompt"), 1);
    tracing.on_event(&scope.step_end(0, s("formatted")), 2);
    tracing.on_event(&scope.finish(s("done")), 3);
    let traces = tracing.get_traces();
    assert_eq!(traces.len(), 1);
    assert_eq!(traces[0].status, "success");
    assert_eq!(traces[0].steps.len(), 1);
    assert_eq!(traces[0].steps[0].name, "prompt");
}

#[test]
fn test_recording_callback_records_events() {
    let mut cb = RecordingCallback::new("test_rec");
    cb.on_event(&start("a"));
    cb.on_event(&end("a"));
    assert_eq!(cb.event_count(), 2);
    assert_eq!(cb.callback_name(), "test_rec");
    assert_eq!(cb.events()[1].to_json().to_json_text(), end("a").to_json().to_json_text());
}
