use rustchain::chains::composition::ChainMetrics;
use rustchain::json::JsonValue;

/// The success rate as the callers compute it from the counts.
fn success_rate(m: &ChainMetrics) -> f64 {
    let n = m.step_metrics().len();
    if n == 0 {
        0.0
    } else {
        m.success_count() as f64 / n as f64
    }
}

fn member<'a>(v: &'a JsonValue, key: &str) -> &'a JsonValue {
    v.get(key).expect("member present")
}

#[test]
fn test_metrics_empty() {
    let metrics = ChainMetrics::new();
    assert_eq!(metrics.total_duration_ms(), 0);
    assert_eq!(success_rate(&metrics), 0.0);
    assert!(metrics.step_metrics().is_empty());
}

#[test]
fn test_metrics_record_and_query() {
    let mut metrics = ChainMetrics::new();
    metrics.record("step1", 100, true);
    metrics.record("step2", 200, true);
    assert_eq!(metrics.total_duration_ms(), 300);
    assert_eq!(success_rate(&metrics), 1.0);
    assert_eq!(metrics.step_metrics().len(), 2);
}

#[test]
fn test_metrics_success_rate_partial() {
    let mut metrics = ChainMetrics::new();
    metrics.record("ok", 50, true);
    metrics.record("fail", 30, false);
    assert!((success_rate(&metrics) - 0.5).abs() < f64::EPSILON);
}

#[test]
fn test_metrics_to_json() {
    let mut metrics = ChainMetrics::new();
    metrics.record("step1", 100, true);
    metrics.record("step2", 50, false);
    let j = metrics.to_json();
    assert_eq!(member(&j, "total_duration_ms").to_json_text(), "150");
    assert_eq!(member(&j, "step_count").to_json_text(), "2");
    match member(&j, "steps") {
        JsonValue::Array(steps) => {
            assert_eq!(steps.len(), 2);
            assert_eq!(member(&steps[0], "step_name").to_json_text(), "\"step1\"");
            assert_eq!(member(&steps[1], "success").to_json_text(), "false");
        }
        other => panic!("not an array: {other:?}"),
    }
    assert_eq!(
        j.to_json_text(),
        "{\"step_count\":2,\"steps\":[{\"duration_ms\":100,\"step_name\":\"step1\",\"success\":true},{\"duration_ms\":50,\"step_name\":\"step2\",\"success\":false}],\"total_duration_ms\":150}"
    );
}

#[test]
fn test_metrics_all_failures() {
    let mut metrics = ChainMetrics::new();
    metrics.record("f1", 10, false);
    metrics.record("f2", 20, false);
    assert_eq!(success_rate(&metrics), 0.0);
    assert_eq!(metrics.success_count(), 0);
}
