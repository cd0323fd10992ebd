use rustchain::chains::pipeline::{PipelineCall, PipelineEvent, PipelineOp, PipelineRun};
use rustchain::json::JsonValue;

type Handler = Box<dyn Fn(JsonValue) -> Result<JsonValue, String>>;
type Condition = Box<dyn Fn(&JsonValue) -> bool>;

enum Kind {
    Step(&'static str),
    Parallel(Vec<&'static str>),
    Transform,
    Each,
    Conditional(usize, bool),
}

/// A pipeline driven through `PipelineRun`, holding its functions.
struct Pipe {
    kinds: Vec<Kind>,
    handlers: Vec<Vec<Handler>>,
    conditions: Vec<Vec<Condition>>,
}

impl Pipe {
    fn new() -> Self {
        Pipe { kinds: vec![], handlers: vec![], conditions: vec![] }
    }
    fn then(mut self, name: &'static str, h: Handler) -> Self {
        self.kinds.push(Kind::Step(name));
        self.handlers.push(vec![h]);
        self.conditions.push(vec![]);
        self
    }
    fn transform(mut self, h: Handler) -> Self {
        self.kinds.push(Kind::Transform);
        self.handlers.push(vec![h]);
        self.conditions.push(vec![]);
        self
    }
    fn map(mut self, h: Handler) -> Self {
        self.kinds.push(Kind::Each);
        self.handlers.push(vec![h]);
        self.conditions.push(vec![]);
        self
    }
    fn parallel(mut self, branches: Vec<(&'static str, Handler)>) -> Self {
        let (names, hs): (Vec<_>, Vec<_>) = branches.into_iter().unzip();
        self.kinds.push(Kind::Parallel(names));
        self.handlers.push(hs);
        self.conditions.push(vec![]);
        self
    }
    fn conditional(mut self, branches: Vec<(Condition, Handler)>, otherwise: Option<Handler>) -> Self {
        let n = branches.len();
        let (cs, mut hs): (Vec<_>, Vec<_>) = branches.into_iter().unzip();
        let has = otherwise.is_some();
        if let Some(o) = otherwise {
            hs.push(o);
        }
        self.kinds.push(Kind::Conditional(n, has));
        self.handlers.push(hs);
        self.conditions.push(cs);
        self
    }
    fn ops(&self) -> Vec<PipelineOp> {
        self.kinds
            .iter()
            .map(|k| match k {
                Kind::Step(n) => PipelineOp::Step(n.to_string()),
                Kind::Parallel(ns) => PipelineOp::Parallel(ns.iter().map(|s| s.to_string()).collect()),
                Kind::Transform => PipelineOp::Transform,
                Kind::Each => PipelineOp::MapEach,
                Kind::Conditional(c, o) => PipelineOp::Conditional { conditions: *c, has_otherwise: *o },
            })
            .collect()
    }
    fn execute(&self, input: JsonValue) -> Result<JsonValue, String> {
        let (mut run, mut call) = PipelineRun::start(self.ops(), input);
        loop {
            call = match call {
                PipelineCall::Handler { op, index, input } => {
                    run.step(PipelineEvent::Output((self.handlers[op][index])(input)))
                }
                PipelineCall::Condition { op, index, input } => {
                    run.step(PipelineEvent::Matched((self.conditions[op][index])(&input)))
                }
                PipelineCall::Finished(r) => {
                    assert!(run.is_over());
                    return r;
                }
            }
        }
    }
}

fn n(x: i64) -> JsonValue {
    JsonValue::Number(x.to_string())
}

fn as_i64(v: &JsonValue) -> Option<i64> {
    match v {
        JsonValue::Number(t) => t.parse().ok(),
        _ => None,
    }
}

fn obj(pairs: Vec<(&str, JsonValue)>) -> JsonValue {
    JsonValue::Object(pairs.into_iter().map(|(k, v)| (k.to_string(), v)).collect())
}

fn value_of(v: &JsonValue) -> Result<i64, String> {
    v.get("value").and_then(as_i64).ok_or_else(|| "missing value".to_string())
}

fn double_handler() -> Handler {
    Box::new(|v| Ok(obj(vec![("value", n(value_of(&v)? * 2))])))
}

fn add_one_handler() -> Handler {
    Box::new(|v| Ok(obj(vec![("value", n(value_of(&v)? + 1))])))
}

fn failing_handler() -> Handler {
    Box::new(|_| Err("intentional failure".to_string()))
}

fn identity_handler() -> Handler {
    Box::new(Ok)
}

fn text(r: Result<JsonValue, String>) -> String {
    r.unwrap().to_json_text()
}

#[test]
fn test_pipeline_empty() {
    let pipeline = Pipe::new();
    assert_eq!(text(pipeline.execute(obj(vec![("value", n(42))]))), "{\"value\":42}");
}

#[test]
fn test_pipeline_then() {
    let pipeline = Pipe::new().then("double", double_handler());
    assert_eq!(text(pipeline.execute(obj(vec![("value", n(5))]))), "{\"value\":10}");
}

#[test]
fn test_pipeline_transform() {
    let pipeline = Pipe::new().transform(Box::new(|v| {
        let x = value_of(&v).unwrap_or(0);
        Ok(obj(vec![("squared", n(x * x))]))
    }));
    assert_eq!(text(pipeline.execute(obj(vec![("value", n(4))]))), "{\"squared\":16}");
}

#[test]
fn test_pipeline_map() {
    let pipeline = Pipe::new().map(Box::new(|v| {
        let x = as_i64(&v).ok_or("not a number")?;
        Ok(n(x + 10))
    }));
    let result = pipeline.execute(JsonValue::Array(vec![n(1), n(2), n(3)]));
    assert_eq!(text(result), "[11,12,13]");
}

#[test]
fn test_pipeline_parallel() {
    let pipeline = Pipe::new().parallel(vec![("doubled", double_handler()), ("plus_one", add_one_handler())]);
    let result = pipeline.execute(obj(vec![("value", n(3))]));
    assert_eq!(text(result), "{\"doubled\":{\"value\":6},\"plus_one\":{\"value\":4}}");
}

#[test]
fn test_pipeline_conditional() {
    let make = || {
        Pipe::new().conditional(
            vec![(
                Box::new(|v: &JsonValue| matches!(v.get("positive"), Some(JsonValue::Bool(true)))) as Condition,
                Box::new(|_| Ok(obj(vec![("sentiment", JsonValue::Str("positive".into()))]))) as Handler,
            )],
            Some(Box::new(|_| Ok(obj(vec![("sentiment", JsonValue::Str("negative".into()))])))),
        )
    };
    let pos = make().execute(obj(vec![("positive", JsonValue::Bool(true))])).unwrap();
    assert_eq!(pos.get_str("sentiment"), Some("positive"));
    let neg = make().execute(obj(vec![("positive", JsonValue::Bool(false))])).unwrap();
    assert_eq!(neg.get_str("sentiment"), Some("negative"));
}

#[test]
fn test_pipeline_chained_operations() {
    let pipeline = Pipe::new().then("double", double_handler()).then("add_one", add_one_handler());
    assert_eq!(text(pipeline.execute(obj(vec![("value", n(3))]))), "{\"value\":7}");
}

#[test]
fn test_pipeline_error_propagation() {
    let pipeline = Pipe::new().then("fail", failing_handler()).then("unreachable", identity_handler());
    assert_eq!(pipeline.execute(obj(vec![])).unwrap_err(), "intentional failure");
}

#[test]
fn test_pipeline_transform_then_map() {
    let pipeline = Pipe::new()
        .transform(Box::new(|v| match v.get("items") {
            Some(JsonValue::Array(items)) => Ok(JsonValue::Array(items.iter().map(|i| i.copy()).collect())),
            _ => Err("no items".to_string()),
        }))
        .map(Box::new(|v| Ok(n(as_i64(&v).unwrap_or(0) * 10))));
    let result = pipeline.execute(obj(vec![("items", JsonValue::Array(vec![n(1), n(2)]))]));
    assert_eq!(text(result), "[10,20]");
}

#[test]
fn pipeline_map_refuses_non_array() {
    let pipeline = Pipe::new().map(identity_handler());
    assert_eq!(pipeline.execute(obj(vec![])).unwrap_err(), "Pipeline map expects a JSON array");
}

#[test]
fn pipeline_conditional_without_match_or_fallback_fails() {
    let pipeline = Pipe::new().conditional(
        vec![(Box::new(|_: &JsonValue| false) as Condition, identity_handler())],
        None,
    );
    assert_eq!(pipeline.execute(JsonValue::Null).unwrap_err(), "No condition matched in pipeline conditional");
    let none = Pipe::new().conditional(vec![], None);
    assert_eq!(none.execute(JsonValue::Null).unwrap_err(), "No condition matched in pipeline conditional");
}

#[test]
fn pipeline_first_condition_wins() {
    let pipeline = Pipe::new().conditional(
        vec![
            (Box::new(|_: &JsonValue| true) as Condition, Box::new(|_| Ok(n(1))) as Handler),
            (Box::new(|_: &JsonValue| true) as Condition, Box::new(|_| Ok(n(2))) as Handler),
        ],
        Some(Box::new(|_| Ok(n(3)))),
    );
    assert_eq!(text(pipeline.execute(JsonValue::Null)), "1");
}

#[test]
fn pipeline_empty_parallel_and_map_pass_through() {
    let pipeline = Pipe::new().parallel(vec![]).then("id", identity_handler());
    assert_eq!(text(pipeline.execute(n(1))), "{}");
    let mapped = Pipe::new().map(failing_handler());
    assert_eq!(text(mapped.execute(JsonValue::Array(vec![]))), "[]");
}

#[test]
fn pipeline_parallel_keys_sorted_and_repeated_names_overwrite() {
    let pipeline = Pipe::new().parallel(vec![
        ("b", Box::new(|_| Ok(n(1))) as Handler),
        ("a", Box::new(|_| Ok(n(2))) as Handler),
        ("b", Box::new(|_| Ok(n(3))) as Handler),
    ]);
    assert_eq!(text(pipeline.execute(JsonValue::Null)), "{\"a\":2,\"b\":3}");
}

#[test]
fn pipeline_error_in_map_element_stops() {
    let pipeline = Pipe::new().map(Box::new(|v| if as_i64(&v) == Some(2) { Err("bad 2".into()) } else { Ok(v) }));
    assert_eq!(pipeline.execute(JsonValue::Array(vec![n(1), n(2), n(3)])).unwrap_err(), "bad 2");
}
