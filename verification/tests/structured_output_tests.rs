use rustchain::agents::structured_output::{
    AutoStrategy, ErrorHandling, MultipleStructuredOutputsError, OutputToolBinding, ProviderStrategy,
    ProviderStrategyBinding, ResponseFormat, SchemaKind, SchemaSpec, StructuredOutputError,
    StructuredOutputValidationError, ToolStrategy,
};
use rustchain::json::JsonValue;

fn s(x: &str) -> JsonValue {
    JsonValue::Str(x.to_string())
}

fn obj(pairs: Vec<(&str, JsonValue)>) -> JsonValue {
    JsonValue::Object(pairs.into_iter().map(|(k, v)| (k.to_string(), v)).collect())
}

fn text(v: &JsonValue) -> String {
    v.to_json_text()
}

fn object_schema() -> JsonValue {
    obj(vec![("type", s("object"))])
}

fn kwarg_text(kwargs: &[(String, JsonValue)], path: &[&str]) -> String {
    assert_eq!(kwargs.len(), 1);
    assert_eq!(kwargs[0].0, "response_format");
    let mut v = &kwargs[0].1;
    for k in path {
        v = v.get(k).expect("member");
    }
    v.to_json_text()
}

#[test]
fn test_error_handling_from_bool() {
    let eh: ErrorHandling = true.into();
    assert!(matches!(eh, ErrorHandling::Enabled));
    let eh: ErrorHandling = false.into();
    assert!(matches!(eh, ErrorHandling::Disabled));
}

#[test]
fn test_error_handling_with_message() {
    let eh = ErrorHandling::WithMessage("retry please".to_string());
    if let ErrorHandling::WithMessage(msg) = eh {
        assert_eq!(msg, "retry please");
    } else {
        panic!("Expected WithMessage");
    }
}

#[test]
fn test_error_handling_with_types() {
    let eh = ErrorHandling::WithTypes(vec!["ValidationError".to_string()]);
    if let ErrorHandling::WithTypes(types) = eh {
        assert_eq!(types, vec!["ValidationError"]);
    } else {
        panic!("Expected WithTypes");
    }
}

#[test]
fn test_error_handling_default_and_kind_names() {
    assert!(matches!(ErrorHandling::default(), ErrorHandling::Disabled));
    assert_eq!(SchemaKind::Pydantic.as_str(), "pydantic");
    assert_eq!(SchemaKind::JsonSchema.as_str(), "json_schema");
    assert_eq!(SchemaKind::Dataclass.as_str(), "dataclass");
    assert_eq!(SchemaKind::TypedDict.as_str(), "typed_dict");
}

#[test]
fn test_tool_strategy_new() {
    let schema = obj(vec![("type", s("object")), ("properties", obj(vec![("name", obj(vec![("type", s("string"))]))]))]);
    let expected = text(&schema);
    let strategy = ToolStrategy::new(schema);
    assert_eq!(text(&strategy.schema), expected);
    assert!(strategy.tool_message_content.is_empty());
    assert!(matches!(strategy.handle_errors, ErrorHandling::Disabled));
    assert!(strategy.schema_specs.is_empty());
}

#[test]
fn test_tool_strategy_builder() {
    let strategy = ToolStrategy::new(object_schema())
        .with_tool_message_content("You have provided the output.")
        .with_handle_errors(ErrorHandling::Enabled);
    assert_eq!(strategy.tool_message_content, "You have provided the output.");
    assert!(matches!(strategy.handle_errors, ErrorHandling::Enabled));
}

#[test]
fn test_tool_strategy_from_schema_specs_single() {
    let schema = obj(vec![("type", s("object")), ("properties", obj(vec![("x", obj(vec![("type", s("integer"))]))]))]);
    let expected = text(&schema);
    let spec = SchemaSpec::new(SchemaKind::JsonSchema, "MyOutput", schema);
    let strategy = ToolStrategy::from_schema_specs(vec![spec]);
    assert_eq!(strategy.schema_specs.len(), 1);
    assert_eq!(text(&strategy.schema), expected);
}

#[test]
fn test_tool_strategy_from_schema_specs_multiple() {
    let spec1 = SchemaSpec::new(SchemaKind::JsonSchema, "OutputA", obj(vec![("a", s("string"))]));
    let spec2 = SchemaSpec::new(SchemaKind::JsonSchema, "OutputB", obj(vec![("b", s("integer"))]));
    let strategy = ToolStrategy::from_schema_specs(vec![spec1, spec2]);
    assert_eq!(strategy.schema_specs.len(), 2);
    assert!(strategy.schema.get("oneOf").is_some());
    match strategy.schema.get("oneOf") {
        Some(JsonValue::Array(items)) => assert_eq!(items.len(), 2),
        _ => panic!("oneOf array expected"),
    }
    assert_eq!(text(&strategy.schema), "{\"oneOf\":[{\"a\":\"string\"},{\"b\":\"integer\"}]}");
}

#[test]
fn test_provider_strategy_new() {
    let strategy = ProviderStrategy::new(object_schema());
    assert_eq!(text(&strategy.schema), "{\"type\":\"object\"}");
    assert_eq!(strategy.schema_name, "output");
    assert!(!strategy.strict);
}

#[test]
fn test_provider_strategy_with_strict() {
    let strategy = ProviderStrategy::new(object_schema()).with_strict(true);
    assert!(strategy.strict);
}

#[test]
fn test_provider_strategy_with_schema_name() {
    let strategy = ProviderStrategy::new(object_schema()).with_schema_name("MySchema");
    assert_eq!(strategy.schema_name, "MySchema");
}

#[test]
fn test_provider_strategy_to_model_kwargs() {
    let schema = obj(vec![("type", s("object")), ("properties", obj(vec![("x", obj(vec![("type", s("integer"))]))]))]);
    let expected = text(&schema);
    let strategy = ProviderStrategy::new(schema).with_schema_name("TestSchema").with_strict(true);
    let kwargs = strategy.to_model_kwargs();
    assert_eq!(kwarg_text(&kwargs, &["type"]), "\"json_schema\"");
    assert_eq!(kwarg_text(&kwargs, &["json_schema", "name"]), "\"TestSchema\"");
    assert_eq!(kwarg_text(&kwargs, &["json_schema", "schema"]), expected);
    assert_eq!(kwarg_text(&kwargs, &["json_schema", "strict"]), "true");
}

#[test]
fn test_provider_strategy_to_model_kwargs_not_strict() {
    let kwargs = ProviderStrategy::new(object_schema()).to_model_kwargs();
    assert_eq!(kwarg_text(&kwargs, &["json_schema", "strict"]), "false");
    assert_eq!(
        kwarg_text(&kwargs, &[]),
        "{\"json_schema\":{\"name\":\"output\",\"schema\":{\"type\":\"object\"},\"strict\":false},\"type\":\"json_schema\"}"
    );
}

#[test]
fn test_auto_strategy_new() {
    let strategy = AutoStrategy::new(object_schema());
    assert_eq!(text(&strategy.schema), "{\"type\":\"object\"}");
}

#[test]
fn test_response_format_tool() {
    let rf = ResponseFormat::tool(object_schema());
    assert_eq!(text(rf.schema()), "{\"type\":\"object\"}");
    assert!(matches!(rf, ResponseFormat::Tool(_)));
}

#[test]
fn test_response_format_provider() {
    let rf = ResponseFormat::provider(object_schema());
    assert_eq!(text(rf.schema()), "{\"type\":\"object\"}");
    assert!(matches!(rf, ResponseFormat::Provider(_)));
}

#[test]
fn test_response_format_auto() {
    let rf = ResponseFormat::auto(object_schema());
    assert_eq!(text(rf.schema()), "{\"type\":\"object\"}");
    assert!(matches!(rf, ResponseFormat::Auto(_)));
}

#[test]
fn test_structured_output_error_display() {
    let err = StructuredOutputError::new("something went wrong");
    assert_eq!(err.to_string(), "StructuredOutputError: something went wrong");
    assert!(err.ai_message.is_none());
}

#[test]
fn test_structured_output_error_with_ai_message() {
    let err = StructuredOutputError::new("bad output")
        .with_ai_message(obj(vec![("role", s("assistant")), ("content", s("oops"))]));
    assert!(err.ai_message.is_some());
}

#[test]
fn test_multiple_structured_outputs_error_display() {
    let err = MultipleStructuredOutputsError::new("Both tool and provider format specified");
    assert!(err.to_string().contains("Multiple"));
    assert!(err.to_string().contains("Both tool and provider"));
    assert!(err.ai_message.is_none());
    assert!(err.tool_names.is_empty());
}

#[test]
fn test_multiple_structured_outputs_error_with_fields() {
    let err = MultipleStructuredOutputsError::new("multiple tools")
        .with_ai_message(obj(vec![("role", s("assistant"))]))
        .with_tool_names(vec!["tool_a".to_string(), "tool_b".to_string()]);
    assert!(err.ai_message.is_some());
    assert_eq!(err.tool_names, vec!["tool_a", "tool_b"]);
}

#[test]
fn test_structured_output_validation_error() {
    let err = StructuredOutputValidationError::new("invalid field 'x'").with_raw_output("{\"x\": null}");
    assert!(err.to_string().contains("invalid field 'x'"));
    assert!(err.to_string().contains("raw output"));
    assert_eq!(err.raw_output.as_deref(), Some("{\"x\": null}"));
    assert_eq!(err.to_string(), "StructuredOutputValidationError: invalid field 'x' (raw output: {\"x\": null})");
}

#[test]
fn test_structured_output_validation_error_no_raw() {
    let err = StructuredOutputValidationError::new("missing field");
    assert!(err.raw_output.is_none());
    assert!(!err.to_string().contains("raw output"));
}

#[test]
fn test_structured_output_validation_error_full() {
    let err = StructuredOutputValidationError::new("bad value")
        .with_raw_output("{}")
        .with_ai_message(obj(vec![("role", s("assistant"))]))
        .with_tool_name("my_tool")
        .with_source_error("JSON parse error");
    assert!(err.ai_message.is_some());
    assert_eq!(err.tool_name.as_deref(), Some("my_tool"));
    assert_eq!(err.source_error.as_deref(), Some("JSON parse error"));
}

#[test]
fn test_schema_spec_new() {
    let spec = SchemaSpec::new(SchemaKind::Pydantic, "UserOutput", object_schema());
    assert_eq!(spec.kind, SchemaKind::Pydantic);
    assert_eq!(spec.name, "UserOutput");
    assert!(spec.description.is_none());
}

#[test]
fn test_schema_spec_with_description() {
    let spec = SchemaSpec::new(SchemaKind::JsonSchema, "Test", obj(vec![])).with_description("A test schema");
    assert_eq!(spec.description.as_deref(), Some("A test schema"));
}

#[test]
fn test_output_tool_binding_from_schema_spec() {
    let spec = SchemaSpec::new(SchemaKind::JsonSchema, "MyTool", object_schema());
    let binding = OutputToolBinding::from_schema_spec(spec, false);
    assert_eq!(binding.tool_name, "MyTool");
    assert!(!binding.include_raw);
}

fn my_tool_binding() -> OutputToolBinding {
    OutputToolBinding::from_schema_spec(SchemaSpec::new(SchemaKind::JsonSchema, "MyTool", object_schema()), false)
}

#[test]
fn test_output_tool_binding_parse_success() {
    let ai_msg = obj(vec![(
        "tool_calls",
        JsonValue::Array(vec![obj(vec![("name", s("MyTool")), ("args", obj(vec![("x", JsonValue::Number("42".into()))]))])]),
    )]);
    let result = my_tool_binding().parse(&ai_msg).unwrap();
    assert_eq!(text(&result), "{\"x\":42}");
}

#[test]
fn test_output_tool_binding_parse_no_matching_tool() {
    let ai_msg = obj(vec![(
        "tool_calls",
        JsonValue::Array(vec![obj(vec![("name", s("OtherTool")), ("args", obj(vec![("x", JsonValue::Number("1".into()))]))])]),
    )]);
    let err = my_tool_binding().parse(&ai_msg).unwrap_err();
    assert!(err.message.contains("No tool call found"));
    assert_eq!(err.message, "No tool call found with name 'MyTool'");
    assert_eq!(err.tool_name.as_deref(), Some("MyTool"));
}

#[test]
fn test_output_tool_binding_parse_no_tool_calls() {
    let ai_msg = obj(vec![("content", s("hello"))]);
    let err = my_tool_binding().parse(&ai_msg).unwrap_err();
    assert!(err.message.contains("does not contain tool_calls"));
}

#[test]
fn output_tool_binding_skips_calls_without_args() {
    let ai_msg = obj(vec![(
        "tool_calls",
        JsonValue::Array(vec![
            obj(vec![("name", s("MyTool"))]),
            obj(vec![("name", s("MyTool")), ("args", s("second"))]),
        ]),
    )]);
    assert_eq!(text(&my_tool_binding().parse(&ai_msg).unwrap()), "\"second\"");
}

fn output_binding(strict: bool) -> ProviderStrategyBinding {
    ProviderStrategyBinding::from_schema_spec(SchemaSpec::new(SchemaKind::JsonSchema, "Output", object_schema()), strict)
}

#[test]
fn test_provider_strategy_binding_from_schema_spec() {
    let spec = SchemaSpec::new(SchemaKind::JsonSchema, "MyOutput", object_schema());
    let binding = ProviderStrategyBinding::from_schema_spec(spec, true);
    assert!(binding.strict);
    assert_eq!(binding.schema_spec.name, "MyOutput");
}

#[test]
fn test_provider_strategy_binding_parse_string_content() {
    let ai_msg = obj(vec![("content", s("{\"x\": 42}"))]);
    let result = output_binding(false).parse(&ai_msg).unwrap();
    assert_eq!(text(&result), "{\"x\":42}");
}

#[test]
fn test_provider_strategy_binding_parse_object_content() {
    let ai_msg = obj(vec![("content", obj(vec![("x", JsonValue::Number("42".into()))]))]);
    let result = output_binding(false).parse(&ai_msg).unwrap();
    assert_eq!(text(&result), "{\"x\":42}");
}

#[test]
fn test_provider_strategy_binding_parse_no_content() {
    let ai_msg = obj(vec![("role", s("assistant"))]);
    let err = output_binding(false).parse(&ai_msg).unwrap_err();
    assert!(err.message.contains("does not contain content"));
}

#[test]
fn provider_binding_reports_invalid_json() {
    let ai_msg = obj(vec![("content", s("not json"))]);
    let err = output_binding(false).parse(&ai_msg).unwrap_err();
    assert!(err.message.starts_with("Failed to parse provider response as JSON: "));
    assert!(err.source_error.is_some());
    let direct = ProviderStrategyBinding::from_parsed(&ai_msg, Err("bad".to_string())).unwrap_err();
    assert_eq!(direct.message, "Failed to parse provider response as JSON: bad");
    assert_eq!(direct.source_error.as_deref(), Some("bad"));
    let ok = ProviderStrategyBinding::from_parsed(&ai_msg, Ok(JsonValue::Bool(true))).unwrap();
    assert_eq!(text(&ok), "true");
}

#[test]
fn test_provider_strategy_binding_to_model_kwargs() {
    let spec = SchemaSpec::new(SchemaKind::JsonSchema, "TestOutput", obj(vec![("type", s("object"))]));
    let binding = ProviderStrategyBinding::from_schema_spec(spec, true);
    let kwargs = binding.to_model_kwargs();
    assert_eq!(kwarg_text(&kwargs, &["type"]), "\"json_schema\"");
    assert_eq!(kwarg_text(&kwargs, &["json_schema", "name"]), "\"TestOutput\"");
    assert_eq!(kwarg_text(&kwargs, &["json_schema", "strict"]), "true");
}
