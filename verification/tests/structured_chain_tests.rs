use rustchain::chains::structured_output::StructuredOutputChain;
use rustchain::error::RustChainError;
use rustchain::json::JsonValue;

fn s(x: &str) -> JsonValue {
    JsonValue::Str(x.to_string())
}

fn obj(pairs: Vec<(&str, JsonValue)>) -> JsonValue {
    JsonValue::Object(pairs.into_iter().map(|(k, v)| (k.to_string(), v)).collect())
}

fn person_schema() -> JsonValue {
    obj(vec![("type", s("object"))])
}

#[test]
fn test_structured_output_missing_variable() {
    let chain = StructuredOutputChain::builder()
        .schema(person_schema())
        .prompt("Extract from {text} in {language}")
        .build();
    let e = chain.format_prompt(&obj(vec![("text", s("something"))]), None).unwrap_err();
    match e {
        RustChainError::InvalidKey(m) => {
            assert!(m.contains("language"));
            assert_eq!(m, "Missing input variable(s): language");
        }
        other => panic!("unexpected {other:?}"),
    }
}

#[test]
fn test_schema_accessor() {
    let chain = StructuredOutputChain::builder().schema(person_schema()).prompt("test {x}").build();
    assert_eq!(chain.schema().to_json_text(), person_schema().to_json_text());
    assert_eq!(chain.name(), "StructuredOutputChain");
}

#[test]
fn test_structured_output_multiple_variables() {
    let chain = StructuredOutputChain::builder()
        .schema(person_schema())
        .prompt("Extract {entity_type} from: {text}")
        .build();
    let p = chain
        .format_prompt(&obj(vec![("entity_type", s("person")), ("text", s("Frank is 50 years old"))]), None)
        .unwrap();
    assert_eq!(p, "Extract person from: Frank is 50 years old");
}

#[test]
fn test_structured_output_with_output_key() {
    let chain = StructuredOutputChain::builder()
        .schema(person_schema())
        .prompt("Extract: {text}")
        .output_key("person")
        .build();
    let parsed = obj(vec![("name", s("Bob")), ("age", JsonValue::Number("25".into()))]);
    let out = chain.wrap_output(parsed);
    let person = out.get("person").expect("person member");
    assert_eq!(person.get("name").map(|v| v.to_json_text()), Some("\"Bob\"".to_string()));
    assert_eq!(person.get("age").map(|v| v.to_json_text()), Some("25".to_string()));
}

#[test]
fn structured_prompt_appends_instructions() {
    let chain = StructuredOutputChain::builder().schema(person_schema()).prompt("Extract: {text}").build();
    let p = chain.format_prompt(&obj(vec![("text", s("Carol is 40"))]), Some("Return JSON.")).unwrap();
    assert_eq!(p, "Extract: Carol is 40\n\nReturn JSON.");
    let same = chain.wrap_output(s("x"));
    assert_eq!(same.to_json_text(), "\"x\"");
    assert!(matches!(chain.format_prompt(&s("nope"), None), Err(RustChainError::TypeMismatch { .. })));
}
