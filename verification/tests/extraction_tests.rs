use rustchain::chains::extraction::{
    ExtractionChain, ExtractionExample, ExtractionSchema, FieldType, OutputFormat,
    SchemaFieldBuilder,
};
use rustchain::error::RustChainError;
use rustchain::json::JsonValue;
use rustchain::messages::MessageType;

fn person_schema() -> ExtractionSchema {
    ExtractionSchema::builder()
        .name("Person")
        .description("A person entity with name and age")
        .required_field("name", FieldType::String, "The person's full name")
        .required_field("age", FieldType::Integer, "The person's age in years")
        .build()
}

fn text_of(v: &JsonValue) -> String {
    v.to_json_text()
}

fn member<'a>(v: &'a JsonValue, key: &str) -> &'a JsonValue {
    v.get(key).expect("member present")
}

#[test]
fn test_schema_builder() {
    let schema = ExtractionSchema::builder()
        .name("Person")
        .description("A person entity")
        .required_field("name", FieldType::String, "Name")
        .required_field("age", FieldType::Integer, "Age")
        .build();
    assert_eq!(schema.name, "Person");
    assert_eq!(schema.description, "A person entity");
    assert_eq!(schema.fields.len(), 2);
    assert!(schema.fields[0].required);
    assert!(schema.fields[1].required);
}

#[test]
fn test_field_types() {
    let field_str = SchemaFieldBuilder::new("name", FieldType::String).description("A name").build();
    assert_eq!(field_str.field_type, FieldType::String);
    assert_eq!(field_str.field_type.to_string(), "string");
    let field_int = SchemaFieldBuilder::new("count", FieldType::Integer).build();
    assert_eq!(field_int.field_type, FieldType::Integer);
    assert_eq!(field_int.field_type.to_string(), "integer");
    let field_float = SchemaFieldBuilder::new("score", FieldType::Float).build();
    assert_eq!(field_float.field_type, FieldType::Float);
    let field_bool = SchemaFieldBuilder::new("active", FieldType::Boolean).build();
    assert_eq!(field_bool.field_type, FieldType::Boolean);
    let field_arr = SchemaFieldBuilder::new("tags", FieldType::Array).build();
    assert_eq!(field_arr.field_type, FieldType::Array);
    let field_obj = SchemaFieldBuilder::new("address", FieldType::Object).build();
    assert_eq!(field_obj.field_type, FieldType::Object);
}

#[test]
fn test_prompt_instruction_generation() {
    let schema = person_schema();
    let instruction = schema.to_prompt_instruction();
    assert!(instruction.contains("Person"));
    assert!(instruction.contains("name"));
    assert!(instruction.contains("age"));
    assert!(instruction.contains("[REQUIRED]"));
    assert!(instruction.contains("Required fields:"));
    assert!(instruction.contains("string"));
    assert!(instruction.contains("integer"));
}

#[test]
fn test_required_vs_optional_fields() {
    let schema = ExtractionSchema::builder()
        .name("Person")
        .description("A person")
        .required_field("name", FieldType::String, "Name")
        .field(
            SchemaFieldBuilder::new("nickname", FieldType::String)
                .description("Nickname")
                .required(false)
                .build(),
        )
        .build();
    let instruction = schema.to_prompt_instruction();
    assert!(instruction.contains("[REQUIRED]"));
    assert!(instruction.contains("[OPTIONAL]"));
    assert!(instruction.contains("Required fields: name"));
    assert!(instruction.contains("Optional fields: nickname"));
}

#[test]
fn test_enum_field_values() {
    let field = SchemaFieldBuilder::new("status", FieldType::String)
        .description("Employment status")
        .enum_values(vec!["employed".to_string(), "unemployed".to_string(), "student".to_string()])
        .required(true)
        .build();
    assert_eq!(
        field.enum_values,
        Some(vec!["employed".to_string(), "unemployed".to_string(), "student".to_string()])
    );
    let schema = ExtractionSchema::builder().name("Person").description("A person").field(field).build();
    let instruction = schema.to_prompt_instruction();
    assert!(instruction.contains("Allowed values: employed, unemployed, student"));
}

#[test]
fn test_extraction_with_mock_llm() {
    let response = r#"[{"name": "Alice", "age": 30}]"#;
    let chain = ExtractionChain::builder().schema(person_schema()).build();
    let entities = chain.parse_response(response).unwrap();
    assert_eq!(entities.len(), 1);
    assert_eq!(text_of(member(&entities[0], "name")), "\"Alice\"");
    assert_eq!(text_of(member(&entities[0], "age")), "30");
}

#[test]
fn test_few_shot_examples_in_prompt() {
    let example = ExtractionExample::new(
        "John is 40 years old",
        JsonValue::Array(vec![JsonValue::Object(vec![
            ("name".to_string(), JsonValue::Str("John".to_string())),
            ("age".to_string(), JsonValue::Number("40".to_string())),
        ])]),
    );
    let chain = ExtractionChain::builder().schema(person_schema()).add_example(example).build();
    let messages = chain.build_messages("Jane is 35");
    let texts: Vec<String> = messages.iter().map(|m| m.content.clone()).collect();
    assert!(texts.iter().any(|t| t.contains("John is 40")));
    assert!(texts.iter().any(|t| t.contains("John")));
    let entities = chain.parse_response(r#"[{"name": "Jane", "age": 35}]"#).unwrap();
    assert_eq!(text_of(member(&entities[0], "name")), "\"Jane\"");
}

#[test]
fn test_custom_system_prompt() {
    let chain = ExtractionChain::builder()
        .schema(person_schema())
        .system_prompt("You are a specialized person extractor.")
        .build();
    let messages = chain.build_messages("Test is 1");
    assert_eq!(messages[0].content, "You are a specialized person extractor.");
    let entities = chain.parse_response(r#"[{"name": "Test", "age": 1}]"#).unwrap();
    assert_eq!(entities.len(), 1);
}

#[test]
fn test_json_output_format() {
    let chain = ExtractionChain::builder()
        .schema(person_schema())
        .output_format(OutputFormat::Json)
        .build();
    assert_eq!(chain.output_format(), OutputFormat::Json);
    let entities = chain.parse_response(r#"[{"name": "Alice", "age": 30}]"#).unwrap();
    assert_eq!(entities.len(), 1);
    assert_eq!(text_of(member(&entities[0], "name")), "\"Alice\"");
}

#[test]
fn extraction_messages_layout() {
    let example = ExtractionExample::new("A is 1", JsonValue::Array(vec![]));
    let chain = ExtractionChain::builder()
        .schema(person_schema())
        .add_example(example)
        .output_format(OutputFormat::Yaml)
        .build();
    let m = chain.build_messages("B is 2");
    assert_eq!(m.len(), 6);
    assert_eq!(m[0].message_type, MessageType::System);
    assert!(m[0].content.starts_with("You are an expert extraction algorithm."));
    assert_eq!(
        m[1].content,
        format!(
            "{}\n\nReturn the extracted entities in YAML format as a list. Each item should contain the fields described above. If no entities are found, return an empty list.",
            person_schema().to_prompt_instruction()
        )
    );
    assert_eq!(m[2].message_type, MessageType::Ai);
    assert_eq!(m[3].content, "Extract from this text:\nA is 1");
    assert_eq!(m[4].content, "[]");
    assert_eq!(m[5].content, "Extract from this text:\nB is 2");
}

#[test]
fn extraction_json_example_is_pretty_printed() {
    let example = ExtractionExample::new(
        "x",
        JsonValue::Object(vec![("a".to_string(), JsonValue::Number("1".to_string()))]),
    );
    let chain = ExtractionChain::builder().schema(person_schema()).add_example(example).build();
    let m = chain.build_messages("y");
    assert_eq!(m[4].content, "{\n  \"a\": 1\n}");
}

#[test]
fn extraction_parse_response_variants() {
    let chain = ExtractionChain::builder().schema(person_schema()).build();
    let fenced = chain.parse_response("  ```json\n{\"name\": \"Al\"}\n```  ").unwrap();
    assert_eq!(fenced.len(), 1);
    assert_eq!(text_of(member(&fenced[0], "name")), "\"Al\"");
    let e = chain.parse_response("42").unwrap_err();
    match e {
        RustChainError::OutputParserError { message, observation, llm_output } => {
            assert_eq!(message, "Expected JSON array or object, got: 42");
            assert!(observation.is_none());
            assert!(llm_output.is_none());
        }
        other => panic!("unexpected {other:?}"),
    }
    let e = chain.parse_response("not json").unwrap_err();
    match e {
        RustChainError::OutputParserError { message, observation, .. } => {
            assert!(message.starts_with("Failed to parse extraction JSON: "));
            assert_eq!(observation.as_deref(), Some("not json"));
        }
        other => panic!("unexpected {other:?}"),
    }
    let md = ExtractionChain::builder()
        .schema(person_schema())
        .output_format(OutputFormat::Markdown)
        .build();
    let raw = md.parse_response("```\n| a |\n```").unwrap();
    assert_eq!(raw.len(), 1);
    assert_eq!(text_of(&raw[0]), "{\"raw\":\"| a |\"}");
}
