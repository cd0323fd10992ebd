use rustchain::chains::conversation::ConversationChain;
use rustchain::error::RustChainError;
use rustchain::json::JsonValue;
use rustchain::messages::MessageType;

#[test]
fn test_builder_pattern() {
    let chain = ConversationChain::builder()
        .system_prompt("System")
        .prompt_template("{history}\n{input}")
        .output_key("answer")
        .input_key("question")
        .verbose(true)
        .build();
    assert_eq!(chain.output_key, "answer");
    assert_eq!(chain.input_key, "question");
    assert!(chain.verbose);
    assert_eq!(chain.system_prompt.as_deref(), Some("System"));
    assert_eq!(chain.prompt_template, "{history}\n{input}");
}

#[test]
fn test_default_configuration() {
    let chain = ConversationChain::builder().build();
    assert_eq!(chain.output_key, "response");
    assert_eq!(chain.input_key, "input");
    assert!(!chain.verbose);
    assert!(chain.system_prompt.is_none());
    assert!(chain.prompt_template.starts_with("The following is a friendly conversation"));
    assert!(chain.prompt_template.ends_with("Current conversation:\n{history}\nHuman: {input}\nAI:"));
}

#[test]
fn test_context_variables() {
    let chain = ConversationChain::builder()
        .prompt_template("{history}\nContext: {context}\nHuman: {input}\nAI:")
        .build();
    let vars = ConversationChain::template_vars(
        "",
        "Tell me something",
        &vec![("context".to_string(), "The user likes Rust".to_string())],
    );
    let messages = chain.build_messages(&vars).unwrap();
    assert_eq!(messages.len(), 1);
    assert_eq!(messages[0].content, "\nContext: The user likes Rust\nHuman: Tell me something\nAI:");
}

#[test]
fn test_runnable_trait() {
    let chain = ConversationChain::builder().build();
    assert_eq!(chain.name(), "ConversationChain");
    assert_eq!(chain.input_text(&JsonValue::Str("Hello".into())).unwrap(), "Hello");
    let out = chain.output("Runnable response".to_string());
    assert_eq!(out.to_json_text(), "{\"response\":\"Runnable response\"}");
}

#[test]
fn test_runnable_with_object_input() {
    let chain = ConversationChain::builder().build();
    let input = JsonValue::Object(vec![("input".into(), JsonValue::Str("Hello from object".into()))]);
    assert_eq!(chain.input_text(&input).unwrap(), "Hello from object");
}

#[test]
fn test_missing_input_key_error() {
    let chain = ConversationChain::builder().build();
    let input = JsonValue::Object(vec![("wrong_key".into(), JsonValue::Str("value".into()))]);
    let e = chain.input_text(&input).unwrap_err();
    assert!(matches!(e, RustChainError::InvalidKey(ref m) if m == "Input object missing 'input' key"));
    let e = chain.input_text(&JsonValue::Null).unwrap_err();
    assert!(matches!(e, RustChainError::TypeMismatch { ref got, .. } if got == "null"));
}

#[test]
fn conversation_messages_and_missing_variables() {
    let chain = ConversationChain::builder().system_prompt("Be brief.").prompt_template("{history}|{input}|{mood}").build();
    let vars = ConversationChain::template_vars("Human: hi\nAI: hello", "next", &vec![]);
    let e = chain.build_messages(&vars).unwrap_err();
    assert!(matches!(e, RustChainError::InvalidKey(ref m) if m == "Missing template variable(s): mood"));
    let vars = ConversationChain::template_vars(
        "h",
        "i",
        &vec![("mood".to_string(), "calm".to_string()), ("input".to_string(), "over".to_string())],
    );
    let m = chain.build_messages(&vars).unwrap();
    assert_eq!(m.len(), 2);
    assert_eq!(m[0].message_type, MessageType::System);
    assert_eq!(m[0].content, "Be brief.");
    assert_eq!(m[1].message_type, MessageType::Human);
    assert_eq!(m[1].content, "h|over|calm");
}
