use rustchain::agents::middleware::tool_emulator::LLMToolEmulator;
use rustchain::json::JsonValue;
use rustchain::messages::MessageType;

#[test]
fn test_emulator_all() {
    let emulator = LLMToolEmulator::all();
    assert!(emulator.emulate_all);
    assert!(emulator.should_emulate("any_tool"));
    assert!(emulator.should_emulate("another_tool"));
}

#[test]
fn test_emulator_specific_tools() {
    let emulator = LLMToolEmulator::for_tools(vec!["search".into(), "calculator".into()]);
    assert!(!emulator.emulate_all);
    assert!(emulator.should_emulate("search"));
    assert!(emulator.should_emulate("calculator"));
    assert!(!emulator.should_emulate("filesystem"));
}

#[test]
fn test_emulator_name() {
    assert_eq!(LLMToolEmulator::all().name(), "LLMToolEmulator");
}

#[test]
fn test_emulator_with_system_prompt() {
    let emulator = LLMToolEmulator::all().with_system_prompt("Custom prompt");
    assert_eq!(emulator.system_prompt.as_deref(), Some("Custom prompt"));
}

#[test]
fn test_emulate_tool_call() {
    let input = JsonValue::Object(vec![("query".into(), JsonValue::Str("test".into()))]);
    let result = LLMToolEmulator::emulated_result("search", &input, None);
    assert!(matches!(result.get("_emulated"), Some(JsonValue::Bool(true))));
    assert_eq!(result.get_str("tool"), Some("search"));
    assert_eq!(
        result.to_json_text(),
        "{\"_emulated\":true,\"input\":{\"query\":\"test\"},\"result\":\"[Emulated result for tool 'search']\",\"tool\":\"search\"}"
    );
}

#[test]
fn test_emulate_tool_call_result_structure() {
    let input = JsonValue::Object(vec![]);
    let wrapped = LLMToolEmulator::emulated_result("add", &input, Some("three"));
    assert!(wrapped.get("_emulated").is_some());
    assert_eq!(wrapped.get_str("result"), Some("three"));
    let parsed = LLMToolEmulator::emulated_result("add", &input, Some("{\"sum\": 3}"));
    assert_eq!(parsed.to_json_text(), "{\"sum\":3}");
    let direct = LLMToolEmulator::result_from_parsed("add", "x", Err("bad".into()));
    assert_eq!(direct.to_json_text(), "{\"_emulated\":true,\"result\":\"x\",\"tool\":\"add\"}");
}

#[test]
fn emulation_messages_hold_prompt_and_pretty_input() {
    let input = JsonValue::Object(vec![("x".into(), JsonValue::Number("1".into()))]);
    let msgs = LLMToolEmulator::all().emulation_messages("calc", "Adds", &input);
    assert_eq!(msgs.len(), 2);
    assert_eq!(msgs[0].message_type, MessageType::System);
    assert!(msgs[0].content.starts_with("You are emulating a tool call."));
    assert_eq!(
        msgs[1].content,
        "Tool Name: calc\nTool Description: Adds\nInput:\n{\n  \"x\": 1\n}\n\nGenerate a realistic JSON output for this tool call:"
    );
    let bare = LLMToolEmulator { emulate_all: true, tools_to_emulate: vec![], system_prompt: None };
    let msgs = bare.emulation_messages("t", "d", &JsonValue::Null);
    assert!(msgs[0].content.contains("as valid JSON"));
}
