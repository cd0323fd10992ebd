use rustchain::agents::middleware::summarization::{
    ContextLimit, SummarizationConfig, SummarizationMiddleware,
};
use rustchain::messages::{Message, MessageType};

fn config(trigger: ContextLimit, keep: ContextLimit) -> SummarizationConfig {
    SummarizationConfig { trigger, keep, summary_prompt: "sum".into() }
}

#[test]
fn test_summarization_default() {
    let mw = SummarizationMiddleware::default();
    assert_eq!(mw.name(), "SummarizationMiddleware");
    assert_eq!(mw.config.trigger, ContextLimit::Bytes(75000));
    assert_eq!(mw.config.keep, ContextLimit::Messages(10));
}

#[test]
fn test_context_size_messages() {
    let size = ContextLimit::Messages(20);
    match size {
        ContextLimit::Messages(n) => assert_eq!(n, 20),
        _ => panic!("Expected Messages variant"),
    }
}

#[test]
fn summarization_triggers() {
    let msgs = vec![Message::human("12345678"), Message::ai("1234")];
    let by_count = SummarizationMiddleware::new(config(ContextLimit::Messages(1), ContextLimit::Messages(1)));
    assert!(by_count.should_trigger(&msgs));
    assert!(!by_count.should_trigger(&msgs[..1]));
    let by_tokens = SummarizationMiddleware::new(config(ContextLimit::Tokens(2), ContextLimit::Messages(1)));
    assert!(by_tokens.should_trigger(&msgs));
    let by_tokens = SummarizationMiddleware::new(config(ContextLimit::Tokens(3), ContextLimit::Messages(1)));
    assert!(!by_tokens.should_trigger(&msgs));
    let by_bytes = SummarizationMiddleware::new(config(ContextLimit::Bytes(11), ContextLimit::Messages(1)));
    assert!(by_bytes.should_trigger(&msgs));
    let by_bytes = SummarizationMiddleware::new(config(ContextLimit::Bytes(12), ContextLimit::Messages(1)));
    assert!(!by_bytes.should_trigger(&msgs));
}

#[test]
fn summarization_boundary_keeps_tool_results_with_their_call() {
    let mw = SummarizationMiddleware::new(config(ContextLimit::Messages(1), ContextLimit::Messages(2)));
    assert_eq!(mw.keep_count(), 2);
    let msgs = vec![
        Message::human("a"),
        Message::ai("b"),
        Message::tool("c", "1"),
        Message::tool("d", "2"),
    ];
    assert_eq!(mw.compute_keep_boundary(&msgs, 2), 1);
    assert_eq!(mw.compute_keep_boundary(&msgs, 1), 1);
    assert_eq!(mw.compute_keep_boundary(&msgs, 4), 0);
    let plain = vec![Message::human("a"), Message::ai("b"), Message::human("c")];
    assert_eq!(mw.compute_keep_boundary(&plain, 1), 2);
    let other = SummarizationMiddleware::new(config(ContextLimit::Messages(1), ContextLimit::Tokens(5)));
    assert_eq!(other.keep_count(), 10);
}

#[test]
fn summarization_texts() {
    let mw = SummarizationMiddleware::new(config(ContextLimit::Messages(1), ContextLimit::Messages(1)));
    let msgs = vec![Message::human("hi"), Message::ai("hello")];
    assert_eq!(mw.fallback_summarize(&msgs), "human: hi\nai: hello");
    let req = mw.summary_request(&msgs);
    assert_eq!(req.len(), 2);
    assert_eq!(req[0].message_type, MessageType::System);
    assert_eq!(req[0].content, "sum");
    assert_eq!(req[1].content, "Please summarize the following conversation:\n\nhuman: hi\nai: hello");
    let out = mw.summarized(msgs, 1, "S");
    assert_eq!(out.len(), 2);
    assert_eq!(out[0].content, "[Summary of previous conversation]\nS");
    assert_eq!(out[1].content, "hello");
}
