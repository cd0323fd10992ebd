use rustchain::chains::conversation_retrieval::ConversationalRetrievalChain;
use rustchain::chains::documents::Document;
use rustchain::json::JsonValue;

struct Outcome {
    answer: String,
    source_documents: Vec<Document>,
    condensed_question: String,
}

fn make_docs() -> Vec<Document> {
    vec![Document::new("Rust is a systems language."), Document::new("Rust was released in 2015.")]
}

/// Runs one call the way the chain does, `condense` and `answer` standing
/// for the two models: each takes the prompt and gives the reply.
fn call_with_sources(
    chain: &mut ConversationalRetrievalChain,
    docs: Vec<Document>,
    question: &str,
    condense: &mut dyn FnMut(&str) -> String,
    answer: &mut dyn FnMut(&str) -> String,
) -> Outcome {
    let condensed = match chain.condense_request(question) {
        Some(prompt) => condense(&prompt),
        None => question.to_string(),
    };
    let (kept, prompt) = chain.qa_request(docs, &condensed);
    let reply = answer(&prompt);
    chain.record(question, &reply);
    Outcome { answer: reply, source_documents: kept, condensed_question: condensed }
}

fn replies(list: Vec<&str>) -> impl FnMut(&str) -> String {
    let mut it = list.into_iter().map(String::from).collect::<Vec<_>>().into_iter();
    move |_| it.next().expect("a reply")
}

#[test]
fn test_first_question_skips_condensation() {
    let mut chain = ConversationalRetrievalChain::new();
    let mut model = replies(vec!["answer about Rust"]);
    let mut unused = replies(vec![]);
    let r = call_with_sources(&mut chain, make_docs(), "What is Rust?", &mut unused, &mut model);
    assert_eq!(r.condensed_question, "What is Rust?");
    assert_eq!(r.answer, "answer about Rust");
}

#[test]
fn test_followup_condenses_with_history() {
    let mut chain = ConversationalRetrievalChain::new();
    let mut shared = replies(vec!["Rust is great", "What year was Rust released?", "Rust was released in 2015"]);
    let mut prompts: Vec<String> = Vec::new();
    let mut model = |p: &str| {
        prompts.push(p.to_string());
        shared(p)
    };
    let r1 = {
        let condensed = match chain.condense_request("Tell me about Rust") {
            Some(p) => model(&p),
            None => "Tell me about Rust".to_string(),
        };
        let (_, prompt) = chain.qa_request(make_docs(), &condensed);
        let a = model(&prompt);
        chain.record("Tell me about Rust", &a);
        (condensed, a)
    };
    assert_eq!(r1.0, "Tell me about Rust");
    assert_eq!(r1.1, "Rust is great");
    let condense_prompt = chain.condense_request("When was it released?").unwrap();
    assert!(condense_prompt.contains("Human: Tell me about Rust\nAI: Rust is great"));
    assert!(condense_prompt.contains("Follow Up Input: When was it released?"));
    let condensed = model(&condense_prompt);
    let (_, prompt) = chain.qa_request(make_docs(), &condensed);
    let answer = model(&prompt);
    assert_eq!(condensed, "What year was Rust released?");
    assert_eq!(answer, "Rust was released in 2015");
    assert!(prompts[2].contains("Question: What year was Rust released?"));
}

#[test]
fn test_call_returns_answer_and_updates_history() {
    let mut chain = ConversationalRetrievalChain::new();
    let mut model = replies(vec!["the answer"]);
    let mut unused = replies(vec![]);
    let r = call_with_sources(&mut chain, make_docs(), "my question", &mut unused, &mut model);
    assert_eq!(r.answer, "the answer");
    assert_eq!(chain.chat_history.len(), 2);
    assert_eq!(chain.chat_history[0].content, "my question");
    assert_eq!(chain.chat_history[1].content, "the answer");
}

#[test]
fn test_call_with_sources_returns_docs_and_condensed() {
    let mut chain = ConversationalRetrievalChain::new();
    let docs = vec![Document::new("doc1 content"), Document::new("doc2 content")];
    let mut model = replies(vec!["sourced answer"]);
    let mut unused = replies(vec![]);
    let r = call_with_sources(&mut chain, docs, "question?", &mut unused, &mut model);
    assert_eq!(r.answer, "sourced answer");
    assert_eq!(r.source_documents.len(), 2);
    assert_eq!(r.source_documents[0].page_content, "doc1 content");
    assert_eq!(r.source_documents[1].page_content, "doc2 content");
    assert_eq!(r.condensed_question, "question?");
}

#[test]
fn test_clear_history_resets() {
    let mut chain = ConversationalRetrievalChain::new();
    let mut model = replies(vec!["a1", "a2"]);
    let mut unused = replies(vec![]);
    call_with_sources(&mut chain, make_docs(), "first question", &mut unused, &mut model);
    assert_eq!(chain.chat_history.len(), 2);
    chain.clear_history();
    assert!(chain.chat_history.is_empty());
    let r = call_with_sources(&mut chain, make_docs(), "new question", &mut unused, &mut model);
    assert_eq!(r.condensed_question, "new question");
}

#[test]
fn test_k_limits_documents() {
    let mut chain = ConversationalRetrievalChain::new().with_k(2);
    let docs = (1..=5).map(|i| Document::new(&format!("doc{i}"))).collect();
    let mut model = replies(vec!["answer"]);
    let mut unused = replies(vec![]);
    let r = call_with_sources(&mut chain, docs, "q", &mut unused, &mut model);
    assert_eq!(r.source_documents.len(), 2);
}

#[test]
fn conversational_retrieval_prompts_and_input() {
    let chain = ConversationalRetrievalChain::new()
        .with_qa_prompt("C={context} Q={question}")
        .with_condense_prompt("H={chat_history} Q={question}");
    let (_, p) = chain.qa_request(vec![Document::new("a"), Document::new("b")], "why");
    assert_eq!(p, "C=a\n\nb Q=why");
    assert!(chain.condense_request("x").is_none());
    assert_eq!(chain.name(), "ConversationalRetrievalChain");
    let q = ConversationalRetrievalChain::question_of(&JsonValue::Str("plain".into())).unwrap();
    assert_eq!(q, "plain");
    let obj = JsonValue::Object(vec![("input".into(), JsonValue::Str("asked".into()))]);
    assert_eq!(ConversationalRetrievalChain::question_of(&obj).unwrap(), "asked");
    assert!(ConversationalRetrievalChain::question_of(&JsonValue::Null).is_err());
    let mut chain = chain;
    chain.record("hi", "hello");
    assert_eq!(chain.history_as_text(), "Human: hi\nAI: hello");
    assert_eq!(chain.condense_request("next").unwrap(), "H=Human: hi\nAI: hello Q=next");
}
