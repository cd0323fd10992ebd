use rustchain::chains::documents::Document;
use rustchain::chains::retrieval::RetrievalQAChain;
use rustchain::json::JsonValue;

fn make_doc(content: &str) -> Document {
    Document::new(content)
}

fn make_doc_with_metadata(content: &str, source: &str) -> Document {
    let mut d = Document::new(content);
    d.metadata.push(("source".to_string(), JsonValue::Str(source.to_string())));
    d
}

#[test]
fn test_stuff_documents_formatting() {
    let docs = vec![
        make_doc("First document content."),
        make_doc("Second document content."),
        make_doc("Third document content."),
    ];
    let result = RetrievalQAChain::stuff_documents(&docs);
    assert_eq!(
        result,
        "First document content.\n\nSecond document content.\n\nThird document content."
    );
}

#[test]
fn test_stuff_documents_empty() {
    let docs: Vec<Document> = vec![];
    let result = RetrievalQAChain::stuff_documents(&docs);
    assert_eq!(result, "");
}

#[test]
fn test_stuff_documents_single() {
    let docs = vec![make_doc("Only one document.")];
    let result = RetrievalQAChain::stuff_documents(&docs);
    assert_eq!(result, "Only one document.");
}

#[test]
fn test_default_prompt_template_has_placeholders() {
    let chain = RetrievalQAChain::new();
    let template = chain.effective_template();
    assert!(template.contains("{context}"));
    assert!(template.contains("{query}"));
}

#[test]
fn test_call_with_sources_returns_documents() {
    let docs = vec![
        make_doc_with_metadata("Document A content.", "source_a.txt"),
        make_doc_with_metadata("Document B content.", "source_b.txt"),
    ];
    let chain = RetrievalQAChain::new();
    let (kept, _prompt) = chain.prepare(docs, "test query");
    assert_eq!(kept.len(), 2);
    assert_eq!(kept[0].page_content, "Document A content.");
    assert_eq!(kept[1].page_content, "Document B content.");
    assert_eq!(kept[0].metadata[0].1.to_json_text(), "\"source_a.txt\"");
}

#[test]
fn test_custom_prompt_template() {
    let chain = RetrievalQAChain::new().with_prompt_template("CONTEXT: {context} | QUERY: {query}");
    let (_, prompt) = chain.prepare(vec![make_doc("Some context here.")], "my question");
    assert!(prompt.contains("CONTEXT: Some context here."));
    assert!(prompt.contains("QUERY: my question"));
    assert_eq!(prompt, "CONTEXT: Some context here. | QUERY: my question");
}

#[test]
fn test_empty_retrieval_results() {
    let chain = RetrievalQAChain::new();
    let (kept, prompt) = chain.prepare(vec![], "unknown topic");
    assert_eq!(kept.len(), 0);
    assert!(prompt.contains("Context:\n\n"));
    assert!(prompt.contains("Question: unknown topic"));
}

#[test]
fn test_with_k_limits_documents() {
    let docs = vec![
        make_doc("Doc 1"),
        make_doc("Doc 2"),
        make_doc("Doc 3"),
        make_doc("Doc 4"),
        make_doc("Doc 5"),
    ];
    let chain = RetrievalQAChain::new().with_k(2);
    let (kept, prompt) = chain.prepare(docs, "query");
    assert_eq!(kept.len(), 2);
    assert_eq!(kept[0].page_content, "Doc 1");
    assert_eq!(kept[1].page_content, "Doc 2");
    assert!(prompt.contains("Doc 1\n\nDoc 2\n\nQuestion: query"));
}

#[test]
fn retrieval_placeholders_replaced_context_first() {
    let chain = RetrievalQAChain::new().with_prompt_template("{query}/{context}/{query}");
    assert_eq!(chain.format_prompt("ctx {query}", "q"), "q/ctx q/q");
    assert_eq!(chain.format_prompt("c", "{context}"), "{context}/c/{context}");
}
