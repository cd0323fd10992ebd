use rustchain::chains::documents::Document;
use rustchain::chains::qa::{create_qa_chain, CitedAnswer, QAChain, QAChainType, QAConfig};
use rustchain::error::RustChainError;
use rustchain::json::JsonValue;

fn make_doc(content: &str) -> Document {
    Document::new(content)
}

fn make_doc_with_source(content: &str, source: &str) -> Document {
    Document::new(content).with_metadata(vec![("source".to_string(), JsonValue::Str(source.to_string()))])
}

fn default_chain() -> QAChain {
    create_qa_chain(QAConfig::default())
}

#[test]
fn test_chain_type_default_is_stuff() {
    assert_eq!(QAChainType::default(), QAChainType::Stuff);
}

#[test]
fn test_chain_type_display() {
    assert_eq!(QAChainType::Stuff.to_string(), "stuff");
    assert_eq!(QAChainType::MapReduce.to_string(), "map_reduce");
    assert_eq!(QAChainType::Refine.to_string(), "refine");
}

#[test]
fn test_config_defaults() {
    let config = QAConfig::default();
    assert_eq!(config.chain_type, QAChainType::Stuff);
    assert!(config.return_source_documents);
    assert_eq!(config.max_source_docs, 4);
    assert!(!config.verbose);
}

#[test]
fn test_config_builder() {
    let config = QAConfig::builder()
        .chain_type(QAChainType::Refine)
        .return_source_documents(false)
        .max_source_docs(10)
        .verbose(true)
        .build();

    assert_eq!(config.chain_type, QAChainType::Refine);
    assert!(!config.return_source_documents);
    assert_eq!(config.max_source_docs, 10);
    assert!(config.verbose);
}

#[test]
fn test_config_builder_defaults() {
    let config = QAConfig::builder().build();
    assert_eq!(config.chain_type, QAChainType::Stuff);
    assert!(config.return_source_documents);
    assert_eq!(config.max_source_docs, 4);
}

#[test]
fn test_answer_basic() {
    let chain = default_chain();
    let docs = vec![make_doc("Rust is a systems language.")];
    let result = chain.answer("What is Rust?", docs).unwrap();

    assert!(result.answer.contains("What is Rust?"));
    assert!(result.answer.contains("Rust is a systems language."));
    assert_eq!(result.chain_type, QAChainType::Stuff);
    assert_eq!(result.source_documents.len(), 1);
}

#[test]
fn test_answer_multiple_docs() {
    let chain = default_chain();
    let docs = vec![
        make_doc("Document one content."),
        make_doc("Document two content."),
        make_doc("Document three content."),
    ];
    let result = chain.answer("Tell me about docs", docs).unwrap();

    assert!(result.answer.contains("Document one content."));
    assert!(result.answer.contains("Document two content."));
    assert!(result.answer.contains("Document three content."));
    assert_eq!(result.source_documents.len(), 3);
}

#[test]
fn test_answer_max_source_docs_limit() {
    let config = QAConfig::builder().max_source_docs(2).build();
    let chain = create_qa_chain(config);
    let docs = vec![make_doc("Doc A"), make_doc("Doc B"), make_doc("Doc C"), make_doc("Doc D")];
    let result = chain.answer("question?", docs).unwrap();

    assert_eq!(result.source_documents.len(), 2);
    assert!(result.answer.contains("Doc A"));
    assert!(result.answer.contains("Doc B"));
    assert!(!result.answer.contains("Doc C"));
}

#[test]
fn test_answer_no_source_documents() {
    let config = QAConfig::builder().return_source_documents(false).build();
    let chain = create_qa_chain(config);
    let docs = vec![make_doc("Some content")];
    let result = chain.answer("question?", docs).unwrap();

    assert!(result.source_documents.is_empty());
    assert!(result.answer.contains("Some content"));
}

#[test]
fn test_answer_empty_docs() {
    let chain = default_chain();
    let result = chain.answer("question?", vec![]).unwrap();

    assert!(result.source_documents.is_empty());
    assert!(result.answer.contains("question?"));
}

#[test]
fn test_answer_empty_question_error() {
    let chain = default_chain();
    let result = chain.answer("", vec![make_doc("content")]);
    assert!(result.is_err());
    match result {
        Err(RustChainError::Other(m)) => assert_eq!(m, "Question must not be empty"),
        other => panic!("unexpected {other:?}"),
    }
}

#[test]
fn test_answer_with_context() {
    let chain = default_chain();
    let result = chain.answer_with_context("What is Rust?", "Rust is a programming language.").unwrap();

    assert!(result.contains("What is Rust?"));
    assert!(result.contains("Rust is a programming language."));
}

#[test]
fn test_answer_with_context_empty_question_error() {
    let chain = default_chain();
    let result = chain.answer_with_context("", "some context");
    assert!(result.is_err());
}

#[test]
fn test_custom_document_prompt() {
    let chain = default_chain().with_document_prompt("Source [{doc_index}]: {page_content}");
    let docs = vec![make_doc("Hello world")];
    let result = chain.answer("test?", docs).unwrap();

    assert!(result.answer.contains("Source [1]: Hello world"));
}

#[test]
fn test_custom_qa_prompt() {
    let chain = default_chain().with_qa_prompt("Context: {context}\nQ: {question}\nA:");
    let docs = vec![make_doc("content here")];
    let result = chain.answer("what?", docs).unwrap();

    assert!(result.answer.starts_with("Context:"));
    assert!(result.answer.contains("Q: what?"));
    assert!(result.answer.ends_with("A:"));
}

#[test]
fn test_document_prompt_with_metadata() {
    let chain = default_chain().with_document_prompt("{page_content} (from {metadata.source})");
    let docs = vec![make_doc_with_source("content", "wiki.txt")];
    let result = chain.answer("q?", docs).unwrap();

    assert!(result.answer.contains("content (from wiki.txt)"));
}

#[test]
fn test_chain_type_in_result() {
    let config = QAConfig::builder().chain_type(QAChainType::MapReduce).build();
    let chain = create_qa_chain(config);
    let result = chain.answer("q?", vec![make_doc("d")]).unwrap();
    assert_eq!(result.chain_type, QAChainType::MapReduce);
}

#[test]
fn test_citation_from_answer() {
    let docs = vec![
        make_doc_with_source("First doc content here", "source1.txt"),
        make_doc_with_source("Second doc content here", "source2.txt"),
    ];
    let cited = CitedAnswer::from_answer_and_docs("Based on [1] and also [2], the answer is yes.", &docs);

    assert_eq!(cited.citations.len(), 2);
    assert_eq!(cited.citations[0].source, "source1.txt");
    assert_eq!(cited.citations[0].doc_index, 0);
    assert_eq!(cited.citations[1].source, "source2.txt");
    assert_eq!(cited.citations[1].doc_index, 1);
}

#[test]
fn test_citation_no_markers() {
    let docs = vec![make_doc("content")];
    let cited = CitedAnswer::from_answer_and_docs("No citations here.", &docs);
    assert!(cited.citations.is_empty());
}

#[test]
fn test_citation_out_of_range() {
    let docs = vec![make_doc("content")];
    let cited = CitedAnswer::from_answer_and_docs("Reference [5] is invalid.", &docs);
    assert!(cited.citations.is_empty());
}

#[test]
fn test_citation_deduplication() {
    let docs = vec![make_doc_with_source("content", "src.txt")];
    let cited = CitedAnswer::from_answer_and_docs("See [1] and again [1].", &docs);
    assert_eq!(cited.citations.len(), 1);
}

#[test]
fn test_citation_snippet_truncation() {
    let long_content = "x".repeat(200);
    let docs = vec![make_doc(&long_content)];
    let cited = CitedAnswer::from_answer_and_docs("See [1].", &docs);
    assert_eq!(cited.citations[0].page_content_snippet.len(), 100);
}

#[test]
fn test_extract_citations_via_chain() {
    let chain = default_chain();
    let docs = vec![make_doc_with_source("content", "file.txt")];
    let cited = chain.extract_citations("Answer [1] here.", &docs);
    assert_eq!(cited.citations.len(), 1);
    assert_eq!(cited.citations[0].source, "file.txt");
}

#[test]
fn test_create_qa_chain_factory() {
    let config = QAConfig::builder().chain_type(QAChainType::MapReduce).max_source_docs(8).build();
    let chain = create_qa_chain(config);
    assert_eq!(chain.config.chain_type, QAChainType::MapReduce);
    assert_eq!(chain.config.max_source_docs, 8);
}

#[test]
fn citation_without_source_is_unknown_and_order_follows_first_mention() {
    let docs = vec![make_doc("alpha"), make_doc("beta")];
    let cited = CitedAnswer::from_answer_and_docs("[2] then [1] then [2]", &docs);
    assert_eq!(cited.citations.len(), 2);
    assert_eq!(cited.citations[0].doc_index, 1);
    assert_eq!(cited.citations[1].doc_index, 0);
    assert_eq!(cited.citations[0].page_content_snippet, "beta");
    assert_eq!(cited.citations[0].source, "unknown");
    assert_eq!(cited.answer, "[2] then [1] then [2]");
}

#[test]
fn default_prompt_exact_text() {
    let chain = default_chain();
    let p = chain.answer_with_context("Q?", "CTX").unwrap();
    assert_eq!(p, chain.format_qa_prompt("CTX", "Q?"));
    assert_eq!(chain.format_document(&make_doc("body"), 0), "Document 1:\nbody");
}
