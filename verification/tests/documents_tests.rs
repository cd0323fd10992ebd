use rustchain::chains::documents::{
    create_stuff_documents_chain, CollapseCall, CollapseRun, CollapseStrategy, Document,
    DocumentCombineStrategy, DocumentFormatter, StuffDocumentsChain, StuffStrategy,
};
use rustchain::error::RustChainError;
use rustchain::json::JsonValue;

fn make_doc(content: &str) -> Document {
    Document::new(content)
}

fn make_doc_with_metadata(content: &str, meta: Vec<(&str, JsonValue)>) -> Document {
    Document::new(content).with_metadata(meta.into_iter().map(|(k, v)| (k.to_string(), v)).collect())
}

/// Runs a collapse, answering each request with `summarize`.
fn collapse(
    strategy: &CollapseStrategy,
    docs: &[Document],
    summarize: impl Fn(&[Document]) -> Result<String, RustChainError>,
) -> Result<String, RustChainError> {
    let (mut run, mut call) = CollapseRun::start(strategy, docs);
    loop {
        match call {
            CollapseCall::Summarize(group) => call = run.step(summarize(&group)),
            CollapseCall::Finished(r) => return r,
        }
    }
}

fn joined_with(docs: &[Document], sep: &str) -> String {
    docs.iter().map(|d| d.page_content.as_str()).collect::<Vec<_>>().join(sep)
}

#[test]
fn test_stuff_strategy_simple_concat() {
    let strategy = StuffStrategy::new();
    let docs = vec![make_doc("Hello"), make_doc("World")];
    assert_eq!(strategy.combine(&docs, "\n\n").unwrap(), "Hello\n\nWorld");
}

#[test]
fn test_stuff_strategy_empty_docs() {
    let strategy = StuffStrategy::new();
    let docs: Vec<Document> = vec![];
    assert_eq!(strategy.combine(&docs, "\n\n").unwrap(), "");
}

#[test]
fn test_stuff_strategy_single_doc() {
    let strategy = StuffStrategy::new();
    assert_eq!(strategy.combine(&[make_doc("Only one")], "\n\n").unwrap(), "Only one");
}

#[test]
fn test_stuff_strategy_custom_separator() {
    let strategy = StuffStrategy::new();
    let docs = vec![make_doc("A"), make_doc("B"), make_doc("C")];
    assert_eq!(strategy.combine(&docs, " | ").unwrap(), "A | B | C");
}

#[test]
fn test_stuff_strategy_with_prompt() {
    let strategy = StuffStrategy::with_prompt("Content: {page_content}");
    let docs = vec![make_doc("Hello"), make_doc("World")];
    assert_eq!(strategy.combine(&docs, "\n").unwrap(), "Content: Hello\nContent: World");
}

#[test]
fn test_stuff_strategy_with_metadata_prompt() {
    let strategy = StuffStrategy::with_prompt("Content: {page_content}\nSource: {metadata.source}");
    let docs = vec![make_doc_with_metadata("Hello", vec![("source", JsonValue::Str("file.txt".into()))])];
    assert_eq!(strategy.combine(&docs, "\n\n").unwrap(), "Content: Hello\nSource: file.txt");
}

#[test]
fn test_collapse_strategy_empty() {
    let strategy = CollapseStrategy::new(2);
    let result = collapse(&strategy, &[], |_| Ok("summary".to_string())).unwrap();
    assert_eq!(result, "");
}

#[test]
fn test_collapse_strategy_single_doc() {
    let strategy = CollapseStrategy::new(2);
    let result = collapse(&strategy, &[make_doc("Only one")], |_| Ok("summary".to_string())).unwrap();
    assert_eq!(result, "Only one");
}

#[test]
fn test_collapse_strategy_within_group_size() {
    let strategy = CollapseStrategy::new(3);
    let docs = vec![make_doc("A"), make_doc("B"), make_doc("C")];
    let result = collapse(&strategy, &docs, |d| Ok(format!("SUMMARY({})", joined_with(d, ", ")))).unwrap();
    assert_eq!(result, "SUMMARY(A, B, C)");
}

#[test]
fn test_collapse_strategy_hierarchical() {
    let strategy = CollapseStrategy::new(2);
    let docs = vec![make_doc("A"), make_doc("B"), make_doc("C"), make_doc("D")];
    let result = collapse(&strategy, &docs, |d| Ok(format!("[{}]", joined_with(d, "+")))).unwrap();
    assert_eq!(result, "[[A+B]+[C+D]]");
}

#[test]
fn test_collapse_strategy_min_group_size() {
    let strategy = CollapseStrategy::new(1);
    assert_eq!(strategy.max_docs_per_group, 2);
}

#[test]
fn collapse_uneven_groups_and_errors() {
    let strategy = CollapseStrategy::new(2);
    let docs: Vec<Document> = ["a", "b", "c", "d", "e"].iter().map(|s| make_doc(s)).collect();
    let result = collapse(&strategy, &docs, |d| Ok(format!("({})", joined_with(d, "")))).unwrap();
    assert_eq!(result, "(((ab)(cd))((e)))");
    let err = collapse(&strategy, &docs, |_| Err(RustChainError::Other("no".into())));
    assert!(matches!(err, Err(RustChainError::Other(m)) if m == "no"));
    let loose = CollapseStrategy { max_docs_per_group: 0 };
    let three: Vec<Document> = ["x", "y", "z"].iter().map(|s| make_doc(s)).collect();
    assert_eq!(collapse(&loose, &three, |d| Ok(joined_with(d, ""))).unwrap(), "xyz");
}

#[test]
fn test_format_document_page_content() {
    let result = DocumentFormatter::format_document(&make_doc("Hello world"), "Text: {page_content}");
    assert_eq!(result, "Text: Hello world");
}

#[test]
fn test_format_document_metadata_key() {
    let doc = make_doc_with_metadata(
        "Content here",
        vec![("source", JsonValue::Str("wiki.txt".into())), ("page", JsonValue::Number("42".into()))],
    );
    let result =
        DocumentFormatter::format_document(&doc, "{page_content} from {metadata.source} page {metadata.page}");
    assert_eq!(result, "Content here from wiki.txt page 42");
}

#[test]
fn test_format_document_missing_metadata_key() {
    let result = DocumentFormatter::format_document(&make_doc("Content"), "{page_content} source={metadata.source}");
    assert_eq!(result, "Content source=");
}

#[test]
fn test_format_documents_multiple() {
    let docs = vec![make_doc("A"), make_doc("B")];
    assert_eq!(DocumentFormatter::format_documents(&docs, "Doc: {page_content}", " | "), "Doc: A | Doc: B");
}

#[test]
fn test_chain_default_builder() {
    let chain = StuffDocumentsChain::builder().build();
    assert_eq!(chain.input_key(), "input_documents");
    assert_eq!(chain.output_key(), "output_text");
    assert_eq!(chain.document_separator(), "\n\n");
    assert!(chain.document_prompt().is_none());
}

#[test]
fn test_chain_custom_keys() {
    let chain = StuffDocumentsChain::builder().input_key("docs").output_key("result").build();
    assert_eq!(chain.input_key(), "docs");
    assert_eq!(chain.output_key(), "result");
}

#[test]
fn test_chain_invoke() {
    let chain = StuffDocumentsChain::builder().build();
    let docs = vec![make_doc("First"), make_doc("Second")];
    assert_eq!(chain.invoke(&docs).unwrap(), "First\n\nSecond");
}

#[test]
fn test_chain_invoke_as_map() {
    let chain = StuffDocumentsChain::builder().build();
    let docs = vec![make_doc("Alpha"), make_doc("Beta")];
    let map = chain.invoke_as_map(&docs).unwrap();
    assert_eq!(map, vec![("output_text".to_string(), "Alpha\n\nBeta".to_string())]);
}

#[test]
fn test_chain_custom_separator() {
    let chain = StuffDocumentsChain::builder().document_separator("---").build();
    assert_eq!(chain.invoke(&[make_doc("X"), make_doc("Y")]).unwrap(), "X---Y");
}

#[test]
fn test_chain_with_document_prompt() {
    let chain = StuffDocumentsChain::builder().document_prompt(">> {page_content}").build();
    assert_eq!(chain.invoke(&[make_doc("Hello"), make_doc("World")]).unwrap(), ">> Hello\n\n>> World");
    assert_eq!(chain.document_prompt(), Some(">> {page_content}"));
}

#[test]
fn test_chain_new_constructor() {
    let chain = StuffDocumentsChain::new(Box::new(StuffStrategy::new()));
    assert_eq!(chain.invoke(&[make_doc("Test")]).unwrap(), "Test");
}

#[test]
fn test_factory_function() {
    let chain = create_stuff_documents_chain("Content: {page_content}");
    let docs = vec![make_doc("Hello"), make_doc("World")];
    assert_eq!(chain.invoke(&docs).unwrap(), "Content: Hello\n\nContent: World");
}

#[test]
fn test_factory_with_metadata() {
    let chain = create_stuff_documents_chain("{page_content} (source: {metadata.source})");
    let docs = vec![
        make_doc_with_metadata("Page 1 content", vec![("source", JsonValue::Str("test.pdf".into()))]),
        make_doc_with_metadata("Page 2 content", vec![("source", JsonValue::Str("test2.pdf".into()))]),
    ];
    assert_eq!(
        chain.invoke(&docs).unwrap(),
        "Page 1 content (source: test.pdf)\n\nPage 2 content (source: test2.pdf)"
    );
}
