use rustchain::chains::documents::Document;
use rustchain::chains::map_reduce::MapReduceChain;

#[test]
fn test_reduce_phase_combines_summaries() {
    let chain = MapReduceChain::new();
    let reduce_prompt = chain.format_reduce_prompt("Summary A\n\nSummary B");
    assert!(reduce_prompt.contains("Summary A"));
    assert!(reduce_prompt.contains("Summary B"));
    assert!(reduce_prompt.contains("Combine the following summaries"));
}

#[test]
fn test_custom_prompts() {
    let chain = MapReduceChain::new()
        .with_map_prompt("EXTRACT: {text} END")
        .with_reduce_prompt("MERGE: {summaries} DONE");
    let docs = vec![Document::new("hello world")];
    let maps = chain.map_prompts(&docs);
    assert_eq!(maps, vec!["EXTRACT: hello world END".to_string()]);
    // A model that echoes its prompt answers the map request with the prompt itself.
    let reduce = chain.reduce_prompt_for(&maps);
    assert_eq!(reduce, "MERGE: EXTRACT: hello world END DONE");
    assert!(reduce.contains("MERGE:"));
    assert!(reduce.contains("DONE"));
}

#[test]
fn test_max_concurrency_builder() {
    let chain = MapReduceChain::new().with_max_concurrency(10);
    assert_eq!(chain.max_concurrency, 10);
}

#[test]
fn map_reduce_default_prompts() {
    let chain = MapReduceChain::new();
    assert_eq!(chain.max_concurrency, 5);
    assert_eq!(chain.format_map_prompt("T"), "Summarize the following text:\n\nT\n\nSummary:");
    let docs = vec![Document::new("a"), Document::new("b")];
    assert_eq!(chain.map_prompts(&docs).len(), 2);
    assert_eq!(
        chain.reduce_prompt_for(&["x".to_string(), "y".to_string()]),
        "Combine the following summaries into a coherent final answer:\n\nx\n\ny\n\nFinal answer:"
    );
    assert_eq!(
        chain.reduce_prompt_for(&[]),
        "Combine the following summaries into a coherent final answer:\n\n\n\nFinal answer:"
    );
}
