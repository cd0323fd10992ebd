//! Map-reduce over documents: each document is asked about on its own, and
//! the answers are then combined by one more request.

use vstd::prelude::*;
use vstd::string::*;
use crate::chains::documents::{joined, Document};
use crate::text::{push_string, replace_all, replaced};

verus! {

/// The default map prompt, with a `{text}` placeholder.
pub open spec fn default_map_prompt() -> Seq<char> {
    "Summarize the following text:\n\n{text}\n\nSummary:"@
}

/// The default reduce prompt, with a `{summaries}` placeholder.
pub open spec fn default_reduce_prompt() -> Seq<char> {
    "Combine the following summaries into a coherent final answer:\n\n{summaries}\n\nFinal answer:"@
}

/// The views of a list of strings.
pub open spec fn texts_of(v: Seq<String>) -> Seq<Seq<char>> {
    v.map_values(|s: String| s@)
}

/// The settings of a map-reduce chain: the two prompts and a concurrency
/// limit kept for the caller. The model is held by the caller.
pub struct MapReduceChain {
    /// The prompt asked about each document.
    pub map_prompt: String,
    /// The prompt that combines the answers.
    pub reduce_prompt: String,
    /// The most map requests the caller runs at once.
    pub max_concurrency: usize,
}

impl MapReduceChain {
    /// A chain with the default prompts and a concurrency of 5.
    pub fn new() -> (r: Self)
        ensures
            r.map_prompt@ == default_map_prompt(),
            r.reduce_prompt@ == default_reduce_prompt(),
            r.max_concurrency == 5,
    {
        MapReduceChain {
            map_prompt: String::from_str("Summarize the following text:\n\n{text}\n\nSummary:"),
            reduce_prompt: String::from_str(
                "Combine the following summaries into a coherent final answer:\n\n{summaries}\n\nFinal answer:",
            ),
            max_concurrency: 5,
        }
    }

    /// Sets the map prompt; it should hold `{text}`.
    pub fn with_map_prompt(self, prompt: &str) -> (r: Self)
        ensures
            r.map_prompt@ == prompt@,
            r.reduce_prompt == self.reduce_prompt,
            r.max_concurrency == self.max_concurrency,
    {
        MapReduceChain { map_prompt: String::from_str(prompt), ..self }
    }

    /// Sets the reduce prompt; it should hold `{summaries}`.
    pub fn with_reduce_prompt(self, prompt: &str) -> (r: Self)
        ensures
            r.reduce_prompt@ == prompt@,
            r.map_prompt == self.map_prompt,
            r.max_concurrency == self.max_concurrency,
    {
        MapReduceChain { reduce_prompt: String::from_str(prompt), ..self }
    }

    /// Sets the concurrency limit.
    pub fn with_max_concurrency(self, max_concurrency: usize) -> (r: Self)
        ensures
            r.max_concurrency == max_concurrency,
            r.map_prompt == self.map_prompt,
            r.reduce_prompt == self.reduce_prompt,
    {
        MapReduceChain { max_concurrency, ..self }
    }

    /// The map prompt with every `{text}` replaced by `text`.
    pub fn format_map_prompt(&self, text: &str) -> (r: String)
        ensures
            r@ == replaced(self.map_prompt@, "{text}"@, text@),
    {
        proof {
            reveal_strlit("{text}");
        }
        replace_all(self.map_prompt.as_str(), "{text}", text)
    }

    /// The reduce prompt with every `{summaries}` replaced by `summaries`.
    pub fn format_reduce_prompt(&self, summaries: &str) -> (r: String)
        ensures
            r@ == replaced(self.reduce_prompt@, "{summaries}"@, summaries@),
    {
        proof {
            reveal_strlit("{summaries}");
        }
        replace_all(self.reduce_prompt.as_str(), "{summaries}", summaries)
    }

    /// The map prompt of each document, in order.
    pub fn map_prompts(&self, documents: &[Document]) -> (r: Vec<String>)
        ensures
            r@.len() == documents@.len(),
            forall|i: int|
                0 <= i < r@.len() ==> (#[trigger] r@[i])@ == replaced(
                    self.map_prompt@,
                    "{text}"@,
                    documents@[i].page_content@,
                ),
    {
        let mut out: Vec<String> = Vec::new();
        let mut i: usize = 0;
        while i < documents.len()
            invariant
                i <= documents@.len(),
                out@.len() == i,
                forall|k: int|
                    0 <= k < i ==> (#[trigger] out@[k])@ == replaced(
                        self.map_prompt@,
                        "{text}"@,
                        documents@[k].page_content@,
                    ),
            decreases documents.len() - i,
        {
            out.push(self.format_map_prompt(documents[i].page_content.as_str()));
            i = i + 1;
        }
        out
    }

    /// The reduce prompt once the map requests answered `results`: the
    /// answers joined by blank lines stand for `{summaries}`.
    pub fn reduce_prompt_for(&self, results: &[String]) -> (r: String)
        ensures
            r@ == replaced(
                self.reduce_prompt@,
                "{summaries}"@,
                joined(texts_of(results@), "\n\n"@, results@.len()),
            ),
    {
        let ghost parts = texts_of(results@);
        let mut combined = String::new();
        let mut i: usize = 0;
        while i < results.len()
            invariant
                i <= results@.len(),
                parts == texts_of(results@),
                combined@ == joined(parts, "\n\n"@, i as nat),
            decreases results.len() - i,
        {
            if i > 0 {
                combined.append("\n\n");
            }
            push_string(&mut combined, &results[i]);
            i = i + 1;
        }
        self.format_reduce_prompt(combined.as_str())
    }
}

} // verus!
