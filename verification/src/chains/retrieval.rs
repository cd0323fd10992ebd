//! Retrieval question answering: the retrieved documents are stuffed into
//! the prompt's context and the question asked about them.

use vstd::prelude::*;
use vstd::string::*;
use crate::chains::documents::{joined, Document};
use crate::text::{push_string, replace_all, replaced};

verus! {

/// The default prompt, with `{context}` and `{query}` placeholders.
pub open spec fn default_retrieval_prompt() -> Seq<char> {
    "Use the following context to answer the question.\n\nContext:\n{context}\n\nQuestion: {query}\n\nAnswer:"@
}

/// The contents of a list of documents.
pub open spec fn contents(docs: Seq<Document>) -> Seq<Seq<char>> {
    docs.map_values(|d: Document| d.page_content@)
}

/// The prompt a chain uses: the one set, else the default.
pub open spec fn template_in_use(c: RetrievalQAChain) -> Seq<char> {
    match c.prompt_template {
        Some(t) => t@,
        None => default_retrieval_prompt(),
    }
}

/// The settings of a retrieval question-answering chain: the prompt and how
/// many retrieved documents are used. The retriever and the model are held
/// by the caller.
pub struct RetrievalQAChain {
    /// A prompt in place of the default one.
    pub prompt_template: Option<String>,
    /// How many retrieved documents are used.
    pub k: usize,
}

impl RetrievalQAChain {
    /// A chain with the default prompt, using 4 documents.
    pub fn new() -> (r: Self)
        ensures
            r.prompt_template is None,
            r.k == 4,
    {
        RetrievalQAChain { prompt_template: None, k: 4 }
    }

    /// Sets the prompt; it should hold `{context}` and `{query}`.
    pub fn with_prompt_template(self, template: &str) -> (r: Self)
        ensures
            r.prompt_template matches Some(t) && t@ == template@,
            r.k == self.k,
    {
        RetrievalQAChain { prompt_template: Some(String::from_str(template)), ..self }
    }

    /// Sets how many documents are used.
    pub fn with_k(self, k: usize) -> (r: Self)
        ensures
            r.k == k,
            r.prompt_template == self.prompt_template,
    {
        RetrievalQAChain { k, ..self }
    }

    /// The contents of the documents joined by blank lines.
    pub fn stuff_documents(docs: &[Document]) -> (r: String)
        ensures
            r@ == joined(contents(docs@), "\n\n"@, docs@.len()),
    {
        let ghost parts = contents(docs@);
        let mut out = String::new();
        let mut i: usize = 0;
        while i < docs.len()
            invariant
                i <= docs@.len(),
                parts == contents(docs@),
                out@ == joined(parts, "\n\n"@, i as nat),
            decreases docs.len() - i,
        {
            if i > 0 {
                out.append("\n\n");
            }
            push_string(&mut out, &docs[i].page_content);
            i = i + 1;
        }
        out
    }

    /// The prompt in use: the one set, else the default.
    pub fn effective_template(&self) -> (r: &str)
        ensures
            r@ == template_in_use(*self),
    {
        match &self.prompt_template {
            Some(t) => t.as_str(),
            None => "Use the following context to answer the question.\n\nContext:\n{context}\n\nQuestion: {query}\n\nAnswer:",
        }
    }

    /// The prompt with every `{context}` replaced by `context`, then every
    /// `{query}` by `query`.
    pub fn format_prompt(&self, context: &str, query: &str) -> (r: String)
        ensures
            r@ == replaced(
                replaced(template_in_use(*self), "{context}"@, context@),
                "{query}"@,
                query@,
            ),
    {
        proof {
            reveal_strlit("{context}");
            reveal_strlit("{query}");
        }
        let t = self.effective_template();
        let first = replace_all(t, "{context}", context);
        replace_all(first.as_str(), "{query}", query)
    }

    /// What is sent for `query` once the retriever gave `docs`: the first
    /// `k` documents, and the prompt whose context they make.
    pub fn prepare(&self, docs: Vec<Document>, query: &str) -> (r: (Vec<Document>, String))
        ensures
            r.0@ == docs@.take(if docs@.len() < self.k { docs@.len() as int } else { self.k as int }),
            r.1@ == replaced(
                replaced(
                    template_in_use(*self),
                    "{context}"@,
                    joined(contents(r.0@), "\n\n"@, r.0@.len()),
                ),
                "{query}"@,
                query@,
            ),
    {
        let mut kept = docs;
        if kept.len() > self.k {
            kept.truncate(self.k);
        }
        let context = Self::stuff_documents(kept.as_slice());
        let prompt = self.format_prompt(context.as_str(), query);
        (kept, prompt)
    }
}

} // verus!
