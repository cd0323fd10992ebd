//! Conversational retrieval: a follow-up question is first rewritten as a
//! standalone question from the chat history, then answered from the
//! documents retrieved for it, and the exchange joins the history.

use vstd::prelude::*;
use vstd::string::*;
use crate::chains::documents::{joined, Document};
use crate::chains::retrieval::contents;
use crate::error::RustChainError;
use crate::json::{compact_json_text, str_member, JsonValue};
use crate::messages::{Message, MessageType};
use crate::text::{push_string, replace_all, replaced};

verus! {

/// The default prompt that rewrites a follow-up question.
pub open spec fn default_condense_prompt() -> Seq<char> {
    "Given the following conversation and a follow up question, rephrase the follow up question to be a standalone question.\n\nChat History:\n{chat_history}\nFollow Up Input: {question}\nStandalone question:"@
}

/// The default prompt that answers from the retrieved context.
pub open spec fn default_qa_prompt() -> Seq<char> {
    "Use the following context to answer the question.\n\nContext:\n{context}\n\nQuestion: {question}\n\nAnswer:"@
}

/// The role a history line names.
pub open spec fn history_role(t: MessageType) -> Seq<char> {
    match t {
        MessageType::Human => "Human"@,
        MessageType::Ai => "AI"@,
        _ => "Other"@,
    }
}

/// `role: content` for each message of `v`.
pub open spec fn history_lines(v: Seq<Message>) -> Seq<Seq<char>> {
    v.map_values(|m: Message| history_role(m.message_type) + ": "@ + m.content@)
}

/// The chat history as text, one message per line.
pub open spec fn history_text(v: Seq<Message>) -> Seq<char> {
    joined(history_lines(v), "\n"@, v.len())
}

/// A chain that answers follow-up questions about retrieved documents. It
/// holds the prompts, how many documents are used and the chat history; the
/// retriever and the models are held by the caller.
pub struct ConversationalRetrievalChain {
    /// The messages exchanged so far, oldest first.
    pub chat_history: Vec<Message>,
    /// How many retrieved documents are used.
    pub k: usize,
    /// The prompt that rewrites a follow-up question, with
    /// `{chat_history}` and `{question}` placeholders.
    pub condense_prompt: String,
    /// The prompt that answers, with `{context}` and `{question}`
    /// placeholders.
    pub qa_prompt: String,
}

impl ConversationalRetrievalChain {
    /// The messages exchanged so far, oldest first.
    pub open spec fn history(&self) -> Seq<Message> {
        self.chat_history@
    }

    /// A chain with the default prompts, using 4 documents, with no history.
    pub fn new() -> (r: Self)
        ensures
            r.history().len() == 0,
            r.k == 4,
            r.condense_prompt@ == default_condense_prompt(),
            r.qa_prompt@ == default_qa_prompt(),
    {
        ConversationalRetrievalChain {
            chat_history: Vec::new(),
            k: 4,
            condense_prompt: String::from_str(
                "Given the following conversation and a follow up question, rephrase the follow up question to be a standalone question.\n\nChat History:\n{chat_history}\nFollow Up Input: {question}\nStandalone question:",
            ),
            qa_prompt: String::from_str(
                "Use the following context to answer the question.\n\nContext:\n{context}\n\nQuestion: {question}\n\nAnswer:",
            ),
        }
    }

    /// Sets how many documents are used.
    pub fn with_k(self, k: usize) -> (r: Self)
        ensures
            r.k == k,
            r.history() == self.history(),
            r.condense_prompt == self.condense_prompt,
            r.qa_prompt == self.qa_prompt,
    {
        ConversationalRetrievalChain { k, ..self }
    }

    /// Sets the prompt that rewrites follow-up questions.
    pub fn with_condense_prompt(self, prompt: &str) -> (r: Self)
        ensures
            r.condense_prompt@ == prompt@,
            r.k == self.k,
            r.history() == self.history(),
            r.qa_prompt == self.qa_prompt,
    {
        ConversationalRetrievalChain { condense_prompt: String::from_str(prompt), ..self }
    }

    /// Sets the prompt that answers.
    pub fn with_qa_prompt(self, prompt: &str) -> (r: Self)
        ensures
            r.qa_prompt@ == prompt@,
            r.k == self.k,
            r.history() == self.history(),
            r.condense_prompt == self.condense_prompt,
    {
        ConversationalRetrievalChain { qa_prompt: String::from_str(prompt), ..self }
    }

    /// The chat history as text, `role: content` per line.
    pub fn history_as_text(&self) -> (r: String)
        ensures
            r@ == history_text(self.history()),
    {
        let ghost lines = history_lines(self.chat_history@);
        let mut out = String::new();
        let mut i: usize = 0;
        while i < self.chat_history.len()
            invariant
                i <= self.chat_history@.len(),
                lines == history_lines(self.chat_history@),
                out@ == joined(lines, "\n"@, i as nat),
            decreases self.chat_history.len() - i,
        {
            if i > 0 {
                out.append("\n");
            }
            let m = &self.chat_history[i];
            match m.message_type {
                MessageType::Human => out.append("Human"),
                MessageType::Ai => out.append("AI"),
                _ => out.append("Other"),
            }
            out.append(": ");
            push_string(&mut out, &m.content);
            i = i + 1;
        }
        out
    }

    /// The request that rewrites `question` as a standalone question: `None`
    /// while the history is empty (the question stands as it is), else the
    /// condense prompt with the history and the question in place.
    pub fn condense_request(&self, question: &str) -> (r: Option<String>)
        ensures
            self.history().len() == 0 ==> r is None,
            self.history().len() > 0 ==> (r matches Some(p) && p@ == replaced(
                replaced(self.condense_prompt@, "{chat_history}"@, history_text(self.history())),
                "{question}"@,
                question@,
            )),
    {
        if self.chat_history.len() == 0 {
            return None;
        }
        proof {
            reveal_strlit("{chat_history}");
            reveal_strlit("{question}");
        }
        let h = self.history_as_text();
        let first = replace_all(self.condense_prompt.as_str(), "{chat_history}", h.as_str());
        Some(replace_all(first.as_str(), "{question}", question))
    }

    /// What is sent to answer `question` once the retriever gave `docs`: the
    /// first `k` documents, and the answering prompt with their contents
    /// (joined by blank lines) as context.
    pub fn qa_request(&self, docs: Vec<Document>, question: &str) -> (r: (Vec<Document>, String))
        ensures
            r.0@ == docs@.take(if docs@.len() < self.k { docs@.len() as int } else { self.k as int }),
            r.1@ == replaced(
                replaced(self.qa_prompt@, "{context}"@, joined(contents(r.0@), "\n\n"@, r.0@.len())),
                "{question}"@,
                question@,
            ),
    {
        proof {
            reveal_strlit("{context}");
            reveal_strlit("{question}");
        }
        let mut kept = docs;
        if kept.len() > self.k {
            kept.truncate(self.k);
        }
        let ghost parts = contents(kept@);
        let mut context = String::new();
        let mut i: usize = 0;
        while i < kept.len()
            invariant
                i <= kept@.len(),
                parts == contents(kept@),
                context@ == joined(parts, "\n\n"@, i as nat),
            decreases kept.len() - i,
        {
            if i > 0 {
                context.append("\n\n");
            }
            push_string(&mut context, &kept[i].page_content);
            i = i + 1;
        }
        let first = replace_all(self.qa_prompt.as_str(), "{context}", context.as_str());
        let prompt = replace_all(first.as_str(), "{question}", question);
        (kept, prompt)
    }

    /// Adds an exchange to the history: the question as a human message,
    /// the answer as an AI message.
    pub fn record(&mut self, question: &str, answer: &str)
        ensures
            final(self).history().len() == old(self).history().len() + 2,
            final(self).history().subrange(0, old(self).history().len() as int) == old(self).history(),
            final(self).history()[old(self).history().len() as int].message_type == MessageType::Human,
            final(self).history()[old(self).history().len() as int].content@ == question@,
            final(self).history().last().message_type == MessageType::Ai,
            final(self).history().last().content@ == answer@,
            final(self).k == old(self).k,
            final(self).condense_prompt == old(self).condense_prompt,
            final(self).qa_prompt == old(self).qa_prompt,
    {
        self.chat_history.push(Message::human(question));
        self.chat_history.push(Message::ai(answer));
    }

    /// Forgets the history.
    pub fn clear_history(&mut self)
        ensures
            final(self).history().len() == 0,
            final(self).k == old(self).k,
            final(self).condense_prompt == old(self).condense_prompt,
            final(self).qa_prompt == old(self).qa_prompt,
    {
        self.chat_history = Vec::new();
    }

    /// The name the chain runs under.
    pub fn name(&self) -> (r: &'static str)
        ensures
            r@ == "ConversationalRetrievalChain"@,
    {
        "ConversationalRetrievalChain"
    }

    /// The question of an input: its string member `input`, or the input
    /// itself when it is a string.
    pub fn question_of(input: &JsonValue) -> (r: Result<String, RustChainError>)
        ensures
            match (str_member(*input, "input"@), *input) {
                (Some(q), _) => r matches Ok(s) && s@ == q,
                (None, JsonValue::Str(q)) => r matches Ok(s) && s@ == q@,
                (None, _) => r matches Err(RustChainError::TypeMismatch { expected, got })
                    && expected@ == "Object with 'input' string key or a plain string"@ && got@
                    == compact_json_text(*input),
            },
    {
        match input.get_str("input") {
            Some(q) => Ok(String::from_str(q)),
            None => match input {
                JsonValue::Str(q) => Ok(q.clone()),
                _ => Err(
                    RustChainError::TypeMismatch {
                        expected: String::from_str("Object with 'input' string key or a plain string"),
                        got: input.to_json_text(),
                    },
                ),
            },
        }
    }
}

} // verus!
