//! Documents and the templates that turn them into prompt text.

use vstd::prelude::*;
use vstd::string::*;
use crate::error::RustChainError;
use crate::json::{compact_json_text, json_text, lookup, JsonValue};
use crate::text::{chars_of, opt_text, push_chars, push_string, replace_all, replaced, string_of_chars};

verus! {

/// A piece of text with metadata, as retrievers return it.
#[derive(Debug)]
pub struct Document {
    /// The text.
    pub page_content: String,
    /// Metadata members, in order.
    pub metadata: Vec<(String, JsonValue)>,
}

impl Document {
    /// A document without metadata.
    pub fn new(page_content: &str) -> (r: Document)
        ensures
            r.page_content@ == page_content@,
            r.metadata@.len() == 0,
    {
        Document { page_content: String::from_str(page_content), metadata: Vec::new() }
    }

    /// The same document with the given metadata.
    pub fn with_metadata(self, metadata: Vec<(String, JsonValue)>) -> (r: Document)
        ensures
            r.page_content == self.page_content,
            r.metadata == metadata,
    {
        Document { page_content: self.page_content, metadata }
    }
}

/// How a metadata value reads inside text: a string as itself, anything else
/// as its JSON text.
pub open spec fn meta_text(v: JsonValue) -> Seq<char> {
    match v {
        JsonValue::Str(s) => s@,
        other => compact_json_text(other),
    }
}

/// The text a `{metadata.key}` placeholder stands for: the value's text, or
/// nothing for a missing key.
pub open spec fn meta_value(doc: Document, key: Seq<char>) -> Seq<char> {
    match lookup(doc.metadata@, key) {
        Some(v) => meta_text(v),
        None => Seq::<char>::empty(),
    }
}

/// Whether `p` occurs in `s` at `k`.
pub open spec fn at(s: Seq<char>, p: Seq<char>, k: int) -> bool {
    0 <= k && k + p.len() <= s.len() && s.subrange(k, k + p.len()) == p
}

/// The first place at or after `from` where `p` occurs in `s`.
pub open spec fn find_from(s: Seq<char>, p: Seq<char>, from: int) -> Option<int>
    decreases s.len() + 1 - from,
{
    if from < 0 || from + p.len() > s.len() {
        None
    } else if at(s, p, from) {
        Some(from)
    } else {
        find_from(s, p, from + 1)
    }
}

/// The placeholder prefix for metadata.
pub open spec fn meta_open() -> Seq<char> {
    "{metadata."@
}

/// `s` with each `{metadata.key}` placeholder, scanned from the left, replaced
/// by the key's value; an opening without a closing `}` is left as it is.
pub open spec fn fill_metadata(s: Seq<char>, doc: Document) -> Seq<char>
    decreases s.len(),
{
    match find_from(s, meta_open(), 0) {
        None => s,
        Some(k) => {
            let after = s.skip(k + meta_open().len());
            match find_from(after, seq!['}'], 0) {
                None => s,
                Some(j) => if 0 <= k && 0 <= j && k + meta_open().len() + j + 1 <= s.len() {
                    s.take(k) + meta_value(doc, after.take(j)) + fill_metadata(after.skip(j + 1), doc)
                } else {
                    s
                },
            }
        }
    }
}

/// A document written through a template: `{page_content}` first, then the
/// metadata placeholders.
pub open spec fn formatted_document(doc: Document, template: Seq<char>) -> Seq<char> {
    fill_metadata(replaced(template, "{page_content}"@, doc.page_content@), doc)
}

/// The texts `v[0..n)` joined by `sep`.
pub open spec fn joined(v: Seq<Seq<char>>, sep: Seq<char>, n: nat) -> Seq<char>
    decreases n,
{
    if n == 0 || n > v.len() {
        Seq::<char>::empty()
    } else if n == 1 {
        v[0]
    } else {
        joined(v, sep, (n - 1) as nat) + sep + v[n - 1]
    }
}

proof fn lemma_find_from_props(s: Seq<char>, p: Seq<char>, from: int)
    requires
        0 <= from,
    ensures
        find_from(s, p, from) matches Some(k) ==> from <= k && at(s, p, k),
        find_from(s, p, from) is None ==> forall|m: int| from <= m ==> !#[trigger] at(s, p, m),
    decreases s.len() + 1 - from,
{
    if from + p.len() > s.len() {
    } else if !at(s, p, from) {
        lemma_find_from_props(s, p, from + 1);
    }
}

/// The first place at or after `from` where `p` occurs in `s`.
fn find_chars(s: &Vec<char>, p: &Vec<char>, from: usize) -> (r: Option<usize>)
    requires
        from <= s@.len(),
    ensures
        r matches Some(k) ==> find_from(s@, p@, from as int) == Some(k as int),
        r is None ==> find_from(s@, p@, from as int) is None,
{
    let mut k = from;
    while k <= s.len() && p.len() <= s.len() - k
        invariant
            from <= k,
            find_from(s@, p@, from as int) == find_from(s@, p@, k as int),
        decreases s.len() + 1 - k,
    {
        let mut i: usize = 0;
        let mut ok = true;
        while i < p.len()
            invariant
                k + p@.len() <= s@.len(),
                i <= p@.len(),
                ok ==> forall|m: int| 0 <= m < i ==> s@[k + m] == p@[m],
                !ok ==> !at(s@, p@, k as int),
                !ok ==> p@.len() > 0,
            decreases p.len() - i,
        {
            assert(k + i < s.len());
            if s[k + i] != p[i] {
                assert(s@.subrange(k as int, k + p@.len())[i as int] != p@[i as int]);
                ok = false;
            }
            i = i + 1;
        }
        if ok {
            assert(s@.subrange(k as int, k + p@.len()) =~= p@);
            return Some(k);
        }
        k = k + 1;
    }
    None
}

/// The characters `v[lo..hi)`.
fn slice_chars(v: &Vec<char>, lo: usize, hi: usize) -> (r: Vec<char>)
    requires
        lo <= hi <= v@.len(),
    ensures
        r@ == v@.subrange(lo as int, hi as int),
{
    let mut out: Vec<char> = Vec::new();
    let mut i = lo;
    while i < hi
        invariant
            lo <= i <= hi <= v@.len(),
            out@ == v@.subrange(lo as int, i as int),
        decreases hi - i,
    {
        out.push(v[i]);
        i = i + 1;
        assert(out@ =~= v@.subrange(lo as int, i as int));
    }
    out
}

/// Utilities for formatting documents using template strings.
pub struct DocumentFormatter;

impl DocumentFormatter {
    /// The text of metadata `key` of `doc`.
    fn metadata_text(doc: &Document, key: &str) -> (r: String)
        ensures
            r@ == meta_value(*doc, key@),
    {
        let v = JsonValue::Object(Vec::new());
        let mut i: usize = 0;
        let m = &doc.metadata;
        assert(m@.skip(0) =~= m@);
        while i < m.len()
            invariant
                i <= m@.len(),
                *m == doc.metadata,
                lookup(m@, key@) == lookup(m@.skip(i as int), key@),
            decreases m.len() - i,
        {
            assert(m@.skip(i as int).drop_first() =~= m@.skip(i + 1));
            assert(m@.skip(i as int)[0] == m@[i as int]);
            if crate::text::str_eq(m[i].0.as_str(), key) {
                return match &m[i].1 {
                    JsonValue::Str(s) => s.clone(),
                    other => other.to_json_text(),
                };
            }
            i = i + 1;
        }
        String::new()
    }

    /// Format a single document using a template string.
    ///
    /// Supported placeholders:
    /// - `{page_content}`: replaced with the document's page content
    /// - `{metadata.KEY}`: replaced with the string value of the metadata key,
    ///   or an empty string if the key is missing
    pub fn format_document(doc: &Document, template: &str) -> (r: String)
        ensures
            r@ == formatted_document(*doc, template@),
    {
        proof {
            reveal_strlit("{page_content}");
            reveal_strlit("{metadata.");
        }
        let first = replace_all(template, "{page_content}", doc.page_content.as_str());
        let s = chars_of(first.as_str());
        let open = chars_of("{metadata.");
        let mut close: Vec<char> = Vec::new();
        close.push('}');
        assert(open@ == meta_open());
        let mut out = String::new();
        let mut pos: usize = 0;
        assert(s@.skip(0) =~= s@);
        loop
            invariant
                pos <= s@.len(),
                open@ == meta_open(),
                close@ == seq!['}'],
                out@ + fill_metadata(s@.skip(pos as int), *doc) == fill_metadata(s@, *doc),
                fill_metadata(s@, *doc) == formatted_document(*doc, template@),
            decreases s@.len() - pos,
        {
            let ghost rest = s@.skip(pos as int);
            let rest_v = slice_chars(&s, pos, s.len());
            assert(rest_v@ == rest);
            match find_chars(&rest_v, &open, 0) {
                None => {
                    assert(fill_metadata(rest, *doc) == rest);
                    push_chars(&mut out, &rest_v);
                    return out;
                },
                Some(k) => {
                    proof {
                        lemma_find_from_props(rest, meta_open(), 0);
                    }
                    let after_v = slice_chars(&rest_v, k + open.len(), rest_v.len());
                    assert(after_v@ =~= rest.skip(k + meta_open().len()));
                    match find_chars(&after_v, &close, 0) {
                        None => {
                            assert(fill_metadata(rest, *doc) == rest);
                            push_chars(&mut out, &rest_v);
                            return out;
                        },
                        Some(j) => {
                            proof {
                                lemma_find_from_props(after_v@, seq!['}'], 0);
                            }
                            let prefix = slice_chars(&rest_v, 0, k);
                            push_chars(&mut out, &prefix);
                            let key_v = slice_chars(&after_v, 0, j);
                            let key = string_of_chars(&key_v);
                            let value = Self::metadata_text(doc, key.as_str());
                            push_string(&mut out, &value);
                            assert(prefix@ =~= rest.take(k as int));
                            assert(key_v@ =~= after_v@.take(j as int));
                            assert(rest.skip(k + open@.len() + j + 1) =~= after_v@.skip(j + 1));
                            assert(s@.skip(pos + k + open@.len() + j + 1) =~= rest.skip(
                                k + open@.len() + j + 1,
                            ));
                            pos = pos + k + open.len() + j + 1;
                        },
                    }
                },
            }
        }
    }

    /// Format multiple documents using a template and join them with a separator.
    pub fn format_documents(docs: &[Document], template: &str, separator: &str) -> (r: String)
        ensures
            r@ == joined(
                Seq::new(docs@.len(), |i: int| formatted_document(docs@[i], template@)),
                separator@,
                docs@.len(),
            ),
    {
        let ghost parts = Seq::new(docs@.len(), |i: int| formatted_document(docs@[i], template@));
        let mut out = String::new();
        let mut i: usize = 0;
        while i < docs.len()
            invariant
                i <= docs@.len(),
                parts == Seq::new(docs@.len(), |i: int| formatted_document(docs@[i], template@)),
                out@ == joined(parts, separator@, i as nat),
            decreases docs.len() - i,
        {
            if i > 0 {
                out.append(separator);
            }
            let f = Self::format_document(&docs[i], template);
            push_string(&mut out, &f);
            i = i + 1;
            assert(out@ =~= joined(parts, separator@, i as nat));
        }
        out
    }
}

/// A strategy that concatenates ("stuffs") all documents together with a separator.
///
/// Each document is optionally formatted using a configurable template before joining.
pub struct StuffStrategy {
    /// Template for formatting each document.
    /// Supports `{page_content}` and `{metadata.KEY}` placeholders.
    /// If `None`, only the raw `page_content` is used.
    document_prompt: Option<String>,
}

/// How the strategy writes one document.
pub open spec fn stuffed(prompt: Option<String>, doc: Document) -> Seq<char> {
    match prompt {
        Some(t) => formatted_document(doc, t@),
        None => doc.page_content@,
    }
}

impl StuffStrategy {
    /// The template, if any.
    pub closed spec fn prompt(&self) -> Option<String> {
        self.document_prompt
    }

    /// Create a new `StuffStrategy` with no document prompt (raw page content).
    pub fn new() -> (r: Self)
        ensures
            r.prompt() is None,
    {
        StuffStrategy { document_prompt: None }
    }

    /// Create a new `StuffStrategy` with a document prompt template.
    ///
    /// The template may contain `{page_content}` and `{metadata.KEY}` placeholders.
    pub fn with_prompt(prompt: &str) -> (r: Self)
        ensures
            r.prompt() matches Some(p) && p@ == prompt@,
    {
        StuffStrategy { document_prompt: Some(String::from_str(prompt)) }
    }

    /// Joins the documents, each written with the template (or as its raw
    /// content without one), with `separator` between them.
    pub fn stuff(&self, documents: &[Document], separator: &str) -> (r: String)
        ensures
            r@ == joined(
                Seq::new(documents@.len(), |i: int| stuffed(self.prompt(), documents@[i])),
                separator@,
                documents@.len(),
            ),
    {
        let ghost parts = Seq::new(documents@.len(), |i: int| stuffed(self.prompt(), documents@[i]));
        let mut out = String::new();
        let mut i: usize = 0;
        while i < documents.len()
            invariant
                i <= documents@.len(),
                parts == Seq::new(documents@.len(), |i: int| stuffed(self.prompt(), documents@[i])),
                out@ == joined(parts, separator@, i as nat),
            decreases documents.len() - i,
        {
            if i > 0 {
                out.append(separator);
            }
            match &self.document_prompt {
                Some(t) => {
                    let f = DocumentFormatter::format_document(&documents[i], t.as_str());
                    push_string(&mut out, &f);
                },
                None => push_string(&mut out, &documents[i].page_content),
            }
            i = i + 1;
            assert(out@ =~= joined(parts, separator@, i as nat));
        }
        out
    }
}

impl Default for StuffStrategy {
    fn default() -> (r: Self)
        ensures
            r.prompt() is None,
    {
        Self::new()
    }
}

/// Combines documents into one text.
pub trait DocumentCombineStrategy {
    /// Whether `r` is an outcome of combining `documents` with `separator`.
    spec fn combines(&self, documents: Seq<Document>, separator: Seq<char>, r: Result<String, RustChainError>) -> bool;

    /// The documents combined, with `separator` where the strategy joins
    /// them.
    fn combine(&self, documents: &[Document], separator: &str) -> (r: Result<String, RustChainError>)
        ensures
            self.combines(documents@, separator@, r),
    ;
}

impl DocumentCombineStrategy for StuffStrategy {
    /// Stuffing never fails: the outcome is the stuffed documents joined by
    /// the separator.
    open spec fn combines(&self, documents: Seq<Document>, separator: Seq<char>, r: Result<String, RustChainError>) -> bool {
        r matches Ok(s) && s@ == joined(
            Seq::new(documents.len(), |i: int| stuffed(self.prompt(), documents[i])),
            separator,
            documents.len(),
        )
    }

    /// Stuffing never fails.
    fn combine(&self, documents: &[Document], separator: &str) -> (r: Result<String, RustChainError>)
        ensures
            r matches Ok(s) && s@ == joined(
                Seq::new(documents@.len(), |i: int| stuffed(self.prompt(), documents@[i])),
                separator@,
                documents@.len(),
            ),
    {
        Ok(self.stuff(documents, separator))
    }
}

/// Combines input documents into one output text with a
/// [`DocumentCombineStrategy`].
pub struct StuffDocumentsChain {
    combine_strategy: Box<dyn DocumentCombineStrategy>,
    input_key: String,
    output_key: String,
    document_separator: String,
    document_prompt: Option<String>,
}

impl StuffDocumentsChain {
    /// The key for input documents.
    pub closed spec fn input(&self) -> Seq<char> {
        self.input_key@
    }

    /// The key for the output text.
    pub closed spec fn output(&self) -> Seq<char> {
        self.output_key@
    }

    /// The separator between documents.
    pub closed spec fn separator(&self) -> Seq<char> {
        self.document_separator@
    }

    /// The per-document template, if one was set.
    pub closed spec fn prompt(&self) -> Option<Seq<char>> {
        opt_text(self.document_prompt)
    }

    /// A builder with the default keys and separator.
    pub fn builder() -> (r: StuffDocumentsChainBuilder)
        ensures
            r.settings() == (
                false,
                "input_documents"@,
                "output_text"@,
                "\n\n"@,
                None::<Seq<char>>,
            ),
    {
        StuffDocumentsChainBuilder::new()
    }

    /// A chain with the given strategy and the default keys and separator.
    pub fn new(strategy: Box<dyn DocumentCombineStrategy>) -> (r: Self)
        ensures
            r.input() == "input_documents"@,
            r.output() == "output_text"@,
            r.separator() == "\n\n"@,
            r.prompt() is None,
    {
        StuffDocumentsChain {
            combine_strategy: strategy,
            input_key: String::from_str("input_documents"),
            output_key: String::from_str("output_text"),
            document_separator: String::from_str("\n\n"),
            document_prompt: None,
        }
    }

    /// Whether `r` is an outcome of the chain's strategy on `documents`
    /// with the chain's separator.
    pub closed spec fn combined(&self, documents: Seq<Document>, r: Result<String, RustChainError>) -> bool {
        self.combine_strategy.combines(documents, self.document_separator@, r)
    }

    /// The documents combined by the chain's strategy with its separator.
    pub fn invoke(&self, documents: &[Document]) -> (r: Result<String, RustChainError>)
        ensures
            self.combined(documents@, r),
    {
        self.combine_strategy.combine(documents, self.document_separator.as_str())
    }

    /// The combined text under the output key, or the strategy's error.
    pub fn invoke_as_map(&self, documents: &[Document]) -> (r: Result<Vec<(String, String)>, RustChainError>)
        ensures
            match r {
                Ok(m) => m@.len() == 1 && m@[0].0@ == self.output() && self.combined(
                    documents@,
                    Ok(m@[0].1),
                ),
                Err(e) => self.combined(documents@, Err(e)),
            },
    {
        match self.invoke(documents) {
            Ok(text) => Ok(vec![(self.output_key.clone(), text)]),
            Err(e) => Err(e),
        }
    }

    /// The key for input documents.
    pub fn input_key(&self) -> (r: &str)
        ensures
            r@ == self.input(),
    {
        self.input_key.as_str()
    }

    /// The key for the output text.
    pub fn output_key(&self) -> (r: &str)
        ensures
            r@ == self.output(),
    {
        self.output_key.as_str()
    }

    /// The separator between documents.
    pub fn document_separator(&self) -> (r: &str)
        ensures
            r@ == self.separator(),
    {
        self.document_separator.as_str()
    }

    /// The per-document template, if one was set.
    pub fn document_prompt(&self) -> (r: Option<&str>)
        ensures
            match r {
                Some(p) => self.prompt() == Some(p@),
                None => self.prompt() is None,
            },
    {
        match &self.document_prompt {
            Some(p) => Some(p.as_str()),
            None => None,
        }
    }
}

/// Builds a [`StuffDocumentsChain`].
pub struct StuffDocumentsChainBuilder {
    combine_strategy: Option<Box<dyn DocumentCombineStrategy>>,
    input_key: String,
    output_key: String,
    document_separator: String,
    document_prompt: Option<String>,
}

impl StuffDocumentsChainBuilder {
    /// Whether a strategy was given, the keys, the separator and the
    /// template so far.
    pub closed spec fn settings(&self) -> (bool, Seq<char>, Seq<char>, Seq<char>, Option<Seq<char>>) {
        (
            self.combine_strategy is Some,
            self.input_key@,
            self.output_key@,
            self.document_separator@,
            opt_text(self.document_prompt),
        )
    }

    /// A builder with the default keys (`input_documents`, `output_text`)
    /// and separator (a blank line).
    pub fn new() -> (r: Self)
        ensures
            r.settings() == (
                false,
                "input_documents"@,
                "output_text"@,
                "\n\n"@,
                None::<Seq<char>>,
            ),
    {
        StuffDocumentsChainBuilder {
            combine_strategy: None,
            input_key: String::from_str("input_documents"),
            output_key: String::from_str("output_text"),
            document_separator: String::from_str("\n\n"),
            document_prompt: None,
        }
    }

    /// Sets the strategy.
    pub fn strategy(self, strategy: Box<dyn DocumentCombineStrategy>) -> (r: Self)
        ensures
            r.settings() == (true, self.settings().1, self.settings().2, self.settings().3, self.settings().4),
    {
        StuffDocumentsChainBuilder { combine_strategy: Some(strategy), ..self }
    }

    /// Sets the input key.
    pub fn input_key(self, key: &str) -> (r: Self)
        ensures
            r.settings() == (self.settings().0, key@, self.settings().2, self.settings().3, self.settings().4),
    {
        StuffDocumentsChainBuilder { input_key: String::from_str(key), ..self }
    }

    /// Sets the output key.
    pub fn output_key(self, key: &str) -> (r: Self)
        ensures
            r.settings() == (self.settings().0, self.settings().1, key@, self.settings().3, self.settings().4),
    {
        StuffDocumentsChainBuilder { output_key: String::from_str(key), ..self }
    }

    /// Sets the separator.
    pub fn document_separator(self, sep: &str) -> (r: Self)
        ensures
            r.settings() == (self.settings().0, self.settings().1, self.settings().2, sep@, self.settings().4),
    {
        StuffDocumentsChainBuilder { document_separator: String::from_str(sep), ..self }
    }

    /// Sets the per-document template.
    pub fn document_prompt(self, prompt: &str) -> (r: Self)
        ensures
            r.settings() == (self.settings().0, self.settings().1, self.settings().2, self.settings().3, Some(prompt@)),
    {
        StuffDocumentsChainBuilder { document_prompt: Some(String::from_str(prompt)), ..self }
    }

    /// The chain; without a strategy it stuffs the documents, through the
    /// template when one was set.
    pub fn build(self) -> (r: StuffDocumentsChain)
        ensures
            r.input() == self.settings().1,
            r.output() == self.settings().2,
            r.separator() == self.settings().3,
            r.prompt() == self.settings().4,
    {
        let strategy: Box<dyn DocumentCombineStrategy> = match self.combine_strategy {
            Some(s) => s,
            None => match &self.document_prompt {
                Some(p) => Box::new(StuffStrategy::with_prompt(p.as_str())),
                None => Box::new(StuffStrategy::new()),
            },
        };
        StuffDocumentsChain {
            combine_strategy: strategy,
            input_key: self.input_key,
            output_key: self.output_key,
            document_separator: self.document_separator,
            document_prompt: self.document_prompt,
        }
    }
}

/// A chain that stuffs documents through `prompt_template`.
pub fn create_stuff_documents_chain(prompt_template: &str) -> (r: StuffDocumentsChain)
    ensures
        r.input() == "input_documents"@,
        r.output() == "output_text"@,
        r.separator() == "\n\n"@,
        r.prompt() is None,
{
    StuffDocumentsChain::builder().strategy(Box::new(StuffStrategy::with_prompt(prompt_template))).build()
}

/// Whether two documents have the same content and metadata texts.
pub open spec fn same_document(a: Document, b: Document) -> bool {
    &&& a.page_content@ == b.page_content@
    &&& a.metadata@.len() == b.metadata@.len()
    &&& forall|j: int| 0 <= j < a.metadata@.len() ==> (#[trigger] a.metadata@[j]).0@ == b.metadata@[j].0@
        && json_text(a.metadata@[j].1) == json_text(b.metadata@[j].1)
}

/// Whether two lists hold documents that are the same, one for one.
pub open spec fn same_documents(a: Seq<Document>, b: Seq<Document>) -> bool {
    a.len() == b.len() && forall|i: int| 0 <= i < a.len() ==> same_document(#[trigger] a[i], b[i])
}

impl Document {
    /// A copy of this document.
    pub fn copy(&self) -> (r: Document)
        ensures
            same_document(r, *self),
    {
        let mut metadata: Vec<(String, JsonValue)> = Vec::new();
        let mut j: usize = 0;
        while j < self.metadata.len()
            invariant
                j <= self.metadata@.len(),
                metadata@.len() == j,
                forall|k: int| 0 <= k < j ==> (#[trigger] metadata@[k]).0@ == self.metadata@[k].0@
                    && json_text(metadata@[k].1) == json_text(self.metadata@[k].1),
            decreases self.metadata.len() - j,
        {
            metadata.push((self.metadata[j].0.clone(), self.metadata[j].1.copy()));
            j = j + 1;
        }
        Document { page_content: self.page_content.clone(), metadata }
    }
}

/// Copies of `docs[start..end)`.
fn copy_range(docs: &Vec<Document>, start: usize, end: usize) -> (r: Vec<Document>)
    requires
        start <= end <= docs@.len(),
    ensures
        same_documents(r@, docs@.subrange(start as int, end as int)),
{
    let mut out: Vec<Document> = Vec::new();
    let mut i: usize = start;
    while i < end
        invariant
            start <= i <= end <= docs@.len(),
            out@.len() == i - start,
            forall|k: int| 0 <= k < out@.len() ==> same_document(#[trigger] out@[k], docs@[start + k]),
        decreases end - i,
    {
        out.push(docs[i].copy());
        i = i + 1;
    }
    out
}

/// Collapses documents by summarizing groups of at most
/// `max_docs_per_group`, level after level, until one text remains.
#[derive(Debug, Clone, Copy, PartialEq, Eq, Structural)]
pub struct CollapseStrategy {
    /// The largest group summarized at once; at least 2.
    pub max_docs_per_group: usize,
}

impl CollapseStrategy {
    /// A strategy with groups of at most `max_docs_per_group`, raised to 2
    /// when smaller.
    pub fn new(max_docs_per_group: usize) -> (r: Self)
        ensures
            r.max_docs_per_group == if max_docs_per_group < 2 {
                2
            } else {
                max_docs_per_group
            },
    {
        CollapseStrategy {
            max_docs_per_group: if max_docs_per_group < 2 {
                2
            } else {
                max_docs_per_group
            },
        }
    }
}

/// What a collapse asks of its caller.
#[derive(Debug)]
pub enum CollapseCall {
    /// Summarize these documents into one text.
    Summarize(Vec<Document>),
    /// The collapse is done, with this outcome.
    Finished(Result<String, RustChainError>),
}

/// A collapse in progress.
pub struct CollapseRun {
    max: usize,
    current: Vec<Document>,
    next: Vec<Document>,
    pos: usize,
    last: bool,
    over: bool,
}

/// The end of the group that starts at `pos` among `n` documents.
pub open spec fn group_end(pos: int, max: int, n: int) -> int {
    if pos + max < n {
        pos + max
    } else {
        n
    }
}

impl CollapseRun {
    /// The documents of the level being collapsed.
    pub closed spec fn level(&self) -> Seq<Document> {
        self.current@
    }

    /// The summaries made so far on this level.
    pub closed spec fn summaries(&self) -> Seq<Seq<char>> {
        self.next@.map_values(|d: Document| d.page_content@)
    }

    /// Where the group being summarized starts.
    pub closed spec fn position(&self) -> nat {
        self.pos as nat
    }

    /// The group size.
    pub closed spec fn group_size(&self) -> nat {
        self.max as nat
    }

    /// Whether the summary asked for is the final one.
    pub closed spec fn is_last(&self) -> bool {
        self.last
    }

    /// Whether the collapse is over.
    pub closed spec fn is_over(&self) -> bool {
        self.over
    }

    /// The run's state is consistent.
    pub closed spec fn wf(&self) -> bool {
        &&& self.max >= 2
        &&& !self.over && !self.last ==> self.pos < self.current@.len() && self.current@.len() > self.max
        &&& forall|i: int| 0 <= i < self.next@.len() ==> (#[trigger] self.next@[i]).metadata@.len() == 0
    }
}

/// Whether `r` and `call` are what starting a level of documents `level`
/// leads to: more documents than a group are summarized group by group,
/// one document is the result, and a group's worth is summarized at once.
pub open spec fn level_entered(max: nat, level: Seq<Document>, r: CollapseRun, call: CollapseCall) -> bool {
    &&& r.group_size() == max
    &&& if level.len() > max {
        &&& !r.is_over() && !r.is_last()
        &&& r.level() == level
        &&& r.position() == 0
        &&& r.summaries().len() == 0
        &&& call matches CollapseCall::Summarize(g) && same_documents(g@, level.subrange(0, max as int))
    } else if level.len() == 1 {
        &&& r.is_over()
        &&& call matches CollapseCall::Finished(Ok(s)) && s@ == level[0].page_content@
    } else {
        &&& !r.is_over() && r.is_last()
        &&& call matches CollapseCall::Summarize(g) && same_documents(g@, level)
    }
}

/// The level of documents made of the given summaries.
pub open spec fn summary_level(texts: Seq<Seq<char>>, level: Seq<Document>) -> bool {
    level.len() == texts.len() && forall|i: int| 0 <= i < level.len() ==> (#[trigger] level[i]).page_content@ == texts[i]
        && level[i].metadata@.len() == 0
}

impl CollapseRun {
    /// Starts a level.
    fn enter(max: usize, level: Vec<Document>) -> (res: (CollapseRun, CollapseCall))
        requires
            max >= 2,
            level@.len() >= 1,
        ensures
            res.0.wf(),
            res.0.level() == level@,
            level_entered(max as nat, level@, res.0, res.1),
    {
        let n = level.len();
        if n > max {
            let group = copy_range(&level, 0, max);
            let run = CollapseRun { max, current: level, next: Vec::new(), pos: 0, last: false, over: false };
            assert(run.summaries() =~= Seq::<Seq<char>>::empty());
            (run, CollapseCall::Summarize(group))
        } else if n == 1 {
            let text = level[0].page_content.clone();
            let run = CollapseRun { max, current: level, next: Vec::new(), pos: 0, last: false, over: true };
            (run, CollapseCall::Finished(Ok(text)))
        } else {
            let group = copy_range(&level, 0, n);
            assert(level@.subrange(0, n as int) =~= level@);
            let run = CollapseRun { max, current: level, next: Vec::new(), pos: 0, last: true, over: false };
            (run, CollapseCall::Summarize(group))
        }
    }
}

impl CollapseRun {
    /// Starts collapsing `documents` with `strategy` (groups of at least
    /// 2), with the first request; no documents give an empty text at once.
    pub fn start(strategy: &CollapseStrategy, documents: &[Document]) -> (res: (CollapseRun, CollapseCall))
        ensures
            res.0.wf(),
            documents@.len() == 0 ==> res.0.is_over() && (res.1 matches CollapseCall::Finished(Ok(s))
                && s@.len() == 0),
            documents@.len() > 0 ==> same_documents(res.0.level(), documents@) && level_entered(
                if strategy.max_docs_per_group < 2 {
                    2
                } else {
                    strategy.max_docs_per_group as nat
                },
                res.0.level(),
                res.0,
                res.1,
            ),
    {
        let max = if strategy.max_docs_per_group < 2 {
            2
        } else {
            strategy.max_docs_per_group
        };
        if documents.len() == 0 {
            let run = CollapseRun { max, current: Vec::new(), next: Vec::new(), pos: 0, last: false, over: true };
            return (run, CollapseCall::Finished(Ok(String::new())));
        }
        let mut level: Vec<Document> = Vec::new();
        let mut i: usize = 0;
        while i < documents.len()
            invariant
                i <= documents@.len(),
                level@.len() == i,
                forall|k: int| 0 <= k < i ==> same_document(#[trigger] level@[k], documents@[k]),
            decreases documents.len() - i,
        {
            level.push(documents[i].copy());
            i = i + 1;
        }
        let ghost lv = level@;
        let res = Self::enter(max, level);
        proof {
            if lv.len() > max {
                assert(res.0.level() == lv);
            }
        }
        res
    }

    /// Takes the summary of the group asked for, and gives the next request.
    pub fn step(&mut self, summary: Result<String, RustChainError>) -> (call: CollapseCall)
        requires
            old(self).wf(),
            !old(self).is_over(),
        ensures
            final(self).wf(),
            final(self).group_size() == old(self).group_size(),
            match summary {
                Err(e) => final(self).is_over() && (call matches CollapseCall::Finished(Err(x)) && x == e),
                Ok(s) => if old(self).is_last() {
                    final(self).is_over() && (call matches CollapseCall::Finished(Ok(x)) && x@ == s@)
                } else {
                    let pos2 = old(self).position() + old(self).group_size();
                    let sums = old(self).summaries().push(s@);
                    if pos2 < old(self).level().len() {
                        &&& !final(self).is_over() && !final(self).is_last()
                        &&& final(self).level() == old(self).level()
                        &&& final(self).position() == pos2
                        &&& final(self).summaries() == sums
                        &&& call matches CollapseCall::Summarize(g) && same_documents(
                            g@,
                            old(self).level().subrange(
                                pos2 as int,
                                group_end(pos2 as int, old(self).group_size() as int, old(self).level().len() as int),
                            ),
                        )
                    } else {
                        summary_level(sums, final(self).level()) && level_entered(
                            old(self).group_size(),
                            final(self).level(),
                            *final(self),
                            call,
                        )
                    }
                },
            },
    {
        match summary {
            Err(e) => {
                self.over = true;
                CollapseCall::Finished(Err(e))
            },
            Ok(s) => {
                if self.last {
                    self.over = true;
                    return CollapseCall::Finished(Ok(s));
                }
                let ghost sums0 = self.summaries();
                let ghost s_v = s@;
                self.next.push(Document::new(s.as_str()));
                assert(self.summaries() =~= sums0.push(s_v));
                let n = self.current.len();
                let pos2 = if n - self.pos > self.max {
                    self.pos + self.max
                } else {
                    n
                };
                if pos2 < n {
                    self.pos = pos2;
                    let end = if n - pos2 > self.max {
                        pos2 + self.max
                    } else {
                        n
                    };
                    CollapseCall::Summarize(copy_range(&self.current, pos2, end))
                } else {
                    let mut next: Vec<Document> = Vec::new();
                    std::mem::swap(&mut next, &mut self.next);
                    let ghost nv = next@;
                    assert(summary_level(sums0.push(s_v), nv));
                    let (run, call) = Self::enter(self.max, next);
                    *self = run;
                    call
                }
            },
        }
    }
}

} // verus!
