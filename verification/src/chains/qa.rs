//! Question answering over documents: configuration, the prompt a QA chain
//! builds, and the citations read back from an answer.

use vstd::prelude::*;
use vstd::string::*;
use crate::chains::documents::{at, find_from, formatted_document, joined, Document, DocumentFormatter};
use crate::error::RustChainError;
use crate::json::{str_member, JsonValue};
use crate::text::{
    chars_of, decimal, push_string, replace_all, replaced, string_of_chars, usize_to_string,
};

verus! {

// ---------------------------------------------------------------------------
// QAChainType
// ---------------------------------------------------------------------------

/// The strategy used by a QA chain to combine documents and produce an answer.
#[derive(Debug, Clone, Copy, PartialEq, Eq, Structural)]
pub enum QAChainType {
    /// Concatenate all documents into a single context block and answer in one pass.
    Stuff,
    /// Map each document independently, then reduce the intermediate answers.
    MapReduce,
    /// Iteratively refine the answer by processing documents one at a time.
    Refine,
}

impl Default for QAChainType {
    fn default() -> (r: Self)
        ensures
            r == QAChainType::Stuff,
    {
        QAChainType::Stuff
    }
}

/// The name a chain type is displayed with.
pub open spec fn chain_type_name(t: QAChainType) -> Seq<char> {
    match t {
        QAChainType::Stuff => "stuff"@,
        QAChainType::MapReduce => "map_reduce"@,
        QAChainType::Refine => "refine"@,
    }
}

impl QAChainType {
    /// The name this chain type is displayed with.
    pub fn to_string(&self) -> (r: String)
        ensures
            r@ == chain_type_name(*self),
    {
        match self {
            QAChainType::Stuff => String::from_str("stuff"),
            QAChainType::MapReduce => String::from_str("map_reduce"),
            QAChainType::Refine => String::from_str("refine"),
        }
    }
}

// ---------------------------------------------------------------------------
// QAConfig
// ---------------------------------------------------------------------------

/// Configuration for a QA chain, built using the builder pattern.
#[derive(Debug, Clone, Copy, PartialEq, Eq, Structural)]
pub struct QAConfig {
    /// The chain strategy to use.
    pub chain_type: QAChainType,
    /// Whether to include source documents in the result.
    pub return_source_documents: bool,
    /// Maximum number of source documents to use.
    pub max_source_docs: usize,
    /// Whether to emit verbose logging.
    pub verbose: bool,
}

/// The configuration a QA chain starts from: stuff all documents, return at
/// most 4 of them as sources, quietly.
pub open spec fn default_qa_config() -> QAConfig {
    QAConfig {
        chain_type: QAChainType::Stuff,
        return_source_documents: true,
        max_source_docs: 4,
        verbose: false,
    }
}

impl Default for QAConfig {
    fn default() -> (r: Self)
        ensures
            r == default_qa_config(),
    {
        QAConfig {
            chain_type: QAChainType::Stuff,
            return_source_documents: true,
            max_source_docs: 4,
            verbose: false,
        }
    }
}

impl QAConfig {
    /// Create a new builder for `QAConfig`, starting from the defaults.
    pub fn builder() -> (r: QAConfigBuilder)
        ensures
            r.pending() == default_qa_config(),
    {
        QAConfigBuilder::default()
    }
}

/// Builder for [`QAConfig`].
#[derive(Debug, Clone)]
pub struct QAConfigBuilder {
    chain_type: QAChainType,
    return_source_documents: bool,
    max_source_docs: usize,
    verbose: bool,
}

impl Default for QAConfigBuilder {
    fn default() -> (r: Self)
        ensures
            r.pending() == default_qa_config(),
    {
        let config = QAConfig::default();
        QAConfigBuilder {
            chain_type: config.chain_type,
            return_source_documents: config.return_source_documents,
            max_source_docs: config.max_source_docs,
            verbose: config.verbose,
        }
    }
}

impl QAConfigBuilder {
    /// The configuration this builder would build now.
    pub closed spec fn pending(&self) -> QAConfig {
        QAConfig {
            chain_type: self.chain_type,
            return_source_documents: self.return_source_documents,
            max_source_docs: self.max_source_docs,
            verbose: self.verbose,
        }
    }

    /// Set the chain type strategy.
    pub fn chain_type(self, chain_type: QAChainType) -> (r: Self)
        ensures
            r.pending() == (QAConfig { chain_type, ..self.pending() }),
    {
        QAConfigBuilder { chain_type, ..self }
    }

    /// Set whether to return source documents.
    pub fn return_source_documents(self, return_source_documents: bool) -> (r: Self)
        ensures
            r.pending() == (QAConfig { return_source_documents, ..self.pending() }),
    {
        QAConfigBuilder { return_source_documents, ..self }
    }

    /// Set the maximum number of source documents.
    pub fn max_source_docs(self, max_source_docs: usize) -> (r: Self)
        ensures
            r.pending() == (QAConfig { max_source_docs, ..self.pending() }),
    {
        QAConfigBuilder { max_source_docs, ..self }
    }

    /// Set verbose mode.
    pub fn verbose(self, verbose: bool) -> (r: Self)
        ensures
            r.pending() == (QAConfig { verbose, ..self.pending() }),
    {
        QAConfigBuilder { verbose, ..self }
    }

    /// Build the `QAConfig`.
    pub fn build(self) -> (r: QAConfig)
        ensures
            r == self.pending(),
    {
        QAConfig {
            chain_type: self.chain_type,
            return_source_documents: self.return_source_documents,
            max_source_docs: self.max_source_docs,
            verbose: self.verbose,
        }
    }
}

// ---------------------------------------------------------------------------
// QAResult
// ---------------------------------------------------------------------------

/// The result of a QA chain invocation.
#[derive(Debug)]
pub struct QAResult {
    /// The generated answer text.
    pub answer: String,
    /// The source documents used to generate the answer.
    pub source_documents: Vec<Document>,
    /// The chain type used to produce this result.
    pub chain_type: QAChainType,
}

// ---------------------------------------------------------------------------
// Citation / CitedAnswer
// ---------------------------------------------------------------------------

/// A single inline citation referencing a source document.
#[derive(Debug, Clone)]
pub struct Citation {
    /// The source identifier (e.g., file name, URL).
    pub source: String,
    /// A snippet from the document's content that supports the citation.
    pub page_content_snippet: String,
    /// The index of the cited document in the source documents list.
    pub doc_index: usize,
}

/// An answer with inline citations.
#[derive(Debug, Clone)]
pub struct CitedAnswer {
    /// The answer text (may contain inline citation markers like [1], [2]).
    pub answer: String,
    /// The extracted citations.
    pub citations: Vec<Citation>,
}

/// Whether `c` is an ASCII digit.
pub open spec fn is_digit(c: char) -> bool {
    '0' <= c <= '9'
}

/// The value of the decimal digits `t[0..n)`.
pub open spec fn digits_value(t: Seq<char>, n: nat) -> nat
    decreases n,
{
    if n == 0 || n > t.len() {
        0
    } else {
        digits_value(t, (n - 1) as nat) * 10 + ((t[n - 1] as u32) - 48) as nat
    }
}

/// `t` without one leading `+`.
pub open spec fn strip_plus(t: Seq<char>) -> Seq<char> {
    if t.len() > 0 && t[0] == '+' {
        t.skip(1)
    } else {
        t
    }
}

/// The value of `d` when it is one or more digits whose value fits in a `usize`.
pub open spec fn digits_only(d: Seq<char>) -> Option<nat> {
    if d.len() > 0 && (forall|i: int| 0 <= i < d.len() ==> is_digit(#[trigger] d[i]))
        && digits_value(d, d.len()) <= usize::MAX {
        Some(digits_value(d, d.len()))
    } else {
        None
    }
}

/// What `str::parse::<usize>` gives for `t`: an optional `+`, then one or
/// more digits whose value fits in a `usize`.
pub open spec fn parse_usize(t: Seq<char>) -> Option<nat> {
    digits_only(strip_plus(t))
}

/// The numbers written inside the `[..]` markers of `s`, in order, each
/// parsed (or not); a `[` without a closing `]` ends the scan.
pub open spec fn markers(s: Seq<char>) -> Seq<Option<nat>>
    decreases s.len(),
{
    match find_from(s, seq!['['], 0) {
        None => Seq::<Option<nat>>::empty(),
        Some(a) => {
            let after = s.skip(a + 1);
            match find_from(after, seq![']'], 0) {
                None => Seq::<Option<nat>>::empty(),
                Some(e) => if 0 <= a && 0 <= e && a + 1 + e + 1 <= s.len() {
                    seq![parse_usize(after.take(e))] + markers(after.skip(e + 1))
                } else {
                    Seq::<Option<nat>>::empty()
                },
            }
        },
    }
}

/// The cited document numbers (from 1) among the markers `ms[0..n)`: those
/// that name one of `ndocs` documents, each once, in order of first mention.
pub open spec fn cited(ms: Seq<Option<nat>>, ndocs: nat, n: nat) -> Seq<nat>
    decreases n,
{
    if n == 0 || n > ms.len() {
        Seq::<nat>::empty()
    } else {
        let prev = cited(ms, ndocs, (n - 1) as nat);
        match ms[n - 1] {
            Some(k) => if 1 <= k <= ndocs && !prev.contains(k) {
                prev.push(k)
            } else {
                prev
            },
            None => prev,
        }
    }
}

/// The numbers of the documents that `answer` cites.
pub open spec fn cited_docs(answer: Seq<char>, ndocs: nat) -> Seq<nat> {
    cited(markers(answer), ndocs, markers(answer).len())
}

/// The UTF-8 bytes of a document's text.
pub open spec fn page_bytes(doc: Document) -> Seq<u8> {
    vstd::utf8::encode_utf8(doc.page_content@)
}

/// The byte length of a document's snippet: its first 100 bytes.
pub open spec fn snippet_len(doc: Document) -> int {
    if page_bytes(doc).len() < 100 {
        page_bytes(doc).len() as int
    } else {
        100
    }
}

/// Whether the citation describes document `n` (from 1) of `docs`.
pub open spec fn citation_of(c: Citation, docs: Seq<Document>, n: nat) -> bool {
    let doc = docs[n - 1];
    &&& c.doc_index == n - 1
    &&& c.source@ == match str_member(JsonValue::Object(doc.metadata), "source"@) {
        Some(s) => s,
        None => "unknown"@,
    }
    &&& c.page_content_snippet@ == crate::text::decode_range(
        page_bytes(doc),
        0,
        snippet_len(doc),
    )
}

/// The value of the digits `v[lo..hi)`, if they are all digits and the value fits.
fn parse_digits(v: &Vec<char>, lo: usize, hi: usize) -> (r: Option<usize>)
    requires
        lo <= hi <= v@.len(),
    ensures
        r == (if (forall|i: int| lo <= i < hi ==> is_digit(#[trigger] v@[i])) && digits_value(
            v@.subrange(lo as int, hi as int),
            (hi - lo) as nat,
        ) <= usize::MAX {
            Some(digits_value(v@.subrange(lo as int, hi as int), (hi - lo) as nat) as usize)
        } else {
            None::<usize>
        }),
{
    let ghost d = v@.subrange(lo as int, hi as int);
    let mut acc: usize = 0;
    let mut i = lo;
    while i < hi
        invariant
            lo <= i <= hi <= v@.len(),
            d == v@.subrange(lo as int, hi as int),
            forall|k: int| lo <= k < i ==> is_digit(#[trigger] v@[k]),
            acc == digits_value(d, (i - lo) as nat),
        decreases hi - i,
    {
        let c = v[i];
        if !('0' <= c && c <= '9') {
            assert(!is_digit(v@[i as int]));
            return None;
        }
        let dv = (c as u32 - 48) as usize;
        assert(d[i - lo] == c);
        match acc.checked_mul(10) {
            None => {
                proof {
                    lemma_digits_value_grows(d, (i - lo + 1) as nat, (hi - lo) as nat);
                }
                return None;
            },
            Some(m) => match m.checked_add(dv) {
                None => {
                    proof {
                        lemma_digits_value_grows(d, (i - lo + 1) as nat, (hi - lo) as nat);
                    }
                    return None;
                },
                Some(next) => {
                    acc = next;
                },
            },
        }
        i = i + 1;
    }
    Some(acc)
}

/// More digits never make a smaller value.
proof fn lemma_digits_value_grows(t: Seq<char>, n: nat, m: nat)
    requires
        n <= m <= t.len(),
    ensures
        digits_value(t, n) <= digits_value(t, m),
    decreases m - n,
{
    if m > n {
        lemma_digits_value_grows(t, n, (m - 1) as nat);
    }
}

/// What `str::parse::<usize>` gives for `v[lo..hi)`.
fn parse_usize_exec(v: &Vec<char>, lo: usize, hi: usize) -> (r: Option<usize>)
    requires
        lo <= hi <= v@.len(),
    ensures
        match parse_usize(v@.subrange(lo as int, hi as int)) {
            Some(n) => r == Some(n as usize),
            None => r is None,
        },
{
    let ghost t = v@.subrange(lo as int, hi as int);
    let start = if lo < hi && v[lo] == '+' {
        lo + 1
    } else {
        lo
    };
    assert(v@.subrange(start as int, hi as int) =~= strip_plus(t));
    if start == hi {
        return None;
    }
    let r = parse_digits(v, start, hi);
    proof {
        let d = v@.subrange(start as int, hi as int);
        assert(d.len() > 0);
        assert(d == strip_plus(t));
        assert((forall|i: int| start <= i < hi ==> is_digit(#[trigger] v@[i])) <==> (forall|i: int|
            0 <= i < d.len() ==> is_digit(#[trigger] d[i]))) by {
            if forall|i: int| start <= i < hi ==> is_digit(#[trigger] v@[i]) {
                assert forall|i: int| 0 <= i < d.len() implies is_digit(#[trigger] d[i]) by {
                    assert(d[i] == v@[start + i]);
                }
            }
            if forall|i: int| 0 <= i < d.len() ==> is_digit(#[trigger] d[i]) {
                assert forall|i: int| start <= i < hi implies is_digit(#[trigger] v@[i]) by {
                    assert(d[i - start] == v@[i]);
                }
            }
        }

    }
    r
}

proof fn lemma_find_from_props(s: Seq<char>, p: Seq<char>, from: int)
    requires
        0 <= from,
    ensures
        find_from(s, p, from) matches Some(k) ==> from <= k && at(s, p, k),
        find_from(s, p, from) is None ==> forall|m: int| from <= m ==> !#[trigger] at(s, p, m),
    decreases s.len() + 1 - from,
{
    if from + p.len() > s.len() {
    } else if !at(s, p, from) {
        lemma_find_from_props(s, p, from + 1);
    }
}

/// The first place at or after `from` where `c` stands in `v`.
fn find_char(v: &Vec<char>, c: char, from: usize) -> (r: Option<usize>)
    requires
        from <= v@.len(),
    ensures
        match r {
            Some(i) => from <= i < v@.len() && find_from(v@.skip(from as int), seq![c], 0) == Some(
                i - from,
            ),
            None => find_from(v@.skip(from as int), seq![c], 0) is None,
        },
{
    let ghost s = v@.skip(from as int);
    proof {
        lemma_find_from_props(s, seq![c], 0);
    }
    let mut i = from;
    while i < v.len()
        invariant
            from <= i <= v@.len(),
            s == v@.skip(from as int),
            forall|m: int| from <= m < i ==> v@[m] != c,
            find_from(s, seq![c], 0) == find_from(s, seq![c], i - from),
        decreases v.len() - i,
    {
        assert(s.subrange(i - from, i - from + 1) =~= seq![v@[i as int]]);
        if v[i] == c {
            assert(at(s, seq![c], i - from));
            return Some(i);
        }
        assert(!at(s, seq![c], i - from)) by {
            if at(s, seq![c], i - from) {
                assert(seq![v@[i as int]][0] == seq![c][0]);
            }
        }
        i = i + 1;
    }
    None
}

impl CitedAnswer {
    /// Create a `CitedAnswer` by extracting citations from an answer that uses
    /// `[N]` markers referencing the source documents list.
    ///
    /// For each `[N]` marker found in `answer`, a citation is generated from
    /// the corresponding document (1-indexed); each document is cited once.
    /// The snippet is the first 100 bytes of the document's text.
    pub fn from_answer_and_docs(answer: &str, documents: &[Document]) -> (r: Self)
        requires
            forall|k: int|
                0 <= k < cited_docs(answer@, documents@.len()).len() ==> crate::text::cut_point(
                    page_bytes(documents@[cited_docs(answer@, documents@.len())[k] - 1]),
                    snippet_len(documents@[cited_docs(answer@, documents@.len())[k] - 1]),
                ),
        ensures
            r.answer@ == answer@,
            r.citations@.len() == cited_docs(answer@, documents@.len()).len(),
            forall|k: int|
                0 <= k < r.citations@.len() ==> citation_of(
                    #[trigger] r.citations@[k],
                    documents@,
                    cited_docs(answer@, documents@.len())[k],
                ),
    {
        let s = chars_of(answer);
        let ghost ms = markers(answer@);
        let ghost nd = documents@.len();
        let mut citations: Vec<Citation> = Vec::new();
        let ghost mut done: Seq<Option<nat>> = Seq::empty();
        let mut pos: usize = 0;
        assert(s@.skip(0) =~= s@);
        loop
            invariant
                pos <= s@.len(),
                s@ == answer@,
                ms == markers(answer@),
                nd == documents@.len(),
                done + markers(s@.skip(pos as int)) == ms,
                citations@.len() == cited(done, nd, done.len()).len(),
                forall|k: int|
                    0 <= k < citations@.len() ==> citation_of(
                        #[trigger] citations@[k],
                        documents@,
                        cited(done, nd, done.len())[k],
                    ),
                forall|k: int|
                    0 <= k < cited(done, nd, done.len()).len() ==> cited(done, nd, done.len())[k]
                        == #[trigger] cited(ms, nd, ms.len())[k],
                cited(done, nd, done.len()).len() <= cited(ms, nd, ms.len()).len(),
                forall|k: int|
                    0 <= k < cited_docs(answer@, documents@.len()).len() ==> crate::text::cut_point(
                        page_bytes(documents@[cited_docs(answer@, documents@.len())[k] - 1]),
                        snippet_len(documents@[cited_docs(answer@, documents@.len())[k] - 1]),
                    ),
            ensures
                done == ms,
                citations@.len() == cited(done, nd, done.len()).len(),
                forall|k: int|
                    0 <= k < citations@.len() ==> citation_of(
                        #[trigger] citations@[k],
                        documents@,
                        cited(done, nd, done.len())[k],
                    ),
            decreases s@.len() - pos,
        {
            let ghost rest = s@.skip(pos as int);
            let start = match find_char(&s, '[', pos) {
                None => {
                    assert(markers(rest) =~= Seq::<Option<nat>>::empty());
                    assert(done =~= ms);
                    break;
                },
                Some(a) => a,
            };
            proof {
                lemma_find_from_props(rest, seq!['['], 0);
            }
            let ghost after = rest.skip(start - pos + 1);
            assert(pos <= start);
            assert(rest.len() == s@.len() - pos);
            assert(start - pos + 1 <= rest.len());
            assert(s@.skip(start + 1) =~= after) by {
                assert forall|i: int| 0 <= i < after.len() implies after[i] == s@.skip(start + 1)[i] by {
                    assert(after[i] == rest[start - pos + 1 + i]);
                    assert(rest[start - pos + 1 + i] == s@[pos + start - pos + 1 + i]);
                }
            }
            assert(start < s.len());
            let end = match find_char(&s, ']', start + 1) {
                None => {
                    assert(markers(rest) =~= Seq::<Option<nat>>::empty());
                    assert(done =~= ms);
                    break;
                },
                Some(e) => e,
            };
            proof {
                lemma_find_from_props(after, seq![']'], 0);
            }
            let parsed = parse_usize_exec(&s, start + 1, end);
            assert(after.take(end - start - 1) =~= s@.subrange(start + 1, end as int));
            assert(after.skip(end - start - 1 + 1) =~= s@.skip(end + 1));
            let ghost m = parse_usize(after.take(end - start - 1));
            assert(markers(rest) == seq![m] + markers(s@.skip(end + 1)));
            let ghost prev = cited(done, nd, done.len());
            let ghost done2 = done.push(m);
            assert(done2.drop_last() =~= done);
            proof {
                assert(done2 + markers(s@.skip(end + 1)) =~= ms);
                lemma_cited_prefix(ms, nd, done2.len(), ms.len());
                lemma_cited_prefix_eq(done2, ms, nd, done2.len());
                lemma_cited_prefix_eq(done, ms, nd, done.len());
            }
            match parsed {
                Some(n) => {
                    if n >= 1 && n <= documents.len() && !seen_before(&citations, n - 1) {
                        assert(!prev.contains(n as nat)) by {
                            if prev.contains(n as nat) {
                                let k = choose|k: int| 0 <= k < prev.len() && prev[k] == n as nat;
                                assert(citations@[k].doc_index == n - 1);
                            }
                        }
                        let doc = &documents[n - 1];
                        let source = match JsonValue::object_str(&doc.metadata, "source") {
                            Some(x) => String::from_str(x),
                            None => String::from_str("unknown"),
                        };
                        let blen = doc.page_content.as_str().as_bytes().len();
                        let cut = if blen < 100 {
                            blen
                        } else {
                            100
                        };
                        assert(cited(done2, nd, done2.len()) == prev.push(n as nat));
                        assert(cited(ms, nd, ms.len())[prev.len() as int] == n as nat);
                        assert(cited_docs(answer@, documents@.len())[prev.len() as int] == n as nat);
                        let snippet = crate::text::byte_prefix(doc.page_content.as_str(), cut);
                        citations.push(
                            Citation {
                                source,
                                page_content_snippet: String::from_str(snippet),
                                doc_index: n - 1,
                            },
                        );
                    } else {
                        proof {
                            if 1 <= n <= nd && !prev.contains(n as nat) {
                                let k = choose|k: int|
                                    0 <= k < citations@.len() && citations@[k].doc_index == n - 1;
                                assert(prev[k] == n as nat);
                            }
                        }
                        assert(cited(done2, nd, done2.len()) == prev);
                    }
                },
                None => {
                    assert(cited(done2, nd, done2.len()) == prev);
                },
            }
            proof {
                done = done2;
            }
            assert(end < s.len());
            pos = end + 1;
        }
        CitedAnswer { answer: String::from_str(answer), citations }
    }
}

/// Whether some citation already names document `idx`.
fn seen_before(cs: &Vec<Citation>, idx: usize) -> (r: bool)
    ensures
        r == exists|k: int| 0 <= k < cs@.len() && (#[trigger] cs@[k]).doc_index == idx,
{
    let mut i: usize = 0;
    while i < cs.len()
        invariant
            i <= cs@.len(),
            forall|k: int| 0 <= k < i ==> (#[trigger] cs@[k]).doc_index != idx,
        decreases cs.len() - i,
    {
        if cs[i].doc_index == idx {
            return true;
        }
        i = i + 1;
    }
    false
}

/// Citations found in a prefix of the markers keep their places.
proof fn lemma_cited_prefix(ms: Seq<Option<nat>>, nd: nat, n: nat, m: nat)
    requires
        n <= m <= ms.len(),
    ensures
        cited(ms, nd, n).len() <= cited(ms, nd, m).len(),
        forall|k: int| 0 <= k < cited(ms, nd, n).len() ==> cited(ms, nd, n)[k] == #[trigger] cited(ms, nd, m)[k],
    decreases m - n,
{
    if m > n {
        lemma_cited_prefix(ms, nd, n, (m - 1) as nat);
    }
}

/// The citations of a prefix of the markers depend on that prefix only.
proof fn lemma_cited_prefix_eq(a: Seq<Option<nat>>, b: Seq<Option<nat>>, nd: nat, n: nat)
    requires
        n <= a.len(),
        n <= b.len(),
        forall|i: int| 0 <= i < n ==> a[i] == b[i],
    ensures
        cited(a, nd, n) == cited(b, nd, n),
    decreases n,
{
    if n > 0 {
        lemma_cited_prefix_eq(a, b, nd, (n - 1) as nat);
    }
}

impl JsonValue {
    /// The text of the string member `key` of an object's members.
    pub fn object_str<'a>(members: &'a Vec<(String, JsonValue)>, key: &str) -> (r: Option<&'a str>)
        ensures
            match r {
                Some(s) => crate::json::lookup(members@, key@) matches Some(JsonValue::Str(t))
                    && t@ == s@,
                None => !(crate::json::lookup(members@, key@) matches Some(JsonValue::Str(_))),
            },
    {
        let mut i: usize = 0;
        assert(members@.skip(0) =~= members@);
        while i < members.len()
            invariant
                i <= members@.len(),
                crate::json::lookup(members@, key@) == crate::json::lookup(
                    members@.skip(i as int),
                    key@,
                ),
            decreases members.len() - i,
        {
            assert(members@.skip(i as int).drop_first() =~= members@.skip(i + 1));
            assert(members@.skip(i as int)[0] == members@[i as int]);
            if crate::text::str_eq(members[i].0.as_str(), key) {
                return match &members[i].1 {
                    JsonValue::Str(s) => Some(s.as_str()),
                    _ => None,
                };
            }
            i = i + 1;
        }
        None
    }
}

// ---------------------------------------------------------------------------
// QAChain
// ---------------------------------------------------------------------------

/// The default template for each document in the context.
pub open spec fn default_document_prompt() -> Seq<char> {
    "Document {doc_index}:\n{page_content}"@
}

/// The default template for the question prompt.
pub open spec fn default_qa_prompt() -> Seq<char> {
    "Use the following documents to answer the question. If you cannot find the answer in the documents, say so.\n\n{context}\n\nQuestion: {question}\n\nAnswer:"@
}

/// A QA chain that formats documents and a question into an answer.
///
/// This chain does not call an LLM: it formats the prompt that would be sent
/// to one, making it composable and testable.
pub struct QAChain {
    /// Configuration for the chain.
    pub config: QAConfig,
    /// Template for formatting each individual document.
    /// Supports `{page_content}`, `{metadata.KEY}`, and `{doc_index}` placeholders.
    pub document_prompt: String,
    /// Template for the final QA prompt.
    /// Supports `{context}` and `{question}` placeholders.
    pub qa_prompt: String,
}

/// Document `i` (from 0) of the context.
pub open spec fn context_entry(chain: QAChain, doc: Document, i: nat) -> Seq<char> {
    replaced(formatted_document(doc, chain.document_prompt@), "{doc_index}"@, decimal(i + 1))
}

/// How many documents a chain uses out of `n`.
pub open spec fn used_count(chain: QAChain, n: nat) -> nat {
    if chain.config.max_source_docs < n {
        chain.config.max_source_docs as nat
    } else {
        n
    }
}

/// The context block built from the documents a chain uses.
pub open spec fn context_of(chain: QAChain, docs: Seq<Document>) -> Seq<char> {
    let n = used_count(chain, docs.len());
    joined(Seq::new(n, |i: int| context_entry(chain, docs[i], i as nat)), "\n\n"@, n)
}

/// The question prompt for a context and a question.
pub open spec fn qa_prompt_text(chain: QAChain, context: Seq<char>, question: Seq<char>) -> Seq<char> {
    replaced(replaced(chain.qa_prompt@, "{context}"@, context), "{question}"@, question)
}

impl QAChain {
    /// Create a new `QAChain` with the given config and default prompt templates.
    pub fn new(config: QAConfig) -> (r: Self)
        ensures
            r.config == config,
            r.document_prompt@ == default_document_prompt(),
            r.qa_prompt@ == default_qa_prompt(),
    {
        QAChain {
            config,
            document_prompt: String::from_str("Document {doc_index}:\n{page_content}"),
            qa_prompt: String::from_str(
                "Use the following documents to answer the question. If you cannot find the answer in the documents, say so.\n\n{context}\n\nQuestion: {question}\n\nAnswer:",
            ),
        }
    }

    /// Set a custom document prompt template.
    pub fn with_document_prompt(self, prompt: &str) -> (r: Self)
        ensures
            r.config == self.config,
            r.document_prompt@ == prompt@,
            r.qa_prompt == self.qa_prompt,
    {
        QAChain { document_prompt: String::from_str(prompt), ..self }
    }

    /// Set a custom QA prompt template.
    pub fn with_qa_prompt(self, prompt: &str) -> (r: Self)
        ensures
            r.config == self.config,
            r.document_prompt == self.document_prompt,
            r.qa_prompt@ == prompt@,
    {
        QAChain { qa_prompt: String::from_str(prompt), ..self }
    }

    /// Format a single document using the document prompt template.
    pub fn format_document(&self, doc: &Document, index: usize) -> (r: String)
        requires
            index < usize::MAX,
        ensures
            r@ == context_entry(*self, *doc, index as nat),
    {
        let formatted = DocumentFormatter::format_document(doc, self.document_prompt.as_str());
        let num = usize_to_string(index + 1);
        proof {
            reveal_strlit("{doc_index}");
        }
        replace_all(formatted.as_str(), "{doc_index}", num.as_str())
    }

    /// Format the documents the chain uses into a single context string.
    pub fn format_documents(&self, documents: &[Document]) -> (r: String)
        ensures
            r@ == context_of(*self, documents@),
    {
        let max_docs = if self.config.max_source_docs < documents.len() {
            self.config.max_source_docs
        } else {
            documents.len()
        };
        let ghost parts = Seq::new(
            max_docs as nat,
            |i: int| context_entry(*self, documents@[i], i as nat),
        );
        let mut out = String::new();
        let mut i: usize = 0;
        while i < max_docs
            invariant
                i <= max_docs <= documents@.len(),
                parts == Seq::new(
                    max_docs as nat,
                    |i: int| context_entry(*self, documents@[i], i as nat),
                ),
                out@ == joined(parts, "\n\n"@, i as nat),
            decreases max_docs - i,
        {
            if i > 0 {
                out.append("\n\n");
            }
            let f = self.format_document(&documents[i], i);
            push_string(&mut out, &f);
            i = i + 1;
            assert(out@ =~= joined(parts, "\n\n"@, i as nat));
        }
        out
    }

    /// Format the full QA prompt with context and question.
    pub fn format_qa_prompt(&self, context: &str, question: &str) -> (r: String)
        ensures
            r@ == qa_prompt_text(*self, context@, question@),
    {
        proof {
            reveal_strlit("{context}");
            reveal_strlit("{question}");
        }
        let with_context = replace_all(self.qa_prompt.as_str(), "{context}", context);
        replace_all(with_context.as_str(), "{question}", question)
    }

    /// Format documents and a question into a QA result.
    ///
    /// The `answer` field contains the formatted prompt (suitable for sending to
    /// an LLM). The documents beyond the configured maximum are dropped; the
    /// rest are returned as sources when the configuration asks for them.
    pub fn answer(&self, question: &str, documents: Vec<Document>) -> (r: Result<QAResult, RustChainError>)
        ensures
            question@.len() == 0 ==> (r matches Err(RustChainError::Other(m)) && m@
                == "Question must not be empty"@),
            question@.len() > 0 ==> (r matches Ok(res) && {
                &&& res.answer@ == qa_prompt_text(*self, context_of(*self, documents@), question@)
                &&& res.chain_type == self.config.chain_type
                &&& res.source_documents@ == if self.config.return_source_documents {
                    documents@.subrange(0, used_count(*self, documents@.len()) as int)
                } else {
                    Seq::<Document>::empty()
                }
            }),
    {
        if question.unicode_len() == 0 {
            return Err(RustChainError::Other(String::from_str("Question must not be empty")));
        }
        let context = self.format_documents(documents.as_slice());
        let answer = self.format_qa_prompt(context.as_str(), question);
        let max_docs = if self.config.max_source_docs < documents.len() {
            self.config.max_source_docs
        } else {
            documents.len()
        };
        let mut used = documents;
        used.truncate(max_docs);
        let source_documents = if self.config.return_source_documents {
            used
        } else {
            Vec::new()
        };
        Ok(QAResult { answer, source_documents, chain_type: self.config.chain_type })
    }

    /// Answer a question given pre-formatted context text.
    ///
    /// Returns the formatted prompt string.
    pub fn answer_with_context(&self, question: &str, context: &str) -> (r: Result<String, RustChainError>)
        ensures
            question@.len() == 0 ==> (r matches Err(RustChainError::Other(m)) && m@
                == "Question must not be empty"@),
            question@.len() > 0 ==> (r matches Ok(p) && p@ == qa_prompt_text(*self, context@, question@)),
    {
        if question.unicode_len() == 0 {
            return Err(RustChainError::Other(String::from_str("Question must not be empty")));
        }
        Ok(self.format_qa_prompt(context, question))
    }

    /// Extract citations from a generated answer that uses `[N]` markers.
    pub fn extract_citations(&self, answer: &str, documents: &[Document]) -> (r: CitedAnswer)
        requires
            forall|k: int|
                0 <= k < cited_docs(answer@, documents@.len()).len() ==> crate::text::cut_point(
                    page_bytes(documents@[cited_docs(answer@, documents@.len())[k] - 1]),
                    snippet_len(documents@[cited_docs(answer@, documents@.len())[k] - 1]),
                ),
        ensures
            r.answer@ == answer@,
            r.citations@.len() == cited_docs(answer@, documents@.len()).len(),
            forall|k: int|
                0 <= k < r.citations@.len() ==> citation_of(
                    #[trigger] r.citations@[k],
                    documents@,
                    cited_docs(answer@, documents@.len())[k],
                ),
    {
        CitedAnswer::from_answer_and_docs(answer, documents)
    }
}

/// Create a QA chain with the given configuration and default prompt templates.
pub fn create_qa_chain(config: QAConfig) -> (r: QAChain)
    ensures
        r.config == config,
        r.document_prompt@ == default_document_prompt(),
        r.qa_prompt@ == default_qa_prompt(),
{
    QAChain::new(config)
}

} // verus!
