//! PII middleware — detect and redact personally identifiable information in
//! agent messages.

use vstd::prelude::*;
use vstd::string::*;

use crate::agents::middleware::redaction::{
    apply_rules_spec, builtin_for, builtin_spans, builtin_type, card_spans, email_spans,
    get_builtin_detector, ip_spans, mac_spans, all_url_spans, matches_are, rules_ok, BuiltinDetector,
    replacement_text, spliced, spaced, pieces_of, lemma_apply_spaced, some_block,
    PIIDetectionError, PIIDetector, PIIMatch, RedactionStrategy, ResolvedRedactionRule,
};
use crate::messages::{last_position, copy_messages, same_message, same_messages, last_of_type, Message, MessageType};
use crate::text::{byte_slice, cut_point, decode_range, str_eq};

verus! {

/// Middleware that detects and redacts PII in messages.
pub struct PIIMiddleware {
    /// The PII type to detect (e.g., "email", "credit_card", "ip", "mac_address", "url").
    /// If `None`, all built-in detectors are applied.
    pub pii_type: Option<String>,
    /// The redaction strategy to apply when PII is detected.
    pub strategy: RedactionStrategy,
    /// Whether to apply PII detection to user input (before model).
    pub apply_to_input: bool,
    /// Whether to apply PII detection to model output (after model).
    pub apply_to_output: bool,
    /// Whether to apply PII detection to tool results.
    pub apply_to_tool_results: bool,
    /// Optional custom detector. When set, this detector is used instead of built-in ones.
    pub detector: Option<Box<dyn PIIDetector>>,
}

/// Byte ranges tagged with the type they are reported as.
pub open spec fn tagged(spans: Seq<(int, int)>, ty: Seq<char>) -> Seq<(int, int, Seq<char>)> {
    Seq::new(spans.len(), |k: int| (spans[k].0, spans[k].1, ty))
}

/// What all built-in detectors report, in registry order.
pub open spec fn all_tagged(b: Seq<u8>) -> Seq<(int, int, Seq<char>)> {
    tagged(email_spans(b, 0), "email"@) + tagged(card_spans(b, 0), "credit_card"@) + tagged(
        ip_spans(b, 0),
        "ip"@,
    ) + tagged(mac_spans(b, 0), "mac_address"@) + tagged(all_url_spans(b), "url"@)
}

/// The matches describe exactly the tagged ranges, in order.
pub open spec fn matches_tagged(b: Seq<u8>, ms: Seq<PIIMatch>, t: Seq<(int, int, Seq<char>)>) -> bool {
    &&& ms.len() == t.len()
    &&& forall|k: int|
        0 <= k < ms.len() ==> {
            &&& (#[trigger] ms[k]).start == t[k].0
            &&& ms[k].end == t[k].1
            &&& ms[k].pii_type@ == t[k].2
            &&& ms[k].value@ == decode_range(b, t[k].0, t[k].1)
        }
}

/// Position at which `x` goes into a list sorted by ascending start: after
/// every element whose start is at most its own.
pub open spec fn insert_pos_asc(s: Seq<PIIMatch>, x: PIIMatch) -> int
    decreases s.len(),
{
    if s.len() == 0 {
        0
    } else if s[0].start > x.start {
        0
    } else {
        1 + insert_pos_asc(s.drop_first(), x)
    }
}

/// `s` sorted by ascending start, equal starts kept in their original order.
pub open spec fn sorted_by_start_asc(s: Seq<PIIMatch>) -> Seq<PIIMatch>
    decreases s.len(),
{
    if s.len() == 0 {
        seq![]
    } else {
        let t = sorted_by_start_asc(s.drop_last());
        t.insert(insert_pos_asc(t, s.last()), s.last())
    }
}

pub proof fn lemma_insert_pos_asc(s: Seq<PIIMatch>, x: PIIMatch)
    ensures
        0 <= insert_pos_asc(s, x) <= s.len(),
    decreases s.len(),
{
    if s.len() > 0 && s[0].start <= x.start {
        lemma_insert_pos_asc(s.drop_first(), x);
    }
}

pub proof fn lemma_sorted_asc_len(s: Seq<PIIMatch>)
    ensures
        sorted_by_start_asc(s).len() == s.len(),
    decreases s.len(),
{
    if s.len() > 0 {
        lemma_sorted_asc_len(s.drop_last());
        lemma_insert_pos_asc(sorted_by_start_asc(s.drop_last()), s.last());
    }
}

fn find_insert_pos_asc(v: &Vec<PIIMatch>, x: &PIIMatch) -> (k: usize)
    ensures
        k == insert_pos_asc(v@, *x),
{
    let mut k: usize = 0;
    assert(v@.subrange(0, v@.len() as int) =~= v@);
    while k < v.len() && v[k].start <= x.start
        invariant
            k <= v@.len(),
            insert_pos_asc(v@, *x) == k + insert_pos_asc(v@.subrange(k as int, v@.len() as int), *x),
        decreases v.len() - k,
    {
        assert(v@.subrange(k as int, v@.len() as int).drop_first() =~= v@.subrange(
            k + 1,
            v@.len() as int,
        ));
        k = k + 1;
    }
    k
}

/// Sorts matches by ascending start, keeping equal starts in order.
pub fn sort_matches_by_start(ms: Vec<PIIMatch>) -> (out: Vec<PIIMatch>)
    ensures
        out@ == sorted_by_start_asc(ms@),
{
    let mut ms = ms;
    let ghost all = ms@;
    let mut out: Vec<PIIMatch> = Vec::new();
    let mut taken: usize = 0;
    assert(all.subrange(0, 0) =~= seq![]);
    assert(all.len() == ms.len());
    assert(all.subrange(0, all.len() as int) =~= all);
    while ms.len() > 0
        invariant
            all.len() <= usize::MAX,
            taken + ms@.len() == all.len(),
            ms@ == all.subrange(taken as int, all.len() as int),
            out@ == sorted_by_start_asc(all.subrange(0, taken as int)),
        decreases ms.len(),
    {
        let x = ms.remove(0);
        proof {
            assert(all.subrange(0, taken + 1).drop_last() =~= all.subrange(0, taken as int));
            assert(all.subrange(0, taken + 1).last() == x);
            lemma_sorted_asc_len(all.subrange(0, taken as int));
        }
        let k = find_insert_pos_asc(&out, &x);
        proof {
            lemma_insert_pos_asc(out@, x);
        }
        out.insert(k, x);
        taken = taken + 1;
        assert(ms@ =~= all.subrange(taken as int, all.len() as int));
    }
    assert(all.subrange(0, all.len() as int) =~= all);
    out
}

/// A match as plain values: byte start, byte end, type and matched text.
pub open spec fn span_of(m: PIIMatch) -> (int, int, Seq<char>, Seq<char>) {
    (m.start as int, m.end as int, m.pii_type@, m.value@)
}

/// The matches as plain values, in the same order.
pub open spec fn spans_of(ms: Seq<PIIMatch>) -> Seq<(int, int, Seq<char>, Seq<char>)> {
    ms.map_values(|m: PIIMatch| span_of(m))
}

/// Every match's range is ordered and lies on character boundaries of `b`.
pub open spec fn spans_ok(b: Seq<u8>, ms: Seq<PIIMatch>) -> bool {
    forall|k: int|
        0 <= k < ms.len() ==> {
            &&& (#[trigger] ms[k]).start <= ms[k].end
            &&& cut_point(b, ms[k].start as int)
            &&& cut_point(b, ms[k].end as int)
        }
}

/// Spans listed by ascending start.
pub open spec fn ascending(s: Seq<(int, int, Seq<char>, Seq<char>)>) -> bool {
    forall|i: int, j: int| 0 <= i < j < s.len() ==> (#[trigger] s[i]).0 <= (#[trigger] s[j]).0
}

/// Whether span `x`, which starts no earlier than group `g`, belongs to it:
/// it starts inside `g`, or where `g` starts.
pub open spec fn joins(g: (int, int, Seq<char>, Seq<char>), x: (int, int, Seq<char>, Seq<char>)) -> bool {
    x.0 < g.1 || x.0 == g.0
}

/// Group `g` widened to take in `x`: its type kept, its text read again from
/// the bytes `b` when it grows.
pub open spec fn joined(
    b: Seq<u8>,
    g: (int, int, Seq<char>, Seq<char>),
    x: (int, int, Seq<char>, Seq<char>),
) -> (int, int, Seq<char>, Seq<char>) {
    if x.1 <= g.1 {
        g
    } else {
        (g.0, x.1, g.2, decode_range(b, g.0, x.1))
    }
}

/// Spans sorted by start, grouped left to right: a span that overlaps the
/// group before it, or starts where that group starts, widens the group;
/// any other span starts a new group.
pub open spec fn merged_spans(b: Seq<u8>, s: Seq<(int, int, Seq<char>, Seq<char>)>) -> Seq<
    (int, int, Seq<char>, Seq<char>),
>
    decreases s.len(),
{
    if s.len() == 0 {
        seq![]
    } else {
        let p = merged_spans(b, s.drop_last());
        let x = s.last();
        if p.len() > 0 && joins(p.last(), x) {
            p.update(p.len() - 1, joined(b, p.last(), x))
        } else {
            p.push(x)
        }
    }
}

/// The groups as the pieces that rewrite them, listed right to left.
pub open spec fn group_pieces(gs: Seq<(int, int, Seq<char>, Seq<char>)>, strategy: RedactionStrategy) -> Seq<
    (int, int, Seq<char>),
> {
    Seq::new(
        gs.len(),
        |k: int|
            (
                gs[gs.len() - 1 - k].0,
                gs[gs.len() - 1 - k].1,
                replacement_text(gs[gs.len() - 1 - k].2, gs[gs.len() - 1 - k].3, strategy),
            ),
    )
}

/// The groups that redaction rewrites for the matches found.
pub open spec fn redaction_groups(b: Seq<u8>, ms: Seq<PIIMatch>) -> Seq<(int, int, Seq<char>, Seq<char>)> {
    merged_spans(b, spans_of(sorted_by_start_asc(ms)))
}

/// The text that redaction leaves, given the matches found: unchanged when
/// nothing was found; empty when blocking, or when a match's range is out of
/// order or cuts a character apart; otherwise overlapping matches are merged
/// into groups that do not overlap, and each group's range is replaced by its
/// redaction, every character outside the groups kept in order.
pub open spec fn redact_outcome(
    strategy: RedactionStrategy,
    text: Seq<char>,
    ms: Seq<PIIMatch>,
) -> Seq<char> {
    let b = vstd::utf8::encode_utf8(text);
    if ms.len() == 0 {
        text
    } else if strategy == RedactionStrategy::Block {
        seq![]
    } else if !spans_ok(b, ms) {
        seq![]
    } else {
        spliced(b, group_pieces(redaction_groups(b, ms), strategy), b.len() as int)
    }
}

/// Merging spans sorted by start gives groups that lie on the same character
/// boundaries, follow one another without overlapping, and together cover
/// every span: each span lies inside one group.
pub proof fn law_merged_groups(b: Seq<u8>, s: Seq<(int, int, Seq<char>, Seq<char>)>)
    requires
        ascending(s),
        forall|k: int|
            0 <= k < s.len() ==> {
                &&& (#[trigger] s[k]).0 <= s[k].1
                &&& cut_point(b, s[k].0)
                &&& cut_point(b, s[k].1)
            },
    ensures
        ({
            let g = merged_spans(b, s);
            &&& g.len() <= s.len()
            &&& s.len() > 0 ==> g.len() > 0 && g.last().0 <= s.last().0
            &&& forall|k: int|
                0 <= k < g.len() ==> {
                    &&& (#[trigger] g[k]).0 <= g[k].1
                    &&& cut_point(b, g[k].0)
                    &&& cut_point(b, g[k].1)
                }
            &&& forall|i: int, j: int|
                0 <= i < j < g.len() ==> (#[trigger] g[i]).1 <= (#[trigger] g[j]).0 && g[i].0 < g[j].0
            &&& forall|i: int|
                0 <= i < s.len() ==> exists|k: int|
                    0 <= k < g.len() && (#[trigger] g[k]).0 <= (#[trigger] s[i]).0 && s[i].1 <= g[k].1
        }),
    decreases s.len(),
{
    if s.len() > 0 {
        let d = s.drop_last();
        let x = s.last();
        assert forall|i: int, j: int| 0 <= i < j < d.len() implies (#[trigger] d[i]).0 <= (#[trigger] d[j]).0 by {
            assert(d[i] == s[i] && d[j] == s[j]);
        }
        assert forall|k: int| 0 <= k < d.len() implies {
            &&& (#[trigger] d[k]).0 <= d[k].1
            &&& cut_point(b, d[k].0)
            &&& cut_point(b, d[k].1)
        } by {
            assert(d[k] == s[k]);
        }
        law_merged_groups(b, d);
        let p = merged_spans(b, d);
        let g = merged_spans(b, s);
        let n = p.len() as int;
        assert(s.len() - 1 < s.len());
        assert(x == s[s.len() - 1]);
        assert(cut_point(b, x.0) && cut_point(b, x.1) && x.0 <= x.1);
        if n > 0 {
            assert(d.len() > 0);
            assert(d.last() == s[d.len() - 1]);
            assert(s[d.len() - 1].0 <= x.0);
        }
        if n > 0 && joins(p.last(), x) {
            let last = p[n - 1];
            let w = joined(b, last, x);
            assert(g == p.update(n - 1, w));
            assert forall|i: int, j: int| 0 <= i < j < g.len() implies (#[trigger] g[i]).1 <= (
            #[trigger] g[j]).0 && g[i].0 < g[j].0 by {
                assert(g[i] == p[i]);
                if j < n - 1 {
                    assert(g[j] == p[j]);
                } else {
                    assert(p[i].1 <= p[n - 1].0 && p[i].0 < p[n - 1].0);
                }
            }
            assert forall|i: int| 0 <= i < s.len() implies exists|k: int|
                0 <= k < g.len() && (#[trigger] g[k]).0 <= (#[trigger] s[i]).0 && s[i].1 <= g[k].1 by {
                if i < d.len() {
                    assert(d[i] == s[i]);
                    let k = choose|k: int| 0 <= k < p.len() && (#[trigger] p[k]).0 <= (#[trigger] d[i]).0
                        && d[i].1 <= p[k].1;
                    if k < n - 1 {
                        assert(g[k] == p[k]);
                    } else {
                        assert(g[n - 1] == w);
                    }
                } else {
                    assert(g[n - 1] == w);
                }
            }
        } else {
            assert(g == p.push(x));
            assert forall|i: int, j: int| 0 <= i < j < g.len() implies (#[trigger] g[i]).1 <= (
            #[trigger] g[j]).0 && g[i].0 < g[j].0 by {
                assert(g[i] == p[i]);
                if j < n {
                    assert(g[j] == p[j]);
                } else {
                    assert(p[n - 1].1 <= x.0 && p[n - 1].0 != x.0);
                    if i < n - 1 {
                        assert(p[i].1 <= p[n - 1].0 && p[i].0 < p[n - 1].0);
                    }
                }
            }
            assert forall|i: int| 0 <= i < s.len() implies exists|k: int|
                0 <= k < g.len() && (#[trigger] g[k]).0 <= (#[trigger] s[i]).0 && s[i].1 <= g[k].1 by {
                if i < d.len() {
                    assert(d[i] == s[i]);
                    let k = choose|k: int| 0 <= k < p.len() && (#[trigger] p[k]).0 <= (#[trigger] d[i]).0
                        && d[i].1 <= p[k].1;
                    assert(g[k] == p[k]);
                } else {
                    assert(g[n] == x);
                }
            }
        }
    }
}

fn is_cut_point(bytes: &[u8], k: usize) -> (r: bool)
    ensures
        r == cut_point(bytes@, k as int),
{
    k <= bytes.len() && (k == bytes.len() || !(0x80 <= bytes[k] && bytes[k] <= 0xbf))
}

fn try_apply_in_order(text: &str, rules: Vec<ResolvedRedactionRule>) -> (r: Option<
    Result<String, PIIDetectionError>,
>)
    ensures
        r is None <==> !rules_ok(text@, rules@),
        r matches Some(o) ==> crate::agents::middleware::redaction::outcome_is(
            o,
            apply_rules_spec(text@, rules@),
        ),
{
    let ghost all = rules@;
    let mut result = String::from_str(text);
    let mut k: usize = 0;
    assert(all.subrange(0, all.len() as int) =~= all);
    while k < rules.len()
        invariant
            rules@ == all,
            k <= all.len(),
            rules_ok(text@, all) == rules_ok(result@, all.subrange(k as int, all.len() as int)),
            apply_rules_spec(text@, all) == apply_rules_spec(
                result@,
                all.subrange(k as int, all.len() as int),
            ),
        decreases rules.len() - k,
    {
        let ghost rest = all.subrange(k as int, all.len() as int);
        assert(rest.drop_first() =~= all.subrange(k + 1, all.len() as int));
        assert(rest[0] == rules@[k as int]);
        let ok = {
            let bytes = result.as_str().as_bytes();
            rules[k].strategy == RedactionStrategy::Block || (is_cut_point(
                bytes,
                rules[k].pii_match.start,
            ) && is_cut_point(bytes, rules[k].pii_match.end))
        };
        if !ok {
            return None;
        }
        let step = crate::agents::middleware::redaction::apply_strategy(
            result.as_str(),
            &rules[k].pii_match,
            &rules[k].strategy,
        );
        match step {
            Ok(t) => {
                result = t;
            },
            Err(e) => {
                return Some(Err(e));
            },
        }
        k = k + 1;
    }
    assert(all.subrange(k as int, all.len() as int) =~= seq![]);
    Some(Ok(result))
}

/// Whether every match's range is ordered and lies on character boundaries
/// of the text.
fn spans_in_text(text: &str, ms: &Vec<PIIMatch>) -> (r: bool)
    ensures
        r == spans_ok(text.spec_bytes(), ms@),
{
    let bytes = text.as_bytes();
    let mut i: usize = 0;
    while i < ms.len()
        invariant
            i <= ms.len(),
            bytes@ == text.spec_bytes(),
            forall|k: int|
                0 <= k < i ==> {
                    &&& (#[trigger] ms@[k]).start <= ms@[k].end
                    &&& cut_point(text.spec_bytes(), ms@[k].start as int)
                    &&& cut_point(text.spec_bytes(), ms@[k].end as int)
                },
        decreases ms.len() - i,
    {
        let m = &ms[i];
        if !(m.start <= m.end && is_cut_point(bytes, m.start) && is_cut_point(bytes, m.end)) {
            return false;
        }
        i = i + 1;
    }
    true
}

proof fn lemma_insert_pos_asc_place(t: Seq<PIIMatch>, x: PIIMatch)
    ensures
        forall|k: int| 0 <= k < insert_pos_asc(t, x) ==> (#[trigger] t[k]).start <= x.start,
        insert_pos_asc(t, x) < t.len() ==> t[insert_pos_asc(t, x)].start > x.start,
    decreases t.len(),
{
    lemma_insert_pos_asc(t, x);
    if t.len() > 0 && t[0].start <= x.start {
        lemma_insert_pos_asc_place(t.drop_first(), x);
        lemma_insert_pos_asc(t.drop_first(), x);
        assert forall|k: int| 0 <= k < insert_pos_asc(t, x) implies (#[trigger] t[k]).start <= x.start by {
            if k > 0 {
                assert(t[k] == t.drop_first()[k - 1]);
            }
        }
        if insert_pos_asc(t, x) < t.len() {
            assert(t[insert_pos_asc(t, x)] == t.drop_first()[insert_pos_asc(t.drop_first(), x)]);
        }
    }
}

/// Sorting by start keeps the matches, with their multiplicities, and lists
/// them by ascending start.
pub proof fn lemma_sorted_asc(s: Seq<PIIMatch>)
    ensures
        sorted_by_start_asc(s).to_multiset() == s.to_multiset(),
        forall|i: int, j: int|
            0 <= i < j < sorted_by_start_asc(s).len() ==> (#[trigger] sorted_by_start_asc(s)[i]).start
                <= (#[trigger] sorted_by_start_asc(s)[j]).start,
    decreases s.len(),
{
    if s.len() == 0 {
        assert(sorted_by_start_asc(s) =~= s);
    } else {
        let d = s.drop_last();
        let x = s.last();
        let t = sorted_by_start_asc(d);
        lemma_sorted_asc(d);
        lemma_sorted_asc_len(d);
        lemma_insert_pos_asc(t, x);
        lemma_insert_pos_asc_place(t, x);
        let p = insert_pos_asc(t, x);
        let u = t.insert(p, x);
        assert(u == sorted_by_start_asc(s));
        assert(s =~= d.push(x));
        vstd::seq_lib::to_multiset_build(d, x);
        vstd::seq_lib::to_multiset_insert(t, p, x);
        assert forall|i: int, j: int| 0 <= i < j < u.len() implies (#[trigger] u[i]).start <= (
        #[trigger] u[j]).start by {
            if j < p {
                assert(u[i] == t[i] && u[j] == t[j]);
            } else if j == p {
                assert(u[j] == x && u[i] == t[i]);
            } else if i < p {
                assert(u[i] == t[i] && u[j] == t[j - 1]);
            } else if i == p {
                assert(u[i] == x && u[j] == t[j - 1]);
                if j - 1 > p {
                    assert(t[p].start <= t[j - 1].start);
                }
            } else {
                assert(u[i] == t[i - 1] && u[j] == t[j - 1]);
            }
        }
    }
}

/// Sorted matches whose ranges are all fine give spans sorted by start and
/// fine in the same way.
proof fn lemma_sorted_spans_ok(b: Seq<u8>, ms: Seq<PIIMatch>)
    requires
        spans_ok(b, ms),
    ensures
        spans_ok(b, sorted_by_start_asc(ms)),
        ascending(spans_of(sorted_by_start_asc(ms))),
        forall|k: int|
            0 <= k < spans_of(sorted_by_start_asc(ms)).len() ==> {
                &&& (#[trigger] spans_of(sorted_by_start_asc(ms))[k]).0 <= spans_of(
                    sorted_by_start_asc(ms),
                )[k].1
                &&& cut_point(b, spans_of(sorted_by_start_asc(ms))[k].0)
                &&& cut_point(b, spans_of(sorted_by_start_asc(ms))[k].1)
            },
{
    broadcast use vstd::seq_lib::to_multiset_contains;

    let t = sorted_by_start_asc(ms);
    lemma_sorted_asc(ms);
    assert forall|k: int| 0 <= k < t.len() implies {
        &&& (#[trigger] t[k]).start <= t[k].end
        &&& cut_point(b, t[k].start as int)
        &&& cut_point(b, t[k].end as int)
    } by {
        assert(t.contains(t[k]));
        assert(ms.to_multiset().count(t[k]) > 0);
        let a = choose|a: int| 0 <= a < ms.len() && ms[a] == t[k];
        assert(ms[a] == t[k]);
    }
    let sp = spans_of(t);
    assert forall|i: int, j: int| 0 <= i < j < sp.len() implies (#[trigger] sp[i]).0 <= (#[trigger] sp[j]).0 by {
        assert(t[i].start <= t[j].start);
    }
}

/// The groups that redaction rewrites lie on character boundaries, do not
/// overlap, and together take in every match found: each match lies inside
/// one group, so none of its characters is left in the redacted text.
pub proof fn law_redaction_groups(b: Seq<u8>, ms: Seq<PIIMatch>)
    requires
        spans_ok(b, ms),
    ensures
        ({
            let g = redaction_groups(b, ms);
            &&& forall|k: int|
                0 <= k < g.len() ==> {
                    &&& (#[trigger] g[k]).0 <= g[k].1
                    &&& cut_point(b, g[k].0)
                    &&& cut_point(b, g[k].1)
                }
            &&& forall|i: int, j: int| 0 <= i < j < g.len() ==> (#[trigger] g[i]).1 <= (#[trigger] g[j]).0
            &&& forall|i: int|
                0 <= i < ms.len() ==> exists|k: int|
                    0 <= k < g.len() && (#[trigger] g[k]).0 <= (#[trigger] ms[i]).start && ms[i].end
                        <= g[k].1
        }),
{
    broadcast use vstd::seq_lib::to_multiset_contains;

    let t = sorted_by_start_asc(ms);
    let sp = spans_of(t);
    lemma_sorted_spans_ok(b, ms);
    lemma_sorted_asc(ms);
    law_merged_groups(b, sp);
    let g = redaction_groups(b, ms);
    assert forall|i: int| 0 <= i < ms.len() implies exists|k: int|
        0 <= k < g.len() && (#[trigger] g[k]).0 <= (#[trigger] ms[i]).start && ms[i].end <= g[k].1 by {
        assert(ms.contains(ms[i]));
        assert(t.to_multiset().count(ms[i]) > 0);
        let a = choose|a: int| 0 <= a < t.len() && t[a] == ms[i];
        assert(sp[a] == span_of(ms[i]));
        let k = choose|k: int| 0 <= k < g.len() && (#[trigger] g[k]).0 <= (#[trigger] sp[a]).0 && sp[a].1
            <= g[k].1;
    }
}

/// Merges overlapping matches, sorted by start, into groups.
fn merge_overlaps(text: &str, sorted: Vec<PIIMatch>) -> (out: Vec<PIIMatch>)
    requires
        spans_ok(text.spec_bytes(), sorted@),
        ascending(spans_of(sorted@)),
    ensures
        spans_of(out@) == merged_spans(text.spec_bytes(), spans_of(sorted@)),
{
    let ghost b = text.spec_bytes();
    let ghost all = sorted@;
    let ghost sa = spans_of(all);
    let mut rest = sorted;
    assert(all.len() == rest.len());
    let mut out: Vec<PIIMatch> = Vec::new();
    let mut taken: usize = 0;
    assert(sa.subrange(0, 0) =~= seq![]);
    assert(all.subrange(0, all.len() as int) =~= all);
    while rest.len() > 0
        invariant
            b == text.spec_bytes(),
            all.len() <= usize::MAX,
            sa == spans_of(all),
            spans_ok(b, all),
            ascending(sa),
            taken + rest@.len() == all.len(),
            rest@ == all.subrange(taken as int, all.len() as int),
            spans_of(out@) == merged_spans(b, sa.subrange(0, taken as int)),
        decreases rest.len(),
    {
        let x = rest.remove(0);
        let ghost pre = sa.subrange(0, taken as int);
        let ghost cur = sa.subrange(0, taken + 1);
        proof {
            assert(x == all[taken as int]);
            assert(cur.drop_last() =~= pre);
            assert(cur.last() == span_of(x));
            assert forall|k: int| 0 <= k < pre.len() implies {
                &&& (#[trigger] pre[k]).0 <= pre[k].1
                &&& cut_point(b, pre[k].0)
                &&& cut_point(b, pre[k].1)
            } by {
                assert(pre[k] == span_of(all[k]));
            }
            assert forall|i: int, j: int| 0 <= i < j < pre.len() implies (#[trigger] pre[i]).0 <= (
            #[trigger] pre[j]).0 by {
                assert(pre[i] == sa[i] && pre[j] == sa[j]);
            }
            law_merged_groups(b, pre);
            if taken > 0 {
                assert(pre.last() == sa[taken - 1]);
                assert(sa[taken - 1].0 <= sa[taken as int].0);
            }
        }
        let n = out.len();
        if n > 0 && (x.start < out[n - 1].end || x.start == out[n - 1].start) {
            if x.end > out[n - 1].end {
                proof {
                    assert(spans_of(out@)[n - 1] == span_of(out@[n - 1]));
                }
                let ghost before = out@;
                let g = out.pop().unwrap();
                proof {
                    assert(g == before[n - 1]);
                }
                let value = byte_slice(text, g.start, x.end);
                out.push(PIIMatch { pii_type: g.pii_type, value, start: g.start, end: x.end });
                proof {
                    assert(spans_of(out@) =~= spans_of(before).update(
                        n - 1,
                        joined(b, spans_of(before)[n - 1], span_of(x)),
                    ));
                }
            } else {
                proof {
                    assert(spans_of(out@) =~= spans_of(out@).update(
                        n - 1,
                        joined(b, spans_of(out@)[n - 1], span_of(x)),
                    ));
                }
            }
        } else {
            let ghost before = out@;
            out.push(x);
            proof {
                assert(spans_of(out@) =~= spans_of(before).push(span_of(x)));
            }
        }
        taken = taken + 1;
        proof {
            assert(rest@ =~= all.subrange(taken as int, all.len() as int));
        }
    }
    assert(sa.subrange(0, taken as int) =~= sa);
    out
}

/// The rules that rewrite the groups, listed right to left.
fn rules_right_to_left(groups: Vec<PIIMatch>, strategy: RedactionStrategy) -> (rules: Vec<
    ResolvedRedactionRule,
>)
    ensures
        rules@.len() == groups@.len(),
        forall|k: int|
            0 <= k < groups@.len() ==> #[trigger] rules@[k] == (ResolvedRedactionRule {
                pii_match: groups@[groups@.len() - 1 - k],
                strategy,
            }),
{
    let ghost all = groups@;
    let mut g = groups;
    let mut rules: Vec<ResolvedRedactionRule> = Vec::new();
    while g.len() > 0
        invariant
            rules@.len() + g@.len() == all.len(),
            g@ == all.subrange(0, g@.len() as int),
            forall|k: int|
                0 <= k < rules@.len() ==> #[trigger] rules@[k] == (ResolvedRedactionRule {
                    pii_match: all[all.len() - 1 - k],
                    strategy,
                }),
        decreases g.len(),
    {
        let ghost before = g@;
        let m = g.pop().unwrap();
        proof {
            assert(m == all[before.len() - 1]);
        }
        rules.push(ResolvedRedactionRule { pii_match: m, strategy });
        proof {
            assert(g@ =~= all.subrange(0, g@.len() as int));
        }
    }
    rules
}

impl PIIMiddleware {
    /// Create a new PIIMiddleware with the given strategy applied to all PII types.
    pub fn new(strategy: RedactionStrategy) -> (r: Self)
        ensures
            r.pii_type is None,
            r.strategy == strategy,
            r.apply_to_input,
            r.apply_to_output,
            !r.apply_to_tool_results,
            r.detector is None,
    {
        PIIMiddleware {
            pii_type: None,
            strategy,
            apply_to_input: true,
            apply_to_output: true,
            apply_to_tool_results: false,
            detector: None,
        }
    }

    /// Create a PIIMiddleware targeting a specific PII type.
    pub fn for_type(pii_type: &str, strategy: RedactionStrategy) -> (r: Self)
        ensures
            r.pii_type matches Some(t) && t@ == pii_type@,
            r.strategy == strategy,
            r.apply_to_input,
            r.apply_to_output,
            !r.apply_to_tool_results,
            r.detector is None,
    {
        PIIMiddleware {
            pii_type: Some(String::from_str(pii_type)),
            strategy,
            apply_to_input: true,
            apply_to_output: true,
            apply_to_tool_results: false,
            detector: None,
        }
    }

    /// Set a custom detector.
    pub fn with_detector(self, detector: Box<dyn PIIDetector>) -> (r: Self)
        ensures
            r.pii_type == self.pii_type,
            r.strategy == self.strategy,
            r.apply_to_input == self.apply_to_input,
            r.apply_to_output == self.apply_to_output,
            r.apply_to_tool_results == self.apply_to_tool_results,
            r.detector == Some(detector),
    {
        let chosen = Some(detector);
        PIIMiddleware { detector: chosen, ..self }
    }

    /// The middleware's name.
    pub fn name(&self) -> (r: &'static str)
        ensures
            r@ == "PIIMiddleware"@,
    {
        "PIIMiddleware"
    }

    /// What `detect` may return for text bytes `b`: anything when a custom
    /// detector is set; otherwise the chosen built-in detector's matches, or
    /// all built-in matches sorted by start.
    pub open spec fn detects(&self, b: Seq<u8>, ms: Seq<PIIMatch>) -> bool {
        match self.detector {
            Some(d) => d.found(b, ms),
            None => match self.pii_type {
                Some(t) => match builtin_for(t@) {
                    Some(d) => matches_are(b, ms, builtin_spans(d, b), builtin_type(d)),
                    None => ms.len() == 0,
                },
                None => exists|raw: Seq<PIIMatch>|
                    matches_tagged(b, raw, all_tagged(b)) && ms == sorted_by_start_asc(raw),
            },
        }
    }

    /// What `redact_text` may return: the outcome for some matches that
    /// `detect` may report.
    pub open spec fn redacts(&self, text: Seq<char>, out: Seq<char>) -> bool {
        exists|ms: Seq<PIIMatch>|
            self.detects(vstd::utf8::encode_utf8(text), ms) && out == redact_outcome(
                self.strategy,
                text,
                ms,
            )
    }

    /// Run all relevant detectors on the given text.
    pub fn detect(&self, text: &str) -> (r: Vec<PIIMatch>)
        ensures
            self.detects(text.spec_bytes(), r@),
    {
        if let Some(detector) = &self.detector {
            return detector.detect(text);
        }
        if let Some(pii_type) = &self.pii_type {
            if let Some(detector) = get_builtin_detector(pii_type.as_str()) {
                return detector.run(text);
            }
            return Vec::new();
        }
        let ghost b = text.spec_bytes();
        let mut all: Vec<PIIMatch> = Vec::new();
        let ghost mut t: Seq<(int, int, Seq<char>)> = seq![];
        let order = [
            BuiltinDetector::Email,
            BuiltinDetector::CreditCard,
            BuiltinDetector::Ip,
            BuiltinDetector::MacAddress,
            BuiltinDetector::Url,
        ];
        let mut i: usize = 0;
        while i < 5
            invariant
                b == text.spec_bytes(),
                i <= 5,
                order@ == crate::agents::middleware::redaction::builtin_order(),
                matches_tagged(b, all@, t),
                t == detectors_tagged(b, i as int),
            decreases 5 - i,
        {
            let d = order[i];
            let mut found = d.run(text);
            let ghost before = all@;
            let ghost f = found@;
            all.append(&mut found);
            proof {
                let tf = tagged(builtin_spans(d, b), builtin_type(d));
                assert forall|k: int| 0 <= k < all@.len() implies {
                    &&& (#[trigger] all@[k]).start == (t + tf)[k].0
                    &&& all@[k].end == (t + tf)[k].1
                    &&& all@[k].pii_type@ == (t + tf)[k].2
                    &&& all@[k].value@ == decode_range(b, (t + tf)[k].0, (t + tf)[k].1)
                } by {
                    if k >= before.len() {
                        assert(all@[k] == f[k - before.len()]);
                    } else {
                        assert(all@[k] == before[k]);
                    }
                }
                assert(detectors_tagged(b, i + 1) =~= t + tf);
                t = t + tf;
            }
            i = i + 1;
        }
        proof {
            reveal_with_fuel(detectors_tagged, 6);
            assert(detectors_tagged(b, 5) =~= all_tagged(b));
        }
        let ghost raw = all@;
        let sorted = sort_matches_by_start(all);
        sorted
    }

    /// Redact the given matches from text: overlapping matches are merged
    /// first, so that every character of every match is rewritten.
    pub fn redact_with_matches(&self, text: &str, matches: Vec<PIIMatch>) -> (r: String)
        ensures
            r@ == redact_outcome(self.strategy, text@, matches@),
    {
        if matches.len() == 0 {
            return String::from_str(text);
        }
        if self.strategy == RedactionStrategy::Block {
            return String::new();
        }
        if !spans_in_text(text, &matches) {
            return String::new();
        }
        let ghost ms = matches@;
        let ghost b = text.spec_bytes();
        let sorted = sort_matches_by_start(matches);
        proof {
            lemma_sorted_asc(ms);
            lemma_sorted_spans_ok(b, ms);
        }
        let ghost sp = spans_of(sorted@);
        let groups = merge_overlaps(text, sorted);
        let ghost gs = spans_of(groups@);
        proof {
            law_merged_groups(b, sp);
        }
        let rules = rules_right_to_left(groups, self.strategy);
        proof {
            let ps = pieces_of(rules@);
            assert(ps =~= group_pieces(gs, self.strategy)) by {
                assert forall|k: int| 0 <= k < ps.len() implies #[trigger] ps[k] == group_pieces(
                    gs,
                    self.strategy,
                )[k] by {
                    assert(gs[gs.len() - 1 - k] == span_of(groups@[groups@.len() - 1 - k]));
                }
            }
            assert forall|i: int, j: int| 0 <= i < j < ps.len() implies (#[trigger] ps[j]).1 <= (
            #[trigger] ps[i]).0 by {
                assert(gs[gs.len() - 1 - j].1 <= gs[gs.len() - 1 - i].0);
            }
            assert(spaced(b, ps));
            assert(!some_block(rules@));
            lemma_apply_spaced(text@, rules@);
        }
        match try_apply_in_order(text, rules) {
            Some(Ok(t)) => t,
            _ => String::new(),
        }
    }

    /// Redact PII from text, returning the cleaned text.
    pub fn redact_text(&self, text: &str) -> (r: String)
        ensures
            self.redacts(text@, r@),
    {
        let matches = self.detect(text);
        let ghost ms = matches@;
        let r = self.redact_with_matches(text, matches);
        assert(self.detects(vstd::utf8::encode_utf8(text@), ms) && r@ == redact_outcome(
            self.strategy,
            text@,
            ms,
        ));
        r
    }

    /// Redact a single message, preserving all metadata (id, name, tool_calls, etc.).
    /// Returns the message with only the text content replaced, and whether it changed.
    pub fn redact_message(&self, msg: &Message) -> (r: (Message, bool))
        ensures
            !r.1 ==> same_message(r.0, *msg),
            r.1 ==> msg.message_type == MessageType::Remove ==> same_message(r.0, *msg),
            r.1 ==> msg.message_type != MessageType::Remove ==> same_message(
                r.0,
                Message { content: r.0.content, ..*msg },
            ),
            exists|out: Seq<char>|
                self.redacts(msg.content@, out) && (r.1 <==> out != msg.content@) && (r.1
                    && msg.message_type != MessageType::Remove ==> r.0.content@ == out),
    {
        let redacted = self.redact_text(msg.content.as_str());
        if str_eq(redacted.as_str(), msg.content.as_str()) {
            return (msg.copy(), false);
        }
        if msg.message_type == MessageType::Remove {
            return (msg.copy(), true);
        }
        (msg.with_content(redacted), true)
    }
}


/// `new` is `old` with its content replaced by a changed redaction of it.
pub open spec fn is_redacted(mw: &PIIMiddleware, old: Message, new: Message) -> bool {
    &&& same_message(new, Message { content: new.content, ..old })
    &&& new.content@ != old.content@
    &&& mw.redacts(old.content@, new.content@)
}

/// Redaction of `old` left it as it was.
pub open spec fn redaction_keeps(mw: &PIIMiddleware, old: Message) -> bool {
    exists|out: Seq<char>| mw.redacts(old.content@, out) && out == old.content@
}

impl PIIMiddleware {
    /// Which messages input redaction looks at: the last human message and,
    /// when tool results are covered, tool messages after the last AI message.
    pub open spec fn input_scope(&self, msgs: Seq<Message>, k: int) -> bool {
        ||| k == last_of_type(msgs, MessageType::Human)
        ||| (self.apply_to_tool_results && k > last_of_type(msgs, MessageType::Ai)
            && msgs[k].message_type == MessageType::Tool)
    }

    /// `v` is `msgs` with the messages in input scope either kept or
    /// redacted, at least one of them redacted, and every other message kept.
    pub open spec fn input_redacted(&self, msgs: Seq<Message>, v: Seq<Message>) -> bool {
        &&& v.len() == msgs.len()
        &&& forall|k: int|
            0 <= k < v.len() ==> if self.input_scope(msgs, k) {
                same_message(#[trigger] v[k], msgs[k]) || is_redacted(self, msgs[k], v[k])
            } else {
                same_message(v[k], msgs[k])
            }
        &&& exists|k: int|
            0 <= k < v.len() && self.input_scope(msgs, k) && #[trigger] is_redacted(self, msgs[k], v[k])
    }

    /// Redact PII from the last HumanMessage in the list (for input redaction).
    /// Also redacts ToolMessages after the last AIMessage (tool results).
    #[verifier::spinoff_prover]
    #[verifier::rlimit(40)]
    pub fn redact_input_messages(&self, messages: &[Message]) -> (r: Option<Vec<Message>>)
        ensures
            messages@.len() == 0 ==> r is None,
            r matches Some(v) ==> self.input_redacted(messages@, v@),
            r is None ==> forall|k: int|
                0 <= k < messages@.len() && self.input_scope(messages@, k) ==> #[trigger] redaction_keeps(
                    self,
                    messages@[k],
                ),
    {
        if messages.len() == 0 {
            return None;
        }
        let ghost m = messages@;
        let ghost h = last_of_type(m, MessageType::Human);
        let ghost last_ai = last_of_type(m, MessageType::Ai);
        proof {
            crate::messages::lemma_last_of_type(m, MessageType::Human);
            crate::messages::lemma_last_of_type(m, MessageType::Ai);
        }
        let mut new_messages = copy_messages(messages);
        let mut changed = false;
        let ghost mut witness: int = -1;
        let last_human = last_position(messages, MessageType::Human);
        if let Some(hi) = last_human {
            let (redacted, did_change) = self.redact_message(&messages[hi]);
            if did_change {
                new_messages.set(hi, redacted);
                changed = true;
                proof {
                    witness = hi as int;
                    assert(is_redacted(self, m[h], new_messages@[h]));
                }
            } else {
                proof {
                    assert(redaction_keeps(self, m[h]));
                }
            }
        }
        // tool messages not yet visited are untouched; visited ones are handled
        let mut idx: usize = messages.len();
        let mut start: usize = messages.len();
        if self.apply_to_tool_results {
            let last_ai_pos = last_position(messages, MessageType::Ai);
            start = match last_ai_pos {
                Some(a) => a + 1,
                None => 0,
            };
            idx = start;
        }
        while idx < messages.len()
            invariant
                m == messages@,
                m.len() == new_messages@.len(),
                h == last_of_type(m, MessageType::Human),
                last_ai == last_of_type(m, MessageType::Ai),
                -1 <= h < m.len(),
                h >= 0 ==> m[h].message_type == MessageType::Human,
                self.apply_to_tool_results ==> start == last_ai + 1,
                !self.apply_to_tool_results ==> idx == m.len(),
                start <= idx <= m.len(),
                forall|k: int|
                    0 <= k < m.len() ==> if self.input_scope(m, k) {
                        same_message(#[trigger] new_messages@[k], m[k]) || is_redacted(
                            self,
                            m[k],
                            new_messages@[k],
                        )
                    } else {
                        same_message(new_messages@[k], m[k])
                    },
                changed ==> 0 <= witness < m.len() && self.input_scope(m, witness) && is_redacted(
                    self,
                    m[witness],
                    new_messages@[witness],
                ),
                !changed ==> h < 0 || redaction_keeps(self, m[h]),
                !changed ==> forall|k: int|
                    start <= k < idx && m[k].message_type == MessageType::Tool ==> #[trigger] redaction_keeps(
                        self,
                        m[k],
                    ),
            decreases m.len() - idx,
        {
            if messages[idx].message_type == MessageType::Tool {
                let (redacted, did_change) = self.redact_message(&messages[idx]);
                if did_change {
                    new_messages.set(idx, redacted);
                    changed = true;
                    proof {
                        witness = idx as int;
                        assert(self.input_scope(m, idx as int));
                        assert(is_redacted(self, m[idx as int], new_messages@[idx as int]));
                    }
                } else {
                    proof {
                        assert(redaction_keeps(self, m[idx as int]));
                    }
                }
            }
            idx = idx + 1;
        }
        if changed {
            proof {
                assert(is_redacted(self, messages@[witness], new_messages@[witness]));
                assert(forall|k: int|
                    0 <= k < new_messages@.len() ==> if self.input_scope(messages@, k) {
                        same_message(#[trigger] new_messages@[k], messages@[k]) || is_redacted(
                            self,
                            messages@[k],
                            new_messages@[k],
                        )
                    } else {
                        same_message(new_messages@[k], messages@[k])
                    });
                assert(new_messages@.len() == messages@.len());
                assert(exists|k: int|
                    0 <= k < new_messages@.len() && self.input_scope(messages@, k) && #[trigger] is_redacted(
                        self,
                        messages@[k],
                        new_messages@[k],
                    ));
                assert(self.input_redacted(messages@, new_messages@));
            }
            Some(new_messages)
        } else {
            proof {
                assert forall|k: int|
                    0 <= k < m.len() && self.input_scope(m, k) implies #[trigger] redaction_keeps(
                    self,
                    m[k],
                ) by {
                    if k != h {
                        assert(self.apply_to_tool_results && k > last_ai && m[k].message_type
                            == MessageType::Tool);
                    }
                }
            }
            None
        }
    }

    /// Redact PII from the last AIMessage in the list (for output redaction).
    pub fn redact_output_messages(&self, messages: &[Message]) -> (r: Option<Vec<Message>>)
        ensures
            messages@.len() == 0 ==> r is None,
            r matches Some(v) ==> {
                let i = last_of_type(messages@, MessageType::Ai);
                &&& 0 <= i < messages@.len()
                &&& v@.len() == messages@.len()
                &&& is_redacted(self, messages@[i], v@[i])
                &&& forall|k: int|
                    0 <= k < v@.len() && k != i ==> same_message(#[trigger] v@[k], messages@[k])
            },
            r is None ==> messages@.len() == 0 || last_of_type(messages@, MessageType::Ai) < 0
                || redaction_keeps(self, messages@[last_of_type(messages@, MessageType::Ai)]),
    {
        if messages.len() == 0 {
            return None;
        }
        let mut new_messages = copy_messages(messages);
        proof {
            crate::messages::lemma_last_of_type(messages@, MessageType::Ai);
        }
        if let Some(a) = last_position(messages, MessageType::Ai) {
            let (redacted, did_change) = self.redact_message(&messages[a]);
            if did_change {
                new_messages.set(a, redacted);
                return Some(new_messages);
            }
        }
        None
    }
}

/// The tagged ranges of the first `n` built-in detectors, in registry order.
pub open spec fn detectors_tagged(b: Seq<u8>, n: int) -> Seq<(int, int, Seq<char>)>
    decreases n,
{
    if n <= 0 {
        seq![]
    } else {
        let d = crate::agents::middleware::redaction::builtin_order()[n - 1];
        detectors_tagged(b, n - 1) + tagged(builtin_spans(d, b), builtin_type(d))
    }
}

} // verus!
