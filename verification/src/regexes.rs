//! Regular expression matching through the `regex` crate.

use vstd::prelude::*;
use vstd::string::*;
use crate::text::{cut_point, opt_text};

verus! {

/// What compiling `pattern` with the `regex` crate and testing `text` against
/// it gives: whether the text holds a match, or the compile error's message.
pub uninterp spec fn regex_outcome(pattern: Seq<char>, text: Seq<char>) -> Result<bool, Seq<char>>;

/// Compiles `pattern` with `regex::Regex::new` and, when that succeeds, asks
/// `Regex::is_match` whether `text` holds a match; a compile error comes back
/// as its message. The contract only names the outcome as a function of the
/// two strings: the regex language itself is not restated.
#[verifier::external_body]
pub(crate) fn regex_is_match(pattern: &str, text: &str) -> (r: Result<bool, String>)
    ensures
        match r {
            Ok(b) => regex_outcome(pattern@, text@) == Ok::<bool, Seq<char>>(b),
            Err(e) => regex_outcome(pattern@, text@) == Err::<bool, Seq<char>>(e@),
        },
{
    match regex::Regex::new(pattern) {
        Ok(re) => Ok(re.is_match(text)),
        Err(e) => Err(e.to_string()),
    }
}

/// A regex outcome read as a yes/no answer: a pattern that does not compile
/// matches nothing.
pub open spec fn outcome_hit(o: Result<bool, Seq<char>>) -> bool {
    match o {
        Ok(b) => b,
        Err(_) => false,
    }
}

/// Reads a regex outcome as a yes/no answer.
pub fn regex_hit(outcome: &Result<bool, String>) -> (r: bool)
    ensures
        r == match outcome {
            Ok(b) => *b,
            Err(_) => false,
        },
{
    match outcome {
        Ok(b) => *b,
        Err(_) => false,
    }
}

/// Whether `pattern` matches somewhere in `text`.
pub(crate) fn regex_matches(pattern: &str, text: &str) -> (r: bool)
    ensures
        r == outcome_hit(regex_outcome(pattern@, text@)),
{
    let o = regex_is_match(pattern, text);
    regex_hit(&o)
}

/// The texts of the groups of each match, as plain characters.
pub open spec fn captures_view(c: Seq<Vec<Option<String>>>) -> Seq<Seq<Option<Seq<char>>>> {
    c.map_values(|m: Vec<Option<String>>| m@.map_values(|g: Option<String>| opt_text(g)))
}

/// What compiling `pattern` with the `regex` crate and walking
/// `Regex::captures_iter` over `text` gives: for each match, in order, the
/// text of every group (group 0 is the whole match; `None` for a group that
/// took no part), or the compile error's message.
pub uninterp spec fn regex_captures(pattern: Seq<char>, text: Seq<char>) -> Result<
    Seq<Seq<Option<Seq<char>>>>,
    Seq<char>,
>;

/// Compiles `pattern` with `regex::Regex::new` and collects, for each match
/// of `Regex::captures_iter` over `text`, the text of each of its groups; a
/// compile error comes back as its message. The contract names the outcome
/// as a function of the two strings.
#[verifier::external_body]
pub(crate) fn captures_all(pattern: &str, text: &str) -> (r: Result<Vec<Vec<Option<String>>>, String>)
    ensures
        match r {
            Ok(c) => regex_captures(pattern@, text@) == Ok::<Seq<Seq<Option<Seq<char>>>>, Seq<char>>(
                captures_view(c@),
            ),
            Err(e) => regex_captures(pattern@, text@) == Err::<Seq<Seq<Option<Seq<char>>>>, Seq<char>>(
                e@,
            ),
        },
{
    match regex::Regex::new(pattern) {
        Ok(re) => Ok(
            re.captures_iter(text).map(
                |c| c.iter().map(|g| g.map(|m| m.as_str().to_string())).collect(),
            ).collect(),
        ),
        Err(e) => Err(e.to_string()),
    }
}

/// The matches as (start, end, text of group 1), offsets in bytes.
pub open spec fn spans_view(v: Seq<(usize, usize, Option<String>)>) -> Seq<(nat, nat, Option<Seq<char>>)> {
    v.map_values(|m: (usize, usize, Option<String>)| (m.0 as nat, m.1 as nat, opt_text(m.2)))
}

/// What compiling `pattern` with the `regex` crate and walking
/// `Regex::captures_iter` over `text` gives: for each match, in order, its
/// byte offsets and the text of its first group, or the compile error's
/// message.
pub uninterp spec fn regex_spans(pattern: Seq<char>, text: Seq<char>) -> Result<
    Seq<(nat, nat, Option<Seq<char>>)>,
    Seq<char>,
>;

/// Compiles `pattern` with `regex::Regex::new` and lists, for each match of
/// `Regex::captures_iter` over `text`, its start and end byte offsets and
/// the text of group 1; a compile error comes back as its message.
///
/// The contract names the outcome as a function of the two strings, and
/// states what the crate documents of the offsets: successive matches do
/// not overlap and come in order, and every offset lies on a character
/// boundary of the text.
#[verifier::external_body]
pub(crate) fn match_spans(pattern: &str, text: &str) -> (r: Result<Vec<(usize, usize, Option<String>)>, String>)
    ensures
        match r {
            Ok(v) => {
                &&& regex_spans(pattern@, text@) == Ok::<Seq<(nat, nat, Option<Seq<char>>)>, Seq<char>>(
                    spans_view(v@),
                )
                &&& forall|i: int| 0 <= i < v@.len() ==> {
                    &&& (#[trigger] v@[i]).0 <= v@[i].1
                    &&& cut_point(text.spec_bytes(), v@[i].0 as int)
                    &&& cut_point(text.spec_bytes(), v@[i].1 as int)
                }
                &&& forall|i: int| 0 < i < v@.len() ==> v@[i - 1].1 <= (#[trigger] v@[i]).0
            },
            Err(e) => regex_spans(pattern@, text@) == Err::<Seq<(nat, nat, Option<Seq<char>>)>, Seq<char>>(
                e@,
            ),
        },
{
    match regex::Regex::new(pattern) {
        Ok(re) => Ok(
            re.captures_iter(text).map(
                |c| {
                    let m = c.get(0).unwrap();
                    (m.start(), m.end(), c.get(1).map(|g| g.as_str().to_string()))
                },
            ).collect(),
        ),
        Err(e) => Err(e.to_string()),
    }
}

} // verus!
