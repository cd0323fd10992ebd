//! Filling the `{name}` placeholders of a prompt template from an input
//! object, with one name reserved for a text the chain supplies itself.

use vstd::prelude::*;
use vstd::string::*;
use crate::chains::documents::{joined, meta_text};
use crate::error::RustChainError;
use crate::json::{compact_json_text, member, JsonValue};
use crate::regexes::{match_spans, regex_spans, spans_view};
use crate::text::{byte_slice, decode_range, push_string, str_eq};

verus! {

/// The pattern of a placeholder: a word in braces.
pub open spec fn placeholder_pattern() -> Seq<char> {
    "\\{(\\w+)\\}"@
}

/// The name in a placeholder match.
pub open spec fn span_key(s: (nat, nat, Option<Seq<char>>)) -> Seq<char> {
    match s.2 {
        Some(k) => k,
        None => Seq::empty(),
    }
}

/// The text that replaces the placeholder `key`: the chain's own text for
/// the reserved name, else the input's member of that name (a string as
/// itself, any other value as its JSON text), else nothing.
pub open spec fn placeholder_value(key: Seq<char>, reserved: Seq<char>, own: Seq<char>, input: JsonValue) -> Seq<char> {
    if key == reserved {
        own
    } else {
        match member(input, key) {
            Some(v) => meta_text(v),
            None => Seq::empty(),
        }
    }
}

/// Whether the placeholder `key` has no value.
pub open spec fn placeholder_missing(key: Seq<char>, reserved: Seq<char>, input: JsonValue) -> bool {
    key != reserved && member(input, key) is None
}

/// Where the text after match `n - 1` starts.
pub open spec fn after_match(spans: Seq<(nat, nat, Option<Seq<char>>)>, n: nat) -> int {
    if n == 0 {
        0
    } else {
        spans[n - 1].1 as int
    }
}

/// The template up to the end of match `n - 1`, its placeholders filled.
pub open spec fn filled_prefix(
    b: Seq<u8>,
    spans: Seq<(nat, nat, Option<Seq<char>>)>,
    n: nat,
    reserved: Seq<char>,
    own: Seq<char>,
    input: JsonValue,
) -> Seq<char>
    decreases n,
{
    if n == 0 || n > spans.len() {
        Seq::empty()
    } else {
        filled_prefix(b, spans, (n - 1) as nat, reserved, own, input) + decode_range(
            b,
            after_match(spans, (n - 1) as nat),
            spans[n - 1].0 as int,
        ) + placeholder_value(span_key(spans[n - 1]), reserved, own, input)
    }
}

/// The placeholder names among the first `n` matches that have no value.
pub open spec fn missing_keys(
    spans: Seq<(nat, nat, Option<Seq<char>>)>,
    n: nat,
    reserved: Seq<char>,
    input: JsonValue,
) -> Seq<Seq<char>>
    decreases n,
{
    if n == 0 || n > spans.len() {
        Seq::empty()
    } else if placeholder_missing(span_key(spans[n - 1]), reserved, input) {
        missing_keys(spans, (n - 1) as nat, reserved, input).push(span_key(spans[n - 1]))
    } else {
        missing_keys(spans, (n - 1) as nat, reserved, input)
    }
}

/// What filling a template whose UTF-8 bytes are `b` gives, when its
/// placeholders are the matches `spans`: the filled text, or an error that
/// names every placeholder without value (`kind` says what the variables
/// are called in its message).
pub open spec fn fill_result(
    b: Seq<u8>,
    spans: Seq<(nat, nat, Option<Seq<char>>)>,
    kind: Seq<char>,
    reserved: Seq<char>,
    own: Seq<char>,
    input: JsonValue,
    r: Result<String, RustChainError>,
) -> bool {
    let missing = missing_keys(spans, spans.len(), reserved, input);
    if missing.len() > 0 {
        r matches Err(RustChainError::InvalidKey(m)) && m@ == "Missing "@ + kind + " variable(s): "@ + joined(
            missing,
            ", "@,
            missing.len(),
        )
    } else {
        r matches Ok(s) && s@ == filled_prefix(b, spans, spans.len(), reserved, own, input)
            + decode_range(b, after_match(spans, spans.len()), b.len() as int)
    }
}

/// The text of an input member, as a placeholder shows it.
fn value_text(v: &JsonValue) -> (r: String)
    ensures
        r@ == meta_text(*v),
{
    match v {
        JsonValue::Str(s) => s.clone(),
        other => other.to_json_text(),
    }
}

/// Fills the placeholders of `template` found at `spans` (byte offsets of
/// each match and its name): the reserved name takes `own`, any other name
/// the input's member of that name; the placeholders without value are
/// reported together, as missing `kind` variables.
pub fn fill_from_spans(
    template: &str,
    spans: &Vec<(usize, usize, Option<String>)>,
    kind: &str,
    reserved: &str,
    own: &str,
    input: &JsonValue,
) -> (r: Result<String, RustChainError>)
    requires
        forall|i: int| 0 <= i < spans@.len() ==> {
            &&& (#[trigger] spans@[i]).0 <= spans@[i].1
            &&& crate::text::cut_point(template.spec_bytes(), spans@[i].0 as int)
            &&& crate::text::cut_point(template.spec_bytes(), spans@[i].1 as int)
        },
        forall|i: int| 0 < i < spans@.len() ==> spans@[i - 1].1 <= (#[trigger] spans@[i]).0,
    ensures
        fill_result(template.spec_bytes(), spans_view(spans@), kind@, reserved@, own@, *input, r),
{
    let ghost b = template.spec_bytes();
    let ghost sv = spans_view(spans@);
    let mut out = String::new();
    let mut missing: Vec<String> = Vec::new();
    let mut last: usize = 0;
    let mut i: usize = 0;
    proof {
        crate::text::lemma_text_ends(template);
    }
    while i < spans.len()
        invariant
            b == template.spec_bytes(),
            sv == spans_view(spans@),
            i <= spans@.len(),
            last == after_match(sv, i as nat),
            crate::text::cut_point(b, last as int),
            i < spans@.len() ==> last <= spans@[i as int].0,
            forall|k: int| 0 <= k < spans@.len() ==> {
                &&& (#[trigger] spans@[k]).0 <= spans@[k].1
                &&& crate::text::cut_point(b, spans@[k].0 as int)
                &&& crate::text::cut_point(b, spans@[k].1 as int)
            },
            forall|k: int| 0 < k < spans@.len() ==> spans@[k - 1].1 <= (#[trigger] spans@[k]).0,
            out@ == filled_prefix(b, sv, i as nat, reserved@, own@, *input),
            missing@.map_values(|s: String| s@) == missing_keys(sv, i as nat, reserved@, *input),
        decreases spans.len() - i,
    {
        let (start, end, key) = (spans[i].0, spans[i].1, &spans[i].2);
        let piece = byte_slice(template, last, start);
        push_string(&mut out, &piece);
        let k = match key {
            Some(k) => k.clone(),
            None => String::new(),
        };
        assert(k@ == span_key(sv[i as int]));
        let ghost before_missing = missing@.map_values(|s: String| s@);
        if str_eq(k.as_str(), reserved) {
            out.append(own);
        } else {
            match input.get(k.as_str()) {
                Some(v) => {
                    let t = value_text(v);
                    push_string(&mut out, &t);
                },
                None => {
                    let ghost kv = k@;
                    missing.push(k);
                    assert(missing@.map_values(|s: String| s@) =~= before_missing.push(kv));
                },
            }
        }
        last = end;
        i = i + 1;
        proof {
            if i < spans@.len() {
                assert(spans@[i - 1].1 <= spans@[i as int].0);
            }
        }
    }
    if missing.len() > 0 {
        let mut msg = String::from_str("Missing ");
        msg.append(kind);
        msg.append(" variable(s): ");
        let ghost mv = missing@.map_values(|s: String| s@);
        let mut j: usize = 0;
        while j < missing.len()
            invariant
                j <= missing@.len(),
                mv == missing@.map_values(|s: String| s@),
                msg@ == "Missing "@ + kind@ + " variable(s): "@ + joined(mv, ", "@, j as nat),
            decreases missing.len() - j,
        {
            if j > 0 {
                msg.append(", ");
            }
            push_string(&mut msg, &missing[j]);
            j = j + 1;
            assert(msg@ =~= "Missing "@ + kind@ + " variable(s): "@ + joined(mv, ", "@, j as nat));
        }
        return Err(RustChainError::InvalidKey(msg));
    }
    proof {
        crate::text::lemma_text_ends(template);
    }
    let total = template.as_bytes().len();
    let tail = byte_slice(template, last, total);
    push_string(&mut out, &tail);
    Ok(out)
}

/// What filling `template` from `input` gives, the reserved name taking
/// `own`: a type error for an input that is not an object, else the
/// template with its `{name}` placeholders filled, or the names without
/// value, reported as missing `kind` variables.
pub open spec fn template_filled(
    template: Seq<char>,
    kind: Seq<char>,
    reserved: Seq<char>,
    own: Seq<char>,
    input: JsonValue,
    r: Result<String, RustChainError>,
) -> bool {
    if !(input is Object) {
        r matches Err(RustChainError::TypeMismatch { expected, got }) && expected@ == "JSON object"@
            && got@ == compact_json_text(input)
    } else {
        match regex_spans(placeholder_pattern(), template) {
            Ok(spans) => fill_result(vstd::utf8::encode_utf8(template), spans, kind, reserved, own, input, r),
            Err(m) => r matches Err(RustChainError::Other(e)) && e@ == m,
        }
    }
}

/// Fills the `{name}` placeholders of `template` from the object `input`,
/// the name `reserved` taking `own`; names without value are reported as
/// missing `kind` variables.
pub fn fill_template(template: &str, kind: &str, reserved: &str, own: &str, input: &JsonValue) -> (r: Result<String, RustChainError>)
    ensures
        template_filled(template@, kind@, reserved@, own@, *input, r),
{
    match input {
        JsonValue::Object(_) => {},
        _ => {
            return Err(
                RustChainError::TypeMismatch {
                    expected: String::from_str("JSON object"),
                    got: input.to_json_text(),
                },
            );
        },
    }
    match match_spans("\\{(\\w+)\\}", template) {
        Ok(spans) => fill_from_spans(template, &spans, kind, reserved, own, input),
        Err(e) => Err(RustChainError::Other(e)),
    }
}

} // verus!
