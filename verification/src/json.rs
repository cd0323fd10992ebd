//! JSON values as the chains read them, and their compact text form.
//!
//! Object members keep their order; keys are looked up from the front.
//! Numbers are held as the text that stands for them.

use vstd::prelude::*;
use vstd::string::*;
use crate::text::{push_char, push_string, str_eq};

verus! {

/// A JSON value.
#[derive(Debug)]
pub enum JsonValue {
    Null,
    Bool(bool),
    /// A number, as its JSON text.
    Number(String),
    Str(String),
    Array(Vec<JsonValue>),
    /// Members in order.
    Object(Vec<(String, JsonValue)>),
}

/// The first member of `members` named `key`, if any.
pub open spec fn lookup(members: Seq<(String, JsonValue)>, key: Seq<char>) -> Option<JsonValue>
    decreases members.len(),
{
    if members.len() == 0 {
        None
    } else if members[0].0@ == key {
        Some(members[0].1)
    } else {
        lookup(members.drop_first(), key)
    }
}

/// The member `key` of an object, if `v` is an object that has it.
pub open spec fn member(v: JsonValue, key: Seq<char>) -> Option<JsonValue> {
    match v {
        JsonValue::Object(m) => lookup(m@, key),
        _ => None,
    }
}

/// The text of a string member `key`, if there is one.
pub open spec fn str_member(v: JsonValue, key: Seq<char>) -> Option<Seq<char>> {
    match member(v, key) {
        Some(JsonValue::Str(s)) => Some(s@),
        _ => None,
    }
}

/// The escape that JSON text uses for a character inside a string.
pub open spec fn escape_char(c: char) -> Seq<char> {
    if c == '"' {
        seq!['\\', '"']
    } else if c == '\\' {
        seq!['\\', '\\']
    } else if c == '\n' {
        seq!['\\', 'n']
    } else if c == '\r' {
        seq!['\\', 'r']
    } else if c == '\t' {
        seq!['\\', 't']
    } else if c == '\x08' {
        seq!['\\', 'b']
    } else if c == '\x0c' {
        seq!['\\', 'f']
    } else if (c as u32) < 0x20 {
        seq!['\\', 'u', '0', '0', hex_lower((c as u32 / 16) as nat), hex_lower((c as u32 % 16) as nat)]
    } else {
        seq![c]
    }
}

/// A lowercase hexadecimal digit.
pub open spec fn hex_lower(d: nat) -> char {
    if d < 10 {
        (d + 48) as char
    } else {
        (d + 87) as char
    }
}

/// The escaped characters of `s[0..n)`.
pub open spec fn escaped(s: Seq<char>, n: nat) -> Seq<char>
    decreases n,
{
    if n == 0 || n > s.len() {
        Seq::<char>::empty()
    } else {
        escaped(s, (n - 1) as nat) + escape_char(s[n - 1])
    }
}

/// A string as a JSON string literal.
pub open spec fn quoted(s: Seq<char>) -> Seq<char> {
    seq!['"'] + escaped(s, s.len()) + seq!['"']
}

/// The library's own text of a value: its structure written out, members
/// in their order and numbers as their text. Values with the same text are
/// the same value; contracts compare values by it.
pub open spec fn json_text(v: JsonValue) -> Seq<char>
    decreases v,
{
    match v {
        JsonValue::Null => "null"@,
        JsonValue::Bool(b) => if b {
            "true"@
        } else {
            "false"@
        },
        JsonValue::Number(n) => n@,
        JsonValue::Str(s) => quoted(s@),
        JsonValue::Array(items) => seq!['['] + items_text(items@, items@.len()) + seq![']'],
        JsonValue::Object(m) => seq!['{'] + members_text(m@, m@.len()) + seq!['}'],
    }
}

/// The first `n` items, comma-separated.
pub open spec fn items_text(items: Seq<JsonValue>, n: nat) -> Seq<char>
    decreases items, n,
{
    if n == 0 || n > items.len() {
        Seq::<char>::empty()
    } else if n == 1 {
        json_text(items[0])
    } else {
        items_text(items, (n - 1) as nat) + seq![','] + json_text(items[n - 1])
    }
}

/// The first `n` members as `"key":value`, comma-separated.
pub open spec fn members_text(m: Seq<(String, JsonValue)>, n: nat) -> Seq<char>
    decreases m, n,
{
    if n == 0 || n > m.len() {
        Seq::<char>::empty()
    } else if n == 1 {
        quoted(m[0].0@) + seq![':'] + json_text(m[0].1)
    } else {
        members_text(m, (n - 1) as nat) + seq![','] + quoted(m[n - 1].0@) + seq![':'] + json_text(
            m[n - 1].1,
        )
    }
}

/// The position of the first member named `key`, if any.
pub fn member_position(members: &Vec<(String, JsonValue)>, key: &str) -> (r: Option<usize>)
    ensures
        match r {
            Some(i) => i < members@.len() && lookup(members@, key@) == Some(members@[i as int].1),
            None => lookup(members@, key@) is None,
        },
{
    let mut i: usize = 0;
    assert(members@.skip(0) =~= members@);
    while i < members.len()
        invariant
            i <= members@.len(),
            lookup(members@, key@) == lookup(members@.skip(i as int), key@),
        decreases members.len() - i,
    {
        assert(members@.skip(i as int).drop_first() =~= members@.skip(i + 1));
        assert(members@.skip(i as int)[0] == members@[i as int]);
        if str_eq(members[i].0.as_str(), key) {
            return Some(i);
        }
        i = i + 1;
    }
    None
}

impl JsonValue {
    /// The compact JSON text of this value, as `serde_json::to_string`
    /// writes it.
    pub fn to_json_text(&self) -> (r: String)
        ensures
            r@ == compact_json_text(*self),
    {
        to_compact_text(self)
    }

    /// The member `key`, if this is an object that has it.
    pub fn get(&self, key: &str) -> (r: Option<&JsonValue>)
        ensures
            match r {
                Some(v) => member(*self, key@) == Some(*v),
                None => member(*self, key@) is None,
            },
    {
        match self {
            JsonValue::Object(m) => {
                let mut i: usize = 0;
                assert(m@.skip(0) =~= m@);
                while i < m.len()
                    invariant
                        i <= m@.len(),
                        *self == JsonValue::Object(*m),
                        lookup(m@, key@) == lookup(m@.skip(i as int), key@),
                    decreases m.len() - i,
                {
                    assert(m@.skip(i as int).drop_first() =~= m@.skip(i + 1));
                    assert(m@.skip(i as int)[0] == m@[i as int]);
                    assert(*self == JsonValue::Object(*m));
                    if str_eq(m[i].0.as_str(), key) {
                        return Some(&m[i].1);
                    }
                    i = i + 1;
                }
                None
            },
            _ => None,
        }
    }

    /// The text of the string member `key`, if there is one.
    pub fn get_str(&self, key: &str) -> (r: Option<&str>)
        ensures
            match r {
                Some(s) => str_member(*self, key@) == Some(s@),
                None => str_member(*self, key@) is None,
            },
    {
        match self.get(key) {
            Some(JsonValue::Str(s)) => Some(s.as_str()),
            _ => None,
        }
    }
}


/// Lists whose items have the same JSON text have the same JSON text.
proof fn lemma_items_text_same(a: Seq<JsonValue>, b: Seq<JsonValue>, n: nat)
    requires
        a.len() == b.len(),
        n <= a.len(),
        forall|i: int| 0 <= i < n ==> json_text(#[trigger] a[i]) == json_text(b[i]),
    ensures
        items_text(a, n) == items_text(b, n),
    decreases n,
{
    if n > 1 {
        lemma_items_text_same(a, b, (n - 1) as nat);
    }
}

/// Member lists with the same keys and values of the same JSON text have the
/// same JSON text.
proof fn lemma_members_text_same(a: Seq<(String, JsonValue)>, b: Seq<(String, JsonValue)>, n: nat)
    requires
        a.len() == b.len(),
        n <= a.len(),
        forall|i: int|
            0 <= i < n ==> (#[trigger] a[i]).0@ == b[i].0@ && json_text(a[i].1) == json_text(b[i].1),
    ensures
        members_text(a, n) == members_text(b, n),
    decreases n,
{
    if n > 1 {
        lemma_members_text_same(a, b, (n - 1) as nat);
    }
}

impl JsonValue {
    /// A copy of this value, with the same JSON text.
    pub fn copy(&self) -> (r: JsonValue)
        ensures
            json_text(r) == json_text(*self),
        decreases self,
    {
        match self {
            JsonValue::Null => JsonValue::Null,
            JsonValue::Bool(b) => JsonValue::Bool(*b),
            JsonValue::Number(n) => JsonValue::Number(n.clone()),
            JsonValue::Str(s) => JsonValue::Str(s.clone()),
            JsonValue::Array(items) => {
                let mut out: Vec<JsonValue> = Vec::new();
                let mut i: usize = 0;
                while i < items.len()
                    invariant
                        i <= items@.len(),
                        *self == JsonValue::Array(*items),
                        out@.len() == i,
                        forall|k: int| 0 <= k < i ==> json_text(#[trigger] out@[k]) == json_text(items@[k]),
                    decreases items.len() - i,
                {
                    proof {
                        assert(decreases_to!(*self => (*self)->Array_0));
                        vstd::std_specs::vec::axiom_vec_index_decreases(*items, i as int);
                    }
                    out.push(items[i].copy());
                    i = i + 1;
                }
                proof {
                    lemma_items_text_same(out@, items@, out@.len());
                }
                JsonValue::Array(out)
            },
            JsonValue::Object(m) => {
                let mut out: Vec<(String, JsonValue)> = Vec::new();
                let mut i: usize = 0;
                while i < m.len()
                    invariant
                        i <= m@.len(),
                        *self == JsonValue::Object(*m),
                        out@.len() == i,
                        forall|k: int|
                            0 <= k < i ==> (#[trigger] out@[k]).0@ == m@[k].0@ && json_text(out@[k].1)
                                == json_text(m@[k].1),
                    decreases m.len() - i,
                {
                    proof {
                        assert(decreases_to!(*self => (*self)->Object_0));
                        vstd::std_specs::vec::axiom_vec_index_decreases(*m, i as int);
                        assert(decreases_to!(m@[i as int] => m@[i as int].1));
                    }
                    let v = m[i].1.copy();
                    out.push((m[i].0.clone(), v));
                    i = i + 1;
                }
                proof {
                    lemma_members_text_same(out@, m@, out@.len());
                }
                JsonValue::Object(out)
            },
        }
    }
}

/// `serde_json::Value`, which JSON text is parsed into before it is turned
/// into a [`JsonValue`].
#[verifier::external_type_specification]
#[verifier::external_body]
pub struct ExSerdeJsonValue(serde_json::Value);

/// What `serde_json::from_str` makes of `text`: the value read, or the text
/// of the error it reports.
pub uninterp spec fn parsed_json(text: Seq<char>) -> Result<JsonValue, Seq<char>>;

/// Parses JSON text.
///
/// Calls `serde_json::from_str` into a `serde_json::Value` and turns that
/// into a [`JsonValue`] (numbers by their `Display` text, object members in
/// the value's order); on failure gives the error's `Display` text. The
/// contract names the outcome as a function of the text alone.
#[verifier::external_body]
pub(crate) fn parse_json(text: &str) -> (r: Result<JsonValue, String>)
    ensures
        match r {
            Ok(v) => parsed_json(text@) == Ok::<JsonValue, Seq<char>>(v),
            Err(e) => parsed_json(text@) == Err::<JsonValue, Seq<char>>(e@),
        },
{
    match serde_json::from_str::<serde_json::Value>(text) {
        Ok(v) => Ok(from_serde(v)),
        Err(e) => Err(e.to_string()),
    }
}

/// Turns a `serde_json::Value` into a [`JsonValue`], variant by variant.
#[verifier::external_body]
fn from_serde(v: serde_json::Value) -> JsonValue {
    match v {
        serde_json::Value::Null => JsonValue::Null,
        serde_json::Value::Bool(b) => JsonValue::Bool(b),
        serde_json::Value::Number(n) => JsonValue::Number(n.to_string()),
        serde_json::Value::String(s) => JsonValue::Str(s),
        serde_json::Value::Array(a) => JsonValue::Array(a.into_iter().map(from_serde).collect()),
        serde_json::Value::Object(o) => {
            JsonValue::Object(o.into_iter().map(|(k, x)| (k, from_serde(x))).collect())
        },
    }
}

/// What `serde_json::to_string` writes for a value.
pub uninterp spec fn compact_json_text(v: JsonValue) -> Seq<char>;

/// The compact JSON text of a value, as `serde_json::to_string` writes it.
///
/// Turns the value into a `serde_json::Value` (a number through parsing its
/// text; number text that does not parse becomes null) and calls
/// `serde_json::to_string`, which cannot fail on such a value. The contract
/// names the text as a function of the value alone.
#[verifier::external_body]
fn to_compact_text(v: &JsonValue) -> (r: String)
    ensures
        r@ == compact_json_text(*v),
{
    serde_json::to_string(&to_serde(v)).unwrap_or_default()
}

/// What `serde_json::to_string_pretty` writes for a value.
pub uninterp spec fn pretty_json_text(v: JsonValue) -> Seq<char>;

/// The JSON text of a value, indented as `serde_json::to_string_pretty`
/// writes it.
///
/// Turns the value into a `serde_json::Value` (a number through parsing its
/// text; number text that does not parse becomes null) and calls
/// `serde_json::to_string_pretty`, which cannot fail on such a value. The
/// contract names the text as a function of the value alone.
#[verifier::external_body]
pub(crate) fn to_pretty_text(v: &JsonValue) -> (r: String)
    ensures
        r@ == pretty_json_text(*v),
{
    serde_json::to_string_pretty(&to_serde(v)).unwrap_or_default()
}

/// Turns a [`JsonValue`] into a `serde_json::Value`, variant by variant.
#[verifier::external_body]
fn to_serde(v: &JsonValue) -> serde_json::Value {
    match v {
        JsonValue::Null => serde_json::Value::Null,
        JsonValue::Bool(b) => serde_json::Value::Bool(*b),
        JsonValue::Number(n) => serde_json::from_str(n).unwrap_or(serde_json::Value::Null),
        JsonValue::Str(s) => serde_json::Value::String(s.clone()),
        JsonValue::Array(a) => serde_json::Value::Array(a.iter().map(to_serde).collect()),
        JsonValue::Object(o) => {
            serde_json::Value::Object(o.iter().map(|(k, x)| (k.clone(), to_serde(x))).collect())
        },
    }
}

} // verus!
