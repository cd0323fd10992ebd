//! The decisions of a composed pipeline: which function to call next, on
//! what input, and how the answers are combined.
//!
//! A pipeline is a list of operations: a named step, a transform, a map over
//! the elements of an array, parallel branches merged into one object keyed
//! by branch name, and conditional routing to the chain of the first
//! condition that holds. The functions themselves belong to the caller:
//! a [`PipelineRun`] asks for one call at a time ([`PipelineCall`]) and is
//! told what came back ([`PipelineEvent`]).

use vstd::prelude::*;
use crate::json::{items_text, json_text, lookup, members_text, JsonValue};
use crate::text::{str_less, text_less};

verus! {

/// The shape of one pipeline operation.
#[derive(Debug)]
pub enum PipelineOp {
    /// A named step: one call of its handler.
    Step(String),
    /// Branches run on the same input; the results are merged into one
    /// object under the branch names.
    Parallel(Vec<String>),
    /// One call of a transform function.
    Transform,
    /// The handler is called on each element of an array input.
    MapEach,
    /// Conditions tried in order; the chain of the first that holds runs,
    /// else the fallback chain when there is one.
    Conditional { conditions: usize, has_otherwise: bool },
}

/// What the pipeline asks of its caller.
#[derive(Debug)]
pub enum PipelineCall {
    /// Call function `index` of operation `op` on `input`: the handler of a
    /// step, transform or map (`index` 0), the branch `index` of a parallel
    /// stage, or the chain of condition `index` of a conditional stage (the
    /// fallback is the index after the last condition).
    Handler { op: usize, index: usize, input: JsonValue },
    /// Evaluate condition `index` of the conditional operation `op`.
    Condition { op: usize, index: usize, input: JsonValue },
    /// The pipeline is done, with this outcome.
    Finished(Result<JsonValue, String>),
}

/// What the caller reports back.
#[derive(Debug)]
pub enum PipelineEvent {
    /// The called function returned this.
    Output(Result<JsonValue, String>),
    /// The evaluated condition held or not.
    Matched(bool),
}

/// What a run waits for.
#[derive(Debug)]
pub enum Pending {
    /// The result of the one function of the operation.
    Single,
    /// The result of branch `next`; `merged` holds the earlier results in
    /// key order.
    Branch { next: usize, merged: Vec<(String, JsonValue)> },
    /// The result for element `next` of `items`; `done` holds the earlier
    /// results.
    Element { items: Vec<JsonValue>, next: usize, done: Vec<JsonValue> },
    /// Whether condition `next` holds.
    Test { next: usize },
    /// Nothing: the run is over.
    Over,
}

/// A pipeline in progress.
pub struct PipelineRun {
    ops: Vec<PipelineOp>,
    op: usize,
    current: JsonValue,
    pending: Pending,
}

/// Whether the keys of `m` strictly increase.
pub open spec fn members_sorted(m: Seq<(String, JsonValue)>) -> bool {
    forall|i: int, j: int| 0 <= i < j < m.len() ==> text_less(#[trigger] m[i].0@, #[trigger] m[j].0@)
}

/// The number of functions operation `o` may call by index.
pub open spec fn handler_count(o: PipelineOp) -> nat {
    match o {
        PipelineOp::Parallel(names) => names@.len(),
        PipelineOp::Conditional { conditions, has_otherwise } => conditions as nat + if has_otherwise {
            1nat
        } else {
            0nat
        },
        _ => 1,
    }
}

/// The number of conditions of a conditional operation; none otherwise.
pub open spec fn condition_count(o: PipelineOp) -> nat {
    match o {
        PipelineOp::Conditional { conditions, .. } => conditions as nat,
        _ => 0,
    }
}

/// The branch names of a parallel operation; none otherwise.
pub open spec fn branch_names(o: PipelineOp) -> Seq<String> {
    match o {
        PipelineOp::Parallel(names) => names@,
        _ => Seq::empty(),
    }
}

/// Whether `call` asks for a function that operation `ops[op]` has.
pub open spec fn call_fits(ops: Seq<PipelineOp>, call: PipelineCall) -> bool {
    match call {
        PipelineCall::Handler { op, index, .. } => op < ops.len() && index < handler_count(ops[op as int]),
        PipelineCall::Condition { op, index, .. } => op < ops.len() && index < condition_count(
            ops[op as int],
        ),
        PipelineCall::Finished(_) => true,
    }
}

impl PipelineRun {
    /// The operations.
    pub closed spec fn ops(&self) -> Seq<PipelineOp> {
        self.ops@
    }

    /// The operation in progress; the number of operations once all ran.
    pub closed spec fn op(&self) -> nat {
        self.op as nat
    }

    /// The input of the operation in progress.
    pub closed spec fn current(&self) -> JsonValue {
        self.current
    }

    /// What the run waits for.
    pub closed spec fn pending(&self) -> Pending {
        self.pending
    }

    /// The run's state is consistent with its operations.
    pub closed spec fn wf(&self) -> bool {
        &&& self.op <= self.ops@.len()
        &&& self.op == self.ops@.len() ==> self.pending is Over
        &&& match self.pending {
            Pending::Single => self.op < self.ops@.len(),
            Pending::Branch { next, merged } => self.op < self.ops@.len()
                && self.ops@[self.op as int] is Parallel && next < branch_names(
                self.ops@[self.op as int],
            ).len() && members_sorted(merged@),
            Pending::Element { items, next, done } => self.op < self.ops@.len()
                && self.ops@[self.op as int] is MapEach && next < items@.len() && done@.len() == next,
            Pending::Test { next } => self.op < self.ops@.len()
                && self.ops@[self.op as int] is Conditional && next < condition_count(
                self.ops@[self.op as int],
            ),
            Pending::Over => true,
        }
    }

    /// Whether `event` answers what the run asked.
    pub open spec fn expects(&self, event: PipelineEvent) -> bool {
        match self.pending() {
            Pending::Test { .. } => event is Matched,
            Pending::Over => false,
            _ => event is Output,
        }
    }
}

/// Sets `key` to `value` in members kept in key order.
fn insert_sorted(m: &mut Vec<(String, JsonValue)>, key: &String, value: JsonValue)
    requires
        members_sorted(old(m)@),
    ensures
        member_set(old(m)@, key@, value, final(m)@),
{
    let mut i: usize = 0;
    while i < m.len() && str_less(m[i].0.as_str(), key.as_str())
        invariant
            i <= m@.len(),
            forall|j: int| 0 <= j < i ==> text_less(#[trigger] m@[j].0@, key@),
        decreases m.len() - i,
    {
        i = i + 1;
    }
    let e = (key.clone(), value);
    proof {
        lemma_insert_sorted(m@, i as int, e);
    }
    if i < m.len() && crate::text::str_eq(m[i].0.as_str(), key.as_str()) {
        m.set(i, e);
    } else {
        m.insert(i, e);
    }
}

/// Whether `new` is `old` with `key` set to `value`, in key order.
pub open spec fn member_set(old: Seq<(String, JsonValue)>, key: Seq<char>, value: JsonValue, new: Seq<
    (String, JsonValue),
>) -> bool {
    &&& members_sorted(new)
    &&& forall|q: Seq<char>| #[trigger] lookup(new, q) == if q == key {
        Some(value)
    } else {
        lookup(old, q)
    }
}

/// In members sorted by key, a key's value is that of its one entry.
proof fn lemma_lookup_sorted(m: Seq<(String, JsonValue)>, q: Seq<char>)
    requires
        members_sorted(m),
    ensures
        lookup(m, q) is Some <==> exists|j: int| 0 <= j < m.len() && m[j].0@ == q,
        forall|j: int| 0 <= j < m.len() && m[j].0@ == q ==> lookup(m, q) == Some(m[j].1),
    decreases m.len(),
{
    if m.len() > 0 {
        let u = m.drop_first();
        assert(members_sorted(u)) by {
            assert forall|a: int, b: int| 0 <= a < b < u.len() implies text_less(
                #[trigger] u[a].0@,
                #[trigger] u[b].0@,
            ) by {
                assert(u[a] == m[a + 1] && u[b] == m[b + 1]);
            }
        }
        lemma_lookup_sorted(u, q);
        assert forall|j: int| 0 <= j < m.len() && m[j].0@ == q implies lookup(m, q) == Some(m[j].1) by {
            if j > 0 {
                assert(u[j - 1] == m[j]);
                assert(text_less(m[0].0@, m[j].0@));
                crate::text::lemma_text_less_total(q, q);
            }
        }
        if lookup(u, q) is Some {
            let j = choose|j: int| 0 <= j < u.len() && u[j].0@ == q;
            assert(m[j + 1] == u[j]);
        }
        if m[0].0@ == q {
            assert(m[0].0@ == q);
        }
    }
}

/// Setting a key at its place keeps members sorted and changes only that
/// key.
proof fn lemma_insert_sorted(m: Seq<(String, JsonValue)>, i: int, e: (String, JsonValue))
    requires
        members_sorted(m),
        0 <= i <= m.len(),
        forall|j: int| 0 <= j < i ==> text_less(#[trigger] m[j].0@, e.0@),
        i < m.len() ==> !text_less(m[i].0@, e.0@),
    ensures
        i < m.len() && m[i].0@ == e.0@ ==> member_set(m, e.0@, e.1, m.update(i, e)),
        !(i < m.len() && m[i].0@ == e.0@) ==> member_set(m, e.0@, e.1, m.insert(i, e)),
{
    lemma_insert_sorted_order(m, i, e);
    let k = e.0@;
    let w = if i < m.len() && m[i].0@ == k {
        m.update(i, e)
    } else {
        m.insert(i, e)
    };
    assert forall|q: Seq<char>| #[trigger] lookup(w, q) == if q == k {
        Some(e.1)
    } else {
        lookup(m, q)
    } by {
        lemma_lookup_sorted(m, q);
        lemma_lookup_sorted(w, q);
        if q == k {
            assert(w[i].0@ == q);
        } else {
            if lookup(m, q) is Some {
                let j = choose|j: int| 0 <= j < m.len() && m[j].0@ == q;
                if i < m.len() && m[i].0@ == k {
                    assert(w[j] == m[j]);
                } else if j < i {
                    assert(w[j] == m[j]);
                } else {
                    assert(w[j + 1] == m[j]);
                }
            }
            if lookup(w, q) is Some {
                let j = choose|j: int| 0 <= j < w.len() && w[j].0@ == q;
                if i < m.len() && m[i].0@ == k {
                    assert(w[j] == m[j]);
                } else if j < i {
                    assert(w[j] == m[j]);
                } else {
                    assert(j != i);
                    assert(w[j] == m[j - 1]);
                }
            }
        }
    }
}

/// Setting a key at its place keeps members sorted.
proof fn lemma_insert_sorted_order(m: Seq<(String, JsonValue)>, i: int, e: (String, JsonValue))
    requires
        members_sorted(m),
        0 <= i <= m.len(),
        forall|j: int| 0 <= j < i ==> text_less(#[trigger] m[j].0@, e.0@),
        i < m.len() ==> !text_less(m[i].0@, e.0@),
    ensures
        i < m.len() && m[i].0@ == e.0@ ==> members_sorted(m.update(i, e)),
        !(i < m.len() && m[i].0@ == e.0@) ==> members_sorted(m.insert(i, e)),
{
    let k = e.0@;
    if i < m.len() && m[i].0@ == k {
        let w = m.update(i, e);
        assert forall|a: int, b: int| 0 <= a < b < w.len() implies text_less(
            #[trigger] w[a].0@,
            #[trigger] w[b].0@,
        ) by {
            assert(text_less(m[a].0@, m[b].0@));
        }
    } else {
        let w = m.insert(i, e);
        if i < m.len() {
            crate::text::lemma_text_less_total(m[i].0@, k);
        }
        assert forall|a: int, b: int| 0 <= a < b < w.len() implies text_less(
            #[trigger] w[a].0@,
            #[trigger] w[b].0@,
        ) by {
            if a < i && b == i {
            } else if a < i && b > i {
                assert(w[b] == m[b - 1]);
                if b - 1 > i {
                    assert(text_less(m[i].0@, m[b - 1].0@));
                    crate::text::lemma_text_less_trans(k, m[i].0@, m[b - 1].0@);
                }
                crate::text::lemma_text_less_trans(w[a].0@, k, w[b].0@);
            } else if a == i {
                assert(w[b] == m[b - 1]);
                if b - 1 > i {
                    assert(text_less(m[i].0@, m[b - 1].0@));
                    crate::text::lemma_text_less_trans(k, m[i].0@, m[b - 1].0@);
                }
            } else if a > i {
                assert(w[a] == m[a - 1]);
                assert(w[b] == m[b - 1]);
            }
        }
    }
}

/// What the decisions of a pipeline see of a value: its JSON text, and its
/// items when it is an array.
pub struct ValueView {
    pub text: Seq<char>,
    pub items: Option<Seq<JsonValue>>,
}

/// The view of a value.
pub open spec fn view_of(v: JsonValue) -> ValueView {
    ValueView {
        text: json_text(v),
        items: match v {
            JsonValue::Array(items) => Some(items@),
            _ => None,
        },
    }
}

/// Whether `call` asks for function `index` of operation `op` on a value
/// with JSON text `text`.
pub open spec fn asks(call: PipelineCall, op: int, index: int, text: Seq<char>) -> bool {
    match call {
        PipelineCall::Handler { op: o, index: i, input } => o == op && i == index && json_text(input)
            == text,
        _ => false,
    }
}

/// Whether `call` asks whether condition `index` of operation `op` holds
/// for a value with JSON text `text`.
pub open spec fn tests(call: PipelineCall, op: int, index: int, text: Seq<char>) -> bool {
    match call {
        PipelineCall::Condition { op: o, index: i, input } => o == op && i == index && json_text(input)
            == text,
        _ => false,
    }
}

/// Whether `call` finishes the pipeline with the error `m`.
pub open spec fn fails_with(call: PipelineCall, m: Seq<char>) -> bool {
    match call {
        PipelineCall::Finished(Err(e)) => e@ == m,
        _ => false,
    }
}

/// Whether the run `r` and its request `call` are what starting operation
/// `op` on a value seen as `v` leads to: operations that need no call (a
/// parallel stage without branches, a map over an empty array) are passed at
/// once, with an empty object or array as their output.
pub open spec fn entered(ops: Seq<PipelineOp>, op: int, v: ValueView, r: PipelineRun, call: PipelineCall) -> bool
    decreases ops.len() - op,
{
    if op < 0 {
        false
    } else if op >= ops.len() {
        &&& r.op() == ops.len()
        &&& r.pending() is Over
        &&& call matches PipelineCall::Finished(Ok(x)) && json_text(x) == v.text
    } else {
        match ops[op] {
            PipelineOp::Parallel(names) => if names@.len() == 0 {
                entered(ops, op + 1, ValueView { text: "{}"@, items: None }, r, call)
            } else {
                &&& r.op() == op
                &&& json_text(r.current()) == v.text
                &&& r.pending() matches Pending::Branch { next, merged } && next == 0 && merged@.len() == 0
                &&& asks(call, op, 0, v.text)
            },
            PipelineOp::MapEach => match v.items {
                Some(items) => if items.len() == 0 {
                    entered(ops, op + 1, ValueView { text: "[]"@, items: Some(Seq::empty()) }, r, call)
                } else {
                    &&& r.op() == op
                    &&& r.pending() matches Pending::Element { items: its, next, done } && its@ == items && next == 0 && done@.len() == 0
                    &&& asks(call, op, 0, json_text(items[0]))
                },
                None => r.op() == op && r.pending() is Over && fails_with(call, "Pipeline map expects a JSON array"@),
            },
            PipelineOp::Conditional { conditions, has_otherwise } => if conditions > 0 {
                &&& r.op() == op
                &&& json_text(r.current()) == v.text
                &&& r.pending() == Pending::Test { next: 0 }
                &&& tests(call, op, 0, v.text)
            } else if has_otherwise {
                r.op() == op && r.pending() is Single && asks(call, op, 0, v.text)
            } else {
                r.op() == op && r.pending() is Over && fails_with(call, "No condition matched in pipeline conditional"@)
            },
            _ => r.op() == op && r.pending() is Single && asks(call, op, 0, v.text),
        }
    }
}

/// The shape of an operation: its kind, its number of branches or
/// conditions, and whether it has a fallback.
fn shape(o: &PipelineOp) -> (r: (u8, usize, bool))
    ensures
        match *o {
            PipelineOp::Parallel(names) => r.0 == 1 && r.1 == names@.len(),
            PipelineOp::MapEach => r.0 == 2,
            PipelineOp::Conditional { conditions, has_otherwise } => r.0 == 3 && r.1 == conditions && r.2 == has_otherwise,
            _ => r.0 == 0,
        },
{
    match o {
        PipelineOp::Parallel(names) => (1, names.len(), false),
        PipelineOp::MapEach => (2, 0, false),
        PipelineOp::Conditional { conditions, has_otherwise } => (3, *conditions, *has_otherwise),
        _ => (0, 0, false),
    }
}

impl PipelineRun {
    /// Starts operation `op` on `v`.
    fn enter(ops: Vec<PipelineOp>, op: usize, v: JsonValue) -> (res: (PipelineRun, PipelineCall))
        requires
            op <= ops@.len(),
        ensures
            res.0.ops() == ops@,
            res.0.wf(),
            call_fits(ops@, res.1),
            entered(ops@, op as int, view_of(v), res.0, res.1),
        decreases ops@.len() - op,
    {
        if op >= ops.len() {
            let call = PipelineCall::Finished(Ok(v));
            let run = PipelineRun { ops, op, current: JsonValue::Null, pending: Pending::Over };
            return (run, call);
        }
        let (kind, n, other) = shape(&ops[op]);
        if kind == 1 {
            if n == 0 {
                let e = JsonValue::Object(Vec::new());
                assert(view_of(e) == ValueView { text: "{}"@, items: None }) by {
                    reveal_strlit("{}");
                    assert(json_text(e) =~= "{}"@);
                }
                return Self::enter(ops, op + 1, e);
            }
            let input = v.copy();
            let run = PipelineRun {
                ops,
                op,
                current: v,
                pending: Pending::Branch { next: 0, merged: Vec::new() },
            };
            (run, PipelineCall::Handler { op, index: 0, input })
        } else if kind == 2 {
            match v {
                JsonValue::Array(items) => {
                    if items.len() == 0 {
                        let e = JsonValue::Array(Vec::new());
                        assert(view_of(e) == ValueView { text: "[]"@, items: Some(Seq::<JsonValue>::empty()) }) by {
                            reveal_strlit("[]");
                            assert(json_text(e) =~= "[]"@);
                            assert(view_of(e).items.unwrap() =~= Seq::<JsonValue>::empty());
                        }
                        return Self::enter(ops, op + 1, e);
                    }
                    let input = items[0].copy();
                    let run = PipelineRun {
                        ops,
                        op,
                        current: JsonValue::Null,
                        pending: Pending::Element { items, next: 0, done: Vec::new() },
                    };
                    (run, PipelineCall::Handler { op, index: 0, input })
                },
                _ => {
                    let run = PipelineRun { ops, op, current: JsonValue::Null, pending: Pending::Over };
                    (run, PipelineCall::Finished(Err(String::from_str("Pipeline map expects a JSON array"))))
                },
            }
        } else if kind == 3 {
            if n > 0 {
                let input = v.copy();
                let run = PipelineRun { ops, op, current: v, pending: Pending::Test { next: 0 } };
                (run, PipelineCall::Condition { op, index: 0, input })
            } else if other {
                let input = v.copy();
                let run = PipelineRun { ops, op, current: v, pending: Pending::Single };
                (run, PipelineCall::Handler { op, index: 0, input })
            } else {
                let run = PipelineRun { ops, op, current: JsonValue::Null, pending: Pending::Over };
                (
                    run,
                    PipelineCall::Finished(
                        Err(String::from_str("No condition matched in pipeline conditional")),
                    ),
                )
            }
        } else {
            let input = v.copy();
            let run = PipelineRun { ops, op, current: v, pending: Pending::Single };
            (run, PipelineCall::Handler { op, index: 0, input })
        }
    }

    /// Starts a pipeline of `ops` on `input`, with its first request.
    pub fn start(ops: Vec<PipelineOp>, input: JsonValue) -> (res: (PipelineRun, PipelineCall))
        ensures
            res.0.ops() == ops@,
            res.0.wf(),
            call_fits(ops@, res.1),
            entered(ops@, 0, view_of(input), res.0, res.1),
    {
        Self::enter(ops, 0, input)
    }
}

/// The fallback flag of a conditional operation; false otherwise.
pub open spec fn has_fallback(o: PipelineOp) -> bool {
    match o {
        PipelineOp::Conditional { has_otherwise, .. } => has_otherwise,
        _ => false,
    }
}

/// The view of the object whose members are `m`.
pub open spec fn object_view(m: Seq<(String, JsonValue)>) -> ValueView {
    ValueView { text: seq!['{'] + members_text(m, m.len()) + seq!['}'], items: None }
}

/// The view of the array whose items are `d`.
pub open spec fn array_view(d: Seq<JsonValue>) -> ValueView {
    ValueView { text: seq!['['] + items_text(d, d.len()) + seq![']'], items: Some(d) }
}

/// Whether the run `n` and its request `call` are what answering the run `o`
/// with `event` leads to.
pub open spec fn stepped(o: PipelineRun, event: PipelineEvent, n: PipelineRun, call: PipelineCall) -> bool {
    let ops = o.ops();
    let op = o.op() as int;
    let cur = json_text(o.current());
    match event {
        PipelineEvent::Output(Err(e)) => {
            &&& n.op() == o.op()
            &&& n.pending() is Over
            &&& call == PipelineCall::Finished(Err::<JsonValue, String>(e))
        },
        PipelineEvent::Output(Ok(x)) => match o.pending() {
            Pending::Single => entered(ops, op + 1, view_of(x), n, call),
            Pending::Branch { next, merged } => {
                let names = branch_names(ops[op]);
                if next + 1 < names.len() {
                    &&& n.op() == o.op()
                    &&& n.current() == o.current()
                    &&& n.pending() matches Pending::Branch { next: n2, merged: m2 } && n2 == next + 1
                        && member_set(merged@, names[next as int]@, x, m2@)
                    &&& asks(call, op, next + 1, cur)
                } else {
                    exists|m2: Seq<(String, JsonValue)>|
                        #[trigger] member_set(merged@, names[next as int]@, x, m2) && entered(
                            ops,
                            op + 1,
                            object_view(m2),
                            n,
                            call,
                        )
                }
            },
            Pending::Element { items, next, done } => if next + 1 < items@.len() {
                &&& n.op() == o.op()
                &&& n.pending() matches Pending::Element { items: i2, next: n2, done: d2 } && i2 == items
                    && n2 == next + 1 && d2@ == done@.push(x)
                &&& asks(call, op, 0, json_text(items@[next + 1]))
            } else {
                entered(ops, op + 1, array_view(done@.push(x)), n, call)
            },
            _ => false,
        },
        PipelineEvent::Matched(held) => match o.pending() {
            Pending::Test { next } => if held {
                n.op() == o.op() && n.pending() is Single && asks(call, op, next as int, cur)
            } else if next + 1 < condition_count(ops[op]) {
                &&& n.op() == o.op()
                &&& json_text(n.current()) == cur
                &&& n.pending() == Pending::Test { next: (next + 1) as usize }
                &&& tests(call, op, next + 1, cur)
            } else if has_fallback(ops[op]) {
                n.op() == o.op() && n.pending() is Single && asks(call, op, condition_count(ops[op]) as int, cur)
            } else {
                n.op() == o.op() && n.pending() is Over && fails_with(
                    call,
                    "No condition matched in pipeline conditional"@,
                )
            },
            _ => false,
        },
    }
}

impl PipelineRun {
    /// The run after `event` answers the request of `o`.
    fn advance(o: PipelineRun, event: PipelineEvent) -> (res: (PipelineRun, PipelineCall))
        requires
            o.wf(),
            o.expects(event),
        ensures
            res.0.ops() == o.ops(),
            res.0.wf(),
            call_fits(o.ops(), res.1),
            stepped(o, event, res.0, res.1),
    {
        let ghost go = o;
        let PipelineRun { ops, op, current, pending } = o;
        let nops = ops.len();
        assert(op < nops);
        match event {
            PipelineEvent::Output(Err(e)) => {
                let run = PipelineRun { ops, op, current: JsonValue::Null, pending: Pending::Over };
                (run, PipelineCall::Finished(Err(e)))
            },
            PipelineEvent::Output(Ok(x)) => match pending {
                Pending::Branch { next, merged } => {
                    let (_, n, _) = shape(&ops[op]);
                    let mut merged = merged;
                    let ghost before = merged@;
                    match &ops[op] {
                        PipelineOp::Parallel(names) => {
                            insert_sorted(&mut merged, &names[next], x);
                        },
                        _ => {},
                    }
                    if next + 1 < n {
                        let input = current.copy();
                        let run = PipelineRun {
                            ops,
                            op,
                            current,
                            pending: Pending::Branch { next: next + 1, merged },
                        };
                        (run, PipelineCall::Handler { op, index: next + 1, input })
                    } else {
                        let ghost m2 = merged@;
                        let obj = JsonValue::Object(merged);
                        let res = Self::enter(ops, op + 1, obj);
                        assert(view_of(obj) == object_view(m2));
                        assert(member_set(before, branch_names(go.ops()[op as int])[next as int]@, x, m2));
                        res
                    }
                },
                Pending::Element { items, next, done } => {
                    let ni = items.len();
                    assert(next < ni);
                    let mut done = done;
                    done.push(x);
                    if next + 1 < items.len() {
                        let input = items[next + 1].copy();
                        let run = PipelineRun {
                            ops,
                            op,
                            current,
                            pending: Pending::Element { items, next: next + 1, done },
                        };
                        (run, PipelineCall::Handler { op, index: 0, input })
                    } else {
                        let ghost d = done@;
                        let arr = JsonValue::Array(done);
                        assert(view_of(arr) == array_view(d));
                        Self::enter(ops, op + 1, arr)
                    }
                },
                _ => Self::enter(ops, op + 1, x),
            },
            PipelineEvent::Matched(held) => {
                let next = match pending {
                    Pending::Test { next } => next,
                    _ => 0,
                };
                let (_, n, other) = shape(&ops[op]);
                if held {
                    let run = PipelineRun { ops, op, current: JsonValue::Null, pending: Pending::Single };
                    (run, PipelineCall::Handler { op, index: next, input: current })
                } else if next + 1 < n {
                    let input = current.copy();
                    let run = PipelineRun { ops, op, current, pending: Pending::Test { next: next + 1 } };
                    (run, PipelineCall::Condition { op, index: next + 1, input })
                } else if other {
                    let run = PipelineRun { ops, op, current: JsonValue::Null, pending: Pending::Single };
                    (run, PipelineCall::Handler { op, index: n, input: current })
                } else {
                    let run = PipelineRun { ops, op, current: JsonValue::Null, pending: Pending::Over };
                    (
                        run,
                        PipelineCall::Finished(
                            Err(String::from_str("No condition matched in pipeline conditional")),
                        ),
                    )
                }
            },
        }
    }

    /// Answers the run's request with `event` and gives the next request.
    pub fn step(&mut self, event: PipelineEvent) -> (call: PipelineCall)
        requires
            old(self).wf(),
            old(self).expects(event),
        ensures
            final(self).wf(),
            final(self).ops() == old(self).ops(),
            call_fits(final(self).ops(), call),
            stepped(*old(self), event, *final(self), call),
    {
        let mut o = PipelineRun {
            ops: Vec::new(),
            op: 0,
            current: JsonValue::Null,
            pending: Pending::Over,
        };
        std::mem::swap(&mut o, self);
        let (run, call) = Self::advance(o, event);
        *self = run;
        call
    }

    /// Whether the run is over.
    pub fn is_over(&self) -> (r: bool)
        ensures
            r == (self.pending() is Over),
    {
        match self.pending {
            Pending::Over => true,
            _ => false,
        }
    }
}

} // verus!
