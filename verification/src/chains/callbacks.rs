//! Chain lifecycle events and the handlers that log, count and trace them.
//!
//! Durations come from clock readings that the caller passes in, in
//! nanoseconds of a monotonic clock.

use vstd::prelude::*;
use vstd::string::*;
use crate::json::{compact_json_text, json_text, quoted, JsonValue};
use crate::keyed::{
    find_key, has_key, lemma_value_at_index, lemma_value_at_push, lemma_value_at_remove,
    lemma_value_at_update, unique_keys, value_at,
};
use crate::text::{decimal, push_string, usize_to_string};

verus! {

/// A chain lifecycle event.
#[derive(Debug)]
pub enum ChainEvent {
    ChainStart { name: String, input: JsonValue },
    ChainEnd { name: String, output: JsonValue },
    ChainError { name: String, error: String },
    StepStart { chain_name: String, step_index: usize, step_name: String },
    StepEnd { chain_name: String, step_index: usize, output: JsonValue },
    StepError { chain_name: String, step_index: usize, error: String },
}

/// The chain an event belongs to.
pub open spec fn event_chain(e: ChainEvent) -> Seq<char> {
    match e {
        ChainEvent::ChainStart { name, .. } => name@,
        ChainEvent::ChainEnd { name, .. } => name@,
        ChainEvent::ChainError { name, .. } => name@,
        ChainEvent::StepStart { chain_name, .. } => chain_name@,
        ChainEvent::StepEnd { chain_name, .. } => chain_name@,
        ChainEvent::StepError { chain_name, .. } => chain_name@,
    }
}

/// The label an event is logged with.
pub open spec fn event_label(e: ChainEvent) -> Seq<char> {
    match e {
        ChainEvent::ChainStart { .. } => "CHAIN_START"@,
        ChainEvent::ChainEnd { .. } => "CHAIN_END"@,
        ChainEvent::ChainError { .. } => "CHAIN_ERROR"@,
        ChainEvent::StepStart { .. } => "STEP_START"@,
        ChainEvent::StepEnd { .. } => "STEP_END"@,
        ChainEvent::StepError { .. } => "STEP_ERROR"@,
    }
}

/// `"key":value` in JSON text, for a value already written as text.
pub open spec fn kv_text(k: Seq<char>, t: Seq<char>) -> Seq<char> {
    quoted(k) + seq![':'] + t
}

/// The text of an event's JSON object (see `json_text`): its members in
/// sorted key order.
pub open spec fn event_text(e: ChainEvent) -> Seq<char> {
    match e {
        ChainEvent::ChainStart { name, input } => seq!['{'] + kv_text("event"@, quoted("chain_start"@))
            + seq![','] + kv_text("input"@, json_text(input)) + seq![','] + kv_text(
            "name"@,
            quoted(name@),
        ) + seq!['}'],
        ChainEvent::ChainEnd { name, output } => seq!['{'] + kv_text("event"@, quoted("chain_end"@))
            + seq![','] + kv_text("name"@, quoted(name@)) + seq![','] + kv_text(
            "output"@,
            json_text(output),
        ) + seq!['}'],
        ChainEvent::ChainError { name, error } => seq!['{'] + kv_text("error"@, quoted(error@))
            + seq![','] + kv_text("event"@, quoted("chain_error"@)) + seq![','] + kv_text(
            "name"@,
            quoted(name@),
        ) + seq!['}'],
        ChainEvent::StepStart { chain_name, step_index, step_name } => seq!['{'] + kv_text(
            "chain_name"@,
            quoted(chain_name@),
        ) + seq![','] + kv_text("event"@, quoted("step_start"@)) + seq![','] + kv_text(
            "step_index"@,
            decimal(step_index as nat),
        ) + seq![','] + kv_text("step_name"@, quoted(step_name@)) + seq!['}'],
        ChainEvent::StepEnd { chain_name, step_index, output } => seq!['{'] + kv_text(
            "chain_name"@,
            quoted(chain_name@),
        ) + seq![','] + kv_text("event"@, quoted("step_end"@)) + seq![','] + kv_text(
            "output"@,
            json_text(output),
        ) + seq![','] + kv_text("step_index"@, decimal(step_index as nat)) + seq!['}'],
        ChainEvent::StepError { chain_name, step_index, error } => seq!['{'] + kv_text(
            "chain_name"@,
            quoted(chain_name@),
        ) + seq![','] + kv_text("error"@, quoted(error@)) + seq![','] + kv_text(
            "event"@,
            quoted("step_error"@),
        ) + seq![','] + kv_text("step_index"@, decimal(step_index as nat)) + seq!['}'],
    }
}

/// `"key":value` for one member.
pub open spec fn entry_text(e: (String, JsonValue)) -> Seq<char> {
    kv_text(e.0@, json_text(e.1))
}

proof fn lemma_members3(m: Seq<(String, JsonValue)>)
    requires
        m.len() == 3,
    ensures
        crate::json::members_text(m, 3) == entry_text(m[0]) + seq![','] + entry_text(m[1]) + seq![',']
            + entry_text(m[2]),
{
    reveal_with_fuel(crate::json::members_text, 4);
    assert(crate::json::members_text(m, 1) == entry_text(m[0]));
    assert(crate::json::members_text(m, 2) == entry_text(m[0]) + seq![','] + entry_text(m[1]));
    assert(crate::json::members_text(m, 3) =~= entry_text(m[0]) + seq![','] + entry_text(m[1])
        + seq![','] + entry_text(m[2]));
}

proof fn lemma_members4(m: Seq<(String, JsonValue)>)
    requires
        m.len() == 4,
    ensures
        crate::json::members_text(m, 4) == entry_text(m[0]) + seq![','] + entry_text(m[1]) + seq![',']
            + entry_text(m[2]) + seq![','] + entry_text(m[3]),
{
    reveal_with_fuel(crate::json::members_text, 5);
    assert(crate::json::members_text(m, 1) == entry_text(m[0]));
    assert(crate::json::members_text(m, 2) == entry_text(m[0]) + seq![','] + entry_text(m[1]));
    assert(crate::json::members_text(m, 3) =~= entry_text(m[0]) + seq![','] + entry_text(m[1])
        + seq![','] + entry_text(m[2]));
    assert(crate::json::members_text(m, 4) =~= entry_text(m[0]) + seq![','] + entry_text(m[1])
        + seq![','] + entry_text(m[2]) + seq![','] + entry_text(m[3]));
}

/// An object of three members.
fn object3(a: (String, JsonValue), b: (String, JsonValue), c: (String, JsonValue)) -> (r: JsonValue)
    ensures
        json_text(r) == seq!['{'] + entry_text(a) + seq![','] + entry_text(b) + seq![','] + entry_text(c)
            + seq!['}'],
{
    let mut m: Vec<(String, JsonValue)> = Vec::new();
    m.push(a);
    m.push(b);
    m.push(c);
    proof {
        lemma_members3(m@);
    }
    let r = JsonValue::Object(m);
    assert(json_text(r) =~= seq!['{'] + entry_text(a) + seq![','] + entry_text(b) + seq![',']
        + entry_text(c) + seq!['}']);
    r
}

/// An object of four members.
fn object4(
    a: (String, JsonValue),
    b: (String, JsonValue),
    c: (String, JsonValue),
    d: (String, JsonValue),
) -> (r: JsonValue)
    ensures
        json_text(r) == seq!['{'] + entry_text(a) + seq![','] + entry_text(b) + seq![','] + entry_text(c)
            + seq![','] + entry_text(d) + seq!['}'],
{
    let mut m: Vec<(String, JsonValue)> = Vec::new();
    m.push(a);
    m.push(b);
    m.push(c);
    m.push(d);
    proof {
        lemma_members4(m@);
    }
    let r = JsonValue::Object(m);
    assert(json_text(r) =~= seq!['{'] + entry_text(a) + seq![','] + entry_text(b) + seq![',']
        + entry_text(c) + seq![','] + entry_text(d) + seq!['}']);
    r
}

/// A string member.
fn str_entry(k: &str, v: &str) -> (r: (String, JsonValue))
    ensures
        entry_text(r) == kv_text(k@, quoted(v@)),
{
    (String::from_str(k), JsonValue::Str(String::from_str(v)))
}

/// A member holding a copy of `v`.
fn val_entry(k: &str, v: &JsonValue) -> (r: (String, JsonValue))
    ensures
        entry_text(r) == kv_text(k@, json_text(*v)),
{
    (String::from_str(k), v.copy())
}

/// A number member.
fn num_entry(k: &str, n: usize) -> (r: (String, JsonValue))
    ensures
        entry_text(r) == kv_text(k@, decimal(n as nat)),
{
    (String::from_str(k), JsonValue::Number(usize_to_string(n)))
}

impl ChainEvent {
    /// The chain this event belongs to.
    pub fn name(&self) -> (r: &str)
        ensures
            r@ == event_chain(*self),
    {
        match self {
            ChainEvent::ChainStart { name, .. } => name.as_str(),
            ChainEvent::ChainEnd { name, .. } => name.as_str(),
            ChainEvent::ChainError { name, .. } => name.as_str(),
            ChainEvent::StepStart { chain_name, .. } => chain_name.as_str(),
            ChainEvent::StepEnd { chain_name, .. } => chain_name.as_str(),
            ChainEvent::StepError { chain_name, .. } => chain_name.as_str(),
        }
    }

    /// Whether this is a chain or step error.
    pub fn is_error(&self) -> (r: bool)
        ensures
            r == (*self is ChainError || *self is StepError),
    {
        match self {
            ChainEvent::ChainError { .. } | ChainEvent::StepError { .. } => true,
            _ => false,
        }
    }

    /// The event as a JSON object.
    pub fn to_json(&self) -> (r: JsonValue)
        ensures
            json_text(r) == event_text(*self),
    {
        match self {
            ChainEvent::ChainStart { name, input } => {
                let r = object3(
                    str_entry("event", "chain_start"),
                    val_entry("input", input),
                    str_entry("name", name.as_str()),
                );
                r
            },
            ChainEvent::ChainEnd { name, output } => {
                let r = object3(
                    str_entry("event", "chain_end"),
                    str_entry("name", name.as_str()),
                    val_entry("output", output),
                );
                r
            },
            ChainEvent::ChainError { name, error } => {
                let r = object3(
                    str_entry("error", error.as_str()),
                    str_entry("event", "chain_error"),
                    str_entry("name", name.as_str()),
                );
                r
            },
            ChainEvent::StepStart { chain_name, step_index, step_name } => {
                let r = object4(
                    str_entry("chain_name", chain_name.as_str()),
                    str_entry("event", "step_start"),
                    num_entry("step_index", *step_index),
                    str_entry("step_name", step_name.as_str()),
                );
                r
            },
            ChainEvent::StepEnd { chain_name, step_index, output } => {
                let r = object4(
                    str_entry("chain_name", chain_name.as_str()),
                    str_entry("event", "step_end"),
                    val_entry("output", output),
                    num_entry("step_index", *step_index),
                );
                r
            },
            ChainEvent::StepError { chain_name, step_index, error } => {
                let r = object4(
                    str_entry("chain_name", chain_name.as_str()),
                    str_entry("error", error.as_str()),
                    str_entry("event", "step_error"),
                    num_entry("step_index", *step_index),
                );
                r
            },
        }
    }

    /// The label this event is logged with.
    pub fn label(&self) -> (r: &'static str)
        ensures
            r@ == event_label(*self),
    {
        match self {
            ChainEvent::ChainStart { .. } => "CHAIN_START",
            ChainEvent::ChainEnd { .. } => "CHAIN_END",
            ChainEvent::ChainError { .. } => "CHAIN_ERROR",
            ChainEvent::StepStart { .. } => "STEP_START",
            ChainEvent::StepEnd { .. } => "STEP_END",
            ChainEvent::StepError { .. } => "STEP_ERROR",
        }
    }
}

// ---------------------------------------------------------------------------
// LoggingCallback
// ---------------------------------------------------------------------------

/// A callback that writes chain events to stderr with timestamps.
pub struct LoggingCallback;

/// What a logged line starts with, for an event at `secs` seconds since the
/// Unix epoch; the event's JSON text follows.
pub open spec fn logged_prefix(e: ChainEvent, secs: u64) -> Seq<char> {
    "["@ + decimal(secs as nat) + "] ["@ + event_label(e) + "] chain="@ + event_chain(e) + " "@
}

impl LoggingCallback {
    /// The line written for `event` at `secs` seconds since the Unix epoch.
    pub fn log_line(&self, event: &ChainEvent, secs: u64) -> (r: String)
        ensures
            exists|v: JsonValue|
                json_text(v) == event_text(*event) && r@ == logged_prefix(*event, secs) + compact_json_text(
                    v,
                ),
    {
        let mut line = String::from_str("[");
        let s = crate::text::u64_to_string(secs);
        push_string(&mut line, &s);
        line.append("] [");
        line.append(event.label());
        line.append("] chain=");
        line.append(event.name());
        line.append(" ");
        let v = event.to_json();
        let j = v.to_json_text();
        let ghost before = line@;
        push_string(&mut line, &j);
        assert(before == logged_prefix(*event, secs));
        assert(line@ == logged_prefix(*event, secs) + compact_json_text(v));
        line
    }

    /// The callback's name.
    pub fn callback_name(&self) -> (r: &'static str)
        ensures
            r@ == "LoggingCallback"@,
    {
        "LoggingCallback"
    }
}

// ---------------------------------------------------------------------------
// MetricsCallback
// ---------------------------------------------------------------------------

/// Per-chain metrics collected by [`MetricsCallback`].
#[derive(Debug, Clone, Copy, PartialEq, Eq, Structural)]
pub struct ChainMetrics {
    /// Number of completed chain runs.
    pub runs: usize,
    /// Number of steps executed.
    pub steps: usize,
    /// Number of errors (chain-level and step-level).
    pub errors: usize,
    /// Cumulative duration of all runs, in nanoseconds.
    pub total_duration_nanos: u128,
}

impl Default for ChainMetrics {
    fn default() -> (r: Self)
        ensures
            r == (ChainMetrics { runs: 0, steps: 0, errors: 0, total_duration_nanos: 0 }),
    {
        ChainMetrics { runs: 0, steps: 0, errors: 0, total_duration_nanos: 0 }
    }
}

/// A callback that tracks per-chain run counts, step counts, error counts,
/// and cumulative duration.
pub struct MetricsCallback {
    metrics: Vec<(String, ChainMetrics)>,
    active_starts: Vec<(String, u128)>,
}

/// The metrics of a chain so far, zero for a chain not seen yet.
pub open spec fn metrics_or_zero(v: Seq<(String, ChainMetrics)>, k: Seq<char>) -> ChainMetrics {
    match value_at(v, k) {
        Some(m) => m,
        None => ChainMetrics { runs: 0, steps: 0, errors: 0, total_duration_nanos: 0 },
    }
}

/// Time elapsed from `start` to `now`, or nothing without a start.
pub open spec fn elapsed_since(start: Option<u128>, now: u128) -> u128 {
    match start {
        Some(s) => if now >= s {
            (now - s) as u128
        } else {
            0
        },
        None => 0,
    }
}

/// A sum that stops at the largest value.
pub open spec fn sat_add(a: u128, b: u128) -> u128 {
    if a + b > u128::MAX {
        u128::MAX
    } else {
        (a + b) as u128
    }
}

impl MetricsCallback {
    /// The metrics per chain.
    pub closed spec fn table(&self) -> Seq<(String, ChainMetrics)> {
        self.metrics@
    }

    /// When each running chain started.
    pub closed spec fn starts(&self) -> Seq<(String, u128)> {
        self.active_starts@
    }

    /// Each chain appears once in each table.
    pub open spec fn wf(&self) -> bool {
        unique_keys(self.table()) && unique_keys(self.starts())
    }

    /// No counter is at its largest value.
    pub open spec fn has_room(&self) -> bool {
        forall|k: Seq<char>|
            #[trigger] has_key(self.table(), k) ==> {
                let m = metrics_or_zero(self.table(), k);
                m.runs < usize::MAX && m.steps < usize::MAX && m.errors < usize::MAX
            }
    }

    /// Creates a new, empty `MetricsCallback`.
    pub fn new() -> (r: Self)
        ensures
            r.wf(),
            r.table().len() == 0,
            r.starts().len() == 0,
    {
        MetricsCallback { metrics: Vec::new(), active_starts: Vec::new() }
    }

    /// Returns a snapshot of the collected metrics for all chains.
    pub fn get_metrics(&self) -> (r: Vec<(String, ChainMetrics)>)
        ensures
            r@.len() == self.table().len(),
            forall|i: int|
                0 <= i < r@.len() ==> (#[trigger] r@[i]).0@ == self.table()[i].0@ && r@[i].1
                    == self.table()[i].1,
    {
        let mut out: Vec<(String, ChainMetrics)> = Vec::new();
        let mut i: usize = 0;
        while i < self.metrics.len()
            invariant
                i <= self.metrics@.len(),
                out@.len() == i,
                forall|j: int|
                    0 <= j < i ==> (#[trigger] out@[j]).0@ == self.metrics@[j].0@ && out@[j].1
                        == self.metrics@[j].1,
            decreases self.metrics.len() - i,
        {
            out.push((self.metrics[i].0.clone(), self.metrics[i].1));
            i = i + 1;
        }
        out
    }

    /// Stores `m` as the metrics of chain `k`.
    fn put(&mut self, k: &str, m: ChainMetrics)
        requires
            old(self).wf(),
        ensures
            final(self).wf(),
            final(self).starts() == old(self).starts(),
            forall|q: Seq<char>|
                #[trigger] value_at(final(self).table(), q) == if q == k@ {
                    Some(m)
                } else {
                    value_at(old(self).table(), q)
                },
    {
        match find_key(&self.metrics, k) {
            Some(i) => {
                let e = (String::from_str(k), m);
                proof {
                    lemma_value_at_update(self.metrics@, i as int, e);
                }
                self.metrics.set(i, e);
            },
            None => {
                let e = (String::from_str(k), m);
                proof {
                    lemma_value_at_push(self.metrics@, e);
                }
                self.metrics.push(e);
            },
        }
    }

    /// The metrics of chain `k`, zero when unseen.
    fn current(&self, k: &str) -> (r: ChainMetrics)
        requires
            self.wf(),
        ensures
            r == metrics_or_zero(self.table(), k@),
    {
        match find_key(&self.metrics, k) {
            Some(i) => {
                proof {
                    lemma_value_at_index(self.metrics@, i as int);
                }
                self.metrics[i].1
            },
            None => ChainMetrics::default(),
        }
    }

    /// Removes the start of chain `k` and gives the time elapsed since it.
    fn take_elapsed(&mut self, k: &str, now: u128) -> (r: u128)
        requires
            old(self).wf(),
        ensures
            final(self).wf(),
            final(self).table() == old(self).table(),
            r == elapsed_since(value_at(old(self).starts(), k@), now),
            forall|q: Seq<char>|
                #[trigger] value_at(final(self).starts(), q) == if q == k@ {
                    None
                } else {
                    value_at(old(self).starts(), q)
                },
    {
        match find_key(&self.active_starts, k) {
            Some(i) => {
                proof {
                    lemma_value_at_index(self.active_starts@, i as int);
                    lemma_value_at_remove(self.active_starts@, i as int);
                }
                let (_, start) = self.active_starts.remove(i);
                if now >= start {
                    now - start
                } else {
                    0
                }
            },
            None => {
                proof {
                    assert forall|q: Seq<char>|
                        #[trigger] value_at(self.active_starts@, q) == if q == k@ {
                            None
                        } else {
                            value_at(self.active_starts@, q)
                        } by {}
                }
                0
            },
        }
    }

    /// Records one event that happens at clock reading `now`.
    ///
    /// A chain start notes the time; a chain end counts a run and a chain
    /// error an error, both adding the time since the start (nothing without
    /// a recorded start); a step start counts a step and a step error an
    /// error; a step end changes nothing.
    pub fn on_event(&mut self, event: &ChainEvent, now: u128)
        requires
            old(self).wf(),
            old(self).has_room(),
        ensures
            final(self).wf(),
            match *event {
                ChainEvent::ChainStart { name, .. } => {
                    &&& final(self).table() == old(self).table()
                    &&& forall|q: Seq<char>|
                        #[trigger] value_at(final(self).starts(), q) == if q == name@ {
                            Some(now)
                        } else {
                            value_at(old(self).starts(), q)
                        }
                },
                ChainEvent::ChainEnd { name, .. } => {
                    let m = metrics_or_zero(old(self).table(), name@);
                    let d = elapsed_since(value_at(old(self).starts(), name@), now);
                    &&& forall|q: Seq<char>|
                        #[trigger] value_at(final(self).table(), q) == if q == name@ {
                            Some(
                                ChainMetrics {
                                    runs: (m.runs + 1) as usize,
                                    total_duration_nanos: sat_add(m.total_duration_nanos, d),
                                    ..m
                                },
                            )
                        } else {
                            value_at(old(self).table(), q)
                        }
                    &&& forall|q: Seq<char>|
                        #[trigger] value_at(final(self).starts(), q) == if q == name@ {
                            None
                        } else {
                            value_at(old(self).starts(), q)
                        }
                },
                ChainEvent::ChainError { name, .. } => {
                    let m = metrics_or_zero(old(self).table(), name@);
                    let d = elapsed_since(value_at(old(self).starts(), name@), now);
                    &&& forall|q: Seq<char>|
                        #[trigger] value_at(final(self).table(), q) == if q == name@ {
                            Some(
                                ChainMetrics {
                                    errors: (m.errors + 1) as usize,
                                    total_duration_nanos: sat_add(m.total_duration_nanos, d),
                                    ..m
                                },
                            )
                        } else {
                            value_at(old(self).table(), q)
                        }
                    &&& forall|q: Seq<char>|
                        #[trigger] value_at(final(self).starts(), q) == if q == name@ {
                            None
                        } else {
                            value_at(old(self).starts(), q)
                        }
                },
                ChainEvent::StepStart { chain_name, .. } => {
                    let m = metrics_or_zero(old(self).table(), chain_name@);
                    &&& final(self).starts() == old(self).starts()
                    &&& forall|q: Seq<char>|
                        #[trigger] value_at(final(self).table(), q) == if q == chain_name@ {
                            Some(ChainMetrics { steps: (m.steps + 1) as usize, ..m })
                        } else {
                            value_at(old(self).table(), q)
                        }
                },
                ChainEvent::StepEnd { .. } => {
                    &&& final(self).table() == old(self).table()
                    &&& final(self).starts() == old(self).starts()
                },
                ChainEvent::StepError { chain_name, .. } => {
                    let m = metrics_or_zero(old(self).table(), chain_name@);
                    &&& final(self).starts() == old(self).starts()
                    &&& forall|q: Seq<char>|
                        #[trigger] value_at(final(self).table(), q) == if q == chain_name@ {
                            Some(ChainMetrics { errors: (m.errors + 1) as usize, ..m })
                        } else {
                            value_at(old(self).table(), q)
                        }
                },
            },
    {
        match event {
            ChainEvent::ChainStart { name, .. } => {
                let ghost before = self.active_starts@;
                match find_key(&self.active_starts, name.as_str()) {
                    Some(i) => {
                        let e = (name.clone(), now);
                        proof {
                            lemma_value_at_update(before, i as int, e);
                        }
                        self.active_starts.set(i, e);
                    },
                    None => {
                        let e = (name.clone(), now);
                        proof {
                            lemma_value_at_push(before, e);
                        }
                        self.active_starts.push(e);
                    },
                }
            },
            ChainEvent::ChainEnd { name, .. } => {
                let d = self.take_elapsed(name.as_str(), now);
                let m = self.current(name.as_str());
                proof {
                    if has_key(self.table(), name@) {
                        let i = choose|i: int|
                            0 <= i < self.table().len() && (#[trigger] self.table()[i]).0@ == name@;
                        lemma_value_at_index(self.table(), i);
                    }
                }
                let total = m.total_duration_nanos.saturating_add(d);
                self.put(name.as_str(), ChainMetrics { runs: m.runs + 1, total_duration_nanos: total, ..m });
            },
            ChainEvent::ChainError { name, .. } => {
                let d = self.take_elapsed(name.as_str(), now);
                let m = self.current(name.as_str());
                proof {
                    if has_key(self.table(), name@) {
                        let i = choose|i: int|
                            0 <= i < self.table().len() && (#[trigger] self.table()[i]).0@ == name@;
                        lemma_value_at_index(self.table(), i);
                    }
                }
                let total = m.total_duration_nanos.saturating_add(d);
                self.put(
                    name.as_str(),
                    ChainMetrics { errors: m.errors + 1, total_duration_nanos: total, ..m },
                );
            },
            ChainEvent::StepStart { chain_name, .. } => {
                let m = self.current(chain_name.as_str());
                proof {
                    if has_key(self.table(), chain_name@) {
                        let i = choose|i: int|
                            0 <= i < self.table().len() && (#[trigger] self.table()[i]).0@
                                == chain_name@;
                        lemma_value_at_index(self.table(), i);
                    }
                }
                self.put(chain_name.as_str(), ChainMetrics { steps: m.steps + 1, ..m });
            },
            ChainEvent::StepEnd { .. } => {},
            ChainEvent::StepError { chain_name, .. } => {
                let m = self.current(chain_name.as_str());
                proof {
                    if has_key(self.table(), chain_name@) {
                        let i = choose|i: int|
                            0 <= i < self.table().len() && (#[trigger] self.table()[i]).0@
                                == chain_name@;
                        lemma_value_at_index(self.table(), i);
                    }
                }
                self.put(chain_name.as_str(), ChainMetrics { errors: m.errors + 1, ..m });
            },
        }
    }

    /// The callback's name.
    pub fn callback_name(&self) -> (r: &'static str)
        ensures
            r@ == "MetricsCallback"@,
    {
        "MetricsCallback"
    }
}

impl Default for MetricsCallback {
    fn default() -> (r: Self)
        ensures
            r.wf(),
            r.table().len() == 0,
            r.starts().len() == 0,
    {
        Self::new()
    }
}


// ---------------------------------------------------------------------------
// TracingCallback
// ---------------------------------------------------------------------------

/// A traced step within a chain execution.
#[derive(Debug)]
pub struct TracedStep {
    /// Zero-based index of the step.
    pub index: usize,
    /// Name of the step.
    pub name: String,
    /// Output of the step, if available.
    pub output: Option<JsonValue>,
    /// Whether the step ended in an error.
    pub error: Option<String>,
}

/// A trace of a single chain execution.
#[derive(Debug)]
pub struct ChainTrace {
    /// Name of the chain.
    pub name: String,
    /// Duration of the chain execution, in nanoseconds.
    pub duration_nanos: u128,
    /// Steps executed within the chain.
    pub steps: Vec<TracedStep>,
    /// Final status: "success", "error: <msg>".
    pub status: String,
}

/// A chain execution in progress.
#[derive(Debug)]
pub struct ActiveTrace {
    /// The clock reading at its start.
    pub start: u128,
    /// The steps seen so far.
    pub steps: Vec<TracedStep>,
}

/// A callback that builds a trace of each chain execution.
pub struct TracingCallback {
    traces: Vec<ChainTrace>,
    active: Vec<(String, ActiveTrace)>,
}

/// Two traced steps say the same: same index, name and error, and outputs
/// with the same JSON text.
pub open spec fn same_step(a: TracedStep, b: TracedStep) -> bool {
    &&& a.index == b.index
    &&& a.name@ == b.name@
    &&& a.error == b.error
    &&& match (a.output, b.output) {
        (Some(x), Some(y)) => json_text(x) == json_text(y),
        (None, None) => true,
        _ => false,
    }
}

/// Two step lists say the same, step by step.
pub open spec fn same_steps(a: Seq<TracedStep>, b: Seq<TracedStep>) -> bool {
    a.len() == b.len() && forall|i: int| 0 <= i < a.len() ==> same_step(#[trigger] a[i], b[i])
}

/// Two traces say the same.
pub open spec fn same_trace(a: ChainTrace, b: ChainTrace) -> bool {
    &&& a.name@ == b.name@
    &&& a.duration_nanos == b.duration_nanos
    &&& same_steps(a.steps@, b.steps@)
    &&& a.status@ == b.status@
}

/// The first step of `steps` with index `idx`, if any.
pub open spec fn first_step_with(steps: Seq<TracedStep>, idx: usize, j: int) -> bool {
    0 <= j < steps.len() && steps[j].index == idx && forall|k: int| 0 <= k < j ==> (#[trigger] steps[k]).index != idx
}

/// The status of a trace ended by an error.
pub open spec fn error_status(error: Seq<char>) -> Seq<char> {
    "error: "@ + error
}

impl TracedStep {
    /// A copy of this step.
    pub fn copy(&self) -> (r: TracedStep)
        ensures
            same_step(r, *self),
    {
        TracedStep {
            index: self.index,
            name: self.name.clone(),
            output: match &self.output {
                Some(v) => Some(v.copy()),
                None => None,
            },
            error: crate::messages::copy_opt_string(&self.error),
        }
    }
}

impl ChainTrace {
    /// A copy of this trace.
    pub fn copy(&self) -> (r: ChainTrace)
        ensures
            same_trace(r, *self),
    {
        let mut steps: Vec<TracedStep> = Vec::new();
        let mut i: usize = 0;
        while i < self.steps.len()
            invariant
                i <= self.steps@.len(),
                steps@.len() == i,
                forall|k: int| 0 <= k < i ==> same_step(#[trigger] steps@[k], self.steps@[k]),
            decreases self.steps.len() - i,
        {
            steps.push(self.steps[i].copy());
            i = i + 1;
        }
        ChainTrace {
            name: self.name.clone(),
            duration_nanos: self.duration_nanos,
            steps,
            status: self.status.clone(),
        }
    }
}

/// The first step with index `idx`.
fn find_step(steps: &Vec<TracedStep>, idx: usize) -> (r: Option<usize>)
    ensures
        match r {
            Some(j) => first_step_with(steps@, idx, j as int),
            None => forall|k: int| 0 <= k < steps@.len() ==> (#[trigger] steps@[k]).index != idx,
        },
{
    let mut j: usize = 0;
    while j < steps.len()
        invariant
            j <= steps@.len(),
            forall|k: int| 0 <= k < j ==> (#[trigger] steps@[k]).index != idx,
        decreases steps.len() - j,
    {
        if steps[j].index == idx {
            return Some(j);
        }
        j = j + 1;
    }
    None
}

impl TracingCallback {
    /// The completed traces, oldest first.
    pub closed spec fn done(&self) -> Seq<ChainTrace> {
        self.traces@
    }

    /// The running chains with their traces so far.
    pub closed spec fn running(&self) -> Seq<(String, ActiveTrace)> {
        self.active@
    }

    /// Each running chain appears once.
    pub open spec fn wf(&self) -> bool {
        unique_keys(self.running())
    }

    /// Creates a new, empty `TracingCallback`.
    pub fn new() -> (r: Self)
        ensures
            r.wf(),
            r.done().len() == 0,
            r.running().len() == 0,
    {
        TracingCallback { traces: Vec::new(), active: Vec::new() }
    }

    /// Returns all completed traces.
    pub fn get_traces(&self) -> (r: Vec<ChainTrace>)
        ensures
            r@.len() == self.done().len(),
            forall|i: int| 0 <= i < r@.len() ==> same_trace(#[trigger] r@[i], self.done()[i]),
    {
        let mut out: Vec<ChainTrace> = Vec::new();
        let mut i: usize = 0;
        while i < self.traces.len()
            invariant
                i <= self.traces@.len(),
                out@.len() == i,
                forall|k: int| 0 <= k < i ==> same_trace(#[trigger] out@[k], self.traces@[k]),
            decreases self.traces.len() - i,
        {
            out.push(self.traces[i].copy());
            i = i + 1;
        }
        out
    }

    /// Ends the running chain at position `i` with `status`.
    fn close(&mut self, i: usize, status: String, now: u128)
        requires
            old(self).wf(),
            i < old(self).running().len(),
        ensures
            final(self).wf(),
            forall|q: Seq<char>|
                #[trigger] value_at(final(self).running(), q) == if q == old(self).running()[i as int].0@ {
                    None
                } else {
                    value_at(old(self).running(), q)
                },
            final(self).done().len() == old(self).done().len() + 1,
            final(self).done().subrange(0, old(self).done().len() as int) == old(self).done(),
            final(self).done().last().name@ == old(self).running()[i as int].0@,
            final(self).done().last().duration_nanos == elapsed_since(
                Some(old(self).running()[i as int].1.start),
                now,
            ),
            final(self).done().last().steps == old(self).running()[i as int].1.steps,
            final(self).done().last().status == status,
    {
        proof {
            lemma_value_at_remove(self.active@, i as int);
        }
        let (name, a) = self.active.remove(i);
        let duration = if now >= a.start {
            now - a.start
        } else {
            0
        };
        self.traces.push(ChainTrace { name, duration_nanos: duration, steps: a.steps, status });
    }

    /// Records one event that happens at clock reading `now`.
    ///
    /// A chain start opens a trace (replacing a running one of the same
    /// name); a chain end or error closes the chain's trace with status
    /// `success` or `error: <message>` and the time since its start; a step
    /// start adds a step to the chain's trace; a step end or error fills in
    /// the output or the error of the first step with that index. Events of
    /// chains that are not running change nothing.
    pub fn on_event(&mut self, event: &ChainEvent, now: u128)
        requires
            old(self).wf(),
        ensures
            final(self).wf(),
            match *event {
                ChainEvent::ChainStart { name, .. } => {
                    &&& final(self).done() == old(self).done()
                    &&& forall|q: Seq<char>|
                        q != name@ ==> #[trigger] value_at(final(self).running(), q) == value_at(
                            old(self).running(),
                            q,
                        )
                    &&& value_at(final(self).running(), name@) matches Some(a) && a.start == now
                        && a.steps@.len() == 0
                },
                ChainEvent::ChainEnd { name, .. } => if has_key(old(self).running(), name@) {
                    let a = value_at(old(self).running(), name@).unwrap();
                    &&& final(self).done().len() == old(self).done().len() + 1
                    &&& final(self).done().subrange(0, old(self).done().len() as int) == old(self).done()
                    &&& final(self).done().last().name@ == name@
                    &&& final(self).done().last().duration_nanos == elapsed_since(Some(a.start), now)
                    &&& final(self).done().last().steps == a.steps
                    &&& final(self).done().last().status@ == "success"@
                    &&& forall|q: Seq<char>|
                        #[trigger] value_at(final(self).running(), q) == if q == name@ {
                            None
                        } else {
                            value_at(old(self).running(), q)
                        }
                } else {
                    final(self).done() == old(self).done() && final(self).running() == old(self).running()
                },
                ChainEvent::ChainError { name, error } => if has_key(old(self).running(), name@) {
                    let a = value_at(old(self).running(), name@).unwrap();
                    &&& final(self).done().len() == old(self).done().len() + 1
                    &&& final(self).done().subrange(0, old(self).done().len() as int) == old(self).done()
                    &&& final(self).done().last().name@ == name@
                    &&& final(self).done().last().duration_nanos == elapsed_since(Some(a.start), now)
                    &&& final(self).done().last().steps == a.steps
                    &&& final(self).done().last().status@ == error_status(error@)
                    &&& forall|q: Seq<char>|
                        #[trigger] value_at(final(self).running(), q) == if q == name@ {
                            None
                        } else {
                            value_at(old(self).running(), q)
                        }
                } else {
                    final(self).done() == old(self).done() && final(self).running() == old(self).running()
                },
                ChainEvent::StepStart { chain_name, step_index, step_name } => {
                    &&& final(self).done() == old(self).done()
                    &&& forall|q: Seq<char>|
                        q != chain_name@ ==> #[trigger] value_at(final(self).running(), q) == value_at(
                            old(self).running(),
                            q,
                        )
                    &&& has_key(old(self).running(), chain_name@) ==> {
                        let a = value_at(old(self).running(), chain_name@).unwrap();
                        value_at(final(self).running(), chain_name@) matches Some(b) && b.start
                            == a.start && b.steps@.len() == a.steps@.len() + 1 && b.steps@.subrange(
                            0,
                            a.steps@.len() as int,
                        ) == a.steps@ && b.steps@.last().index == step_index
                            && b.steps@.last().name@ == step_name@ && b.steps@.last().output is None
                            && b.steps@.last().error is None
                    }
                    &&& !has_key(old(self).running(), chain_name@) ==> final(self).running()
                        == old(self).running()
                },
                ChainEvent::StepEnd { chain_name, step_index, output } => {
                    &&& final(self).done() == old(self).done()
                    &&& forall|q: Seq<char>|
                        q != chain_name@ ==> #[trigger] value_at(final(self).running(), q) == value_at(
                            old(self).running(),
                            q,
                        )
                    &&& has_key(old(self).running(), chain_name@) ==> {
                        let a = value_at(old(self).running(), chain_name@).unwrap();
                        value_at(final(self).running(), chain_name@) matches Some(b) && b.start
                            == a.start && b.steps@.len() == a.steps@.len() && forall|j: int|
                            0 <= j < a.steps@.len() ==> if first_step_with(a.steps@, step_index, j) {
                                &&& b.steps@[j].index == a.steps@[j].index
                                &&& b.steps@[j].name == a.steps@[j].name
                                &&& b.steps@[j].error == a.steps@[j].error
                                &&& (b.steps@[j].output matches Some(o) && json_text(o) == json_text(
                                    output,
                                ))
                            } else {
                                #[trigger] b.steps@[j] == a.steps@[j]
                            }
                    }
                    &&& !has_key(old(self).running(), chain_name@) ==> final(self).running()
                        == old(self).running()
                },
                ChainEvent::StepError { chain_name, step_index, error } => {
                    &&& final(self).done() == old(self).done()
                    &&& forall|q: Seq<char>|
                        q != chain_name@ ==> #[trigger] value_at(final(self).running(), q) == value_at(
                            old(self).running(),
                            q,
                        )
                    &&& has_key(old(self).running(), chain_name@) ==> {
                        let a = value_at(old(self).running(), chain_name@).unwrap();
                        value_at(final(self).running(), chain_name@) matches Some(b) && b.start
                            == a.start && b.steps@.len() == a.steps@.len() && forall|j: int|
                            0 <= j < a.steps@.len() ==> if first_step_with(a.steps@, step_index, j) {
                                &&& b.steps@[j].index == a.steps@[j].index
                                &&& b.steps@[j].name == a.steps@[j].name
                                &&& b.steps@[j].error == Some(error)
                                &&& match (b.steps@[j].output, a.steps@[j].output) {
                                    (Some(x), Some(y)) => json_text(x) == json_text(y),
                                    (None, None) => true,
                                    _ => false,
                                }
                            } else {
                                #[trigger] b.steps@[j] == a.steps@[j]
                            }
                    }
                    &&& !has_key(old(self).running(), chain_name@) ==> final(self).running()
                        == old(self).running()
                },
            },
    {
        match event {
            ChainEvent::ChainStart { name, .. } => {
                let e = (name.clone(), ActiveTrace { start: now, steps: Vec::new() });
                assert(e.0@ == name@);
                assert(e.1.steps@.len() == 0);
                let ghost ev = e.1;
                match find_key(&self.active, name.as_str()) {
                    Some(i) => {
                        proof {
                            lemma_value_at_update(self.active@, i as int, e);
                        }
                        self.active.set(i, e);
                    },
                    None => {
                        proof {
                            lemma_value_at_push(self.active@, e);
                        }
                        self.active.push(e);
                    },
                }
                assert(value_at(self.active@, name@) == Some(ev));
            },
            ChainEvent::ChainEnd { name, .. } => {
                if let Some(i) = find_key(&self.active, name.as_str()) {
                    proof {
                        lemma_value_at_index(self.active@, i as int);
                    }
                    self.close(i, String::from_str("success"), now);
                }
            },
            ChainEvent::ChainError { name, error } => {
                if let Some(i) = find_key(&self.active, name.as_str()) {
                    proof {
                        lemma_value_at_index(self.active@, i as int);
                    }
                    let mut status = String::from_str("error: ");
                    push_string(&mut status, error);
                    self.close(i, status, now);
                }
            },
            ChainEvent::StepStart { chain_name, step_index, step_name } => {
                if let Some(i) = find_key(&self.active, chain_name.as_str()) {
                    proof {
                        lemma_value_at_index(self.active@, i as int);
                    }
                    let ghost before = self.active@;
                    let (k, mut a) = self.active.remove(i);
                    let ghost a0 = a.steps@;
                    a.steps.push(
                        TracedStep { index: *step_index, name: step_name.clone(), output: None, error: None },
                    );
                    let e = (k, a);
                    proof {
                        lemma_value_at_update(before, i as int, e);
                        assert(before.remove(i as int).insert(i as int, e) =~= before.update(i as int, e));
                        assert(e.1.steps@.subrange(0, a0.len() as int) =~= a0);
                    }
                    self.active.insert(i, e);
                }
            },
            ChainEvent::StepEnd { chain_name, step_index, output } => {
                if let Some(i) = find_key(&self.active, chain_name.as_str()) {
                    proof {
                        lemma_value_at_index(self.active@, i as int);
                    }
                    let ghost before = self.active@;
                    let (k, mut a) = self.active.remove(i);
                    let ghost a0 = a.steps@;
                    if let Some(j) = find_step(&a.steps, *step_index) {
                        let old_step = &a.steps[j];
                        let s = TracedStep {
                            index: old_step.index,
                            name: old_step.name.clone(),
                            output: Some(output.copy()),
                            error: crate::messages::copy_opt_string(&old_step.error),
                        };
                        a.steps.set(j, s);
                        proof {
                            assert forall|m: int| 0 <= m < a0.len() && !first_step_with(a0, *step_index, m)
                                implies #[trigger] a.steps@[m] == a0[m] by {
                                if m == j {
                                    assert(first_step_with(a0, *step_index, m));
                                }
                            }
                            assert forall|m: int| 0 <= m < a0.len() && first_step_with(a0, *step_index, m)
                                implies m == j by {
                                if m < j {
                                    assert(a0[m].index != *step_index);
                                }
                                if j < m {
                                    assert(a0[j as int].index != *step_index);
                                }
                            }
                        }
                    } else {
                        proof {
                            assert forall|m: int| 0 <= m < a0.len() implies !first_step_with(a0, *step_index, m) by {}
                        }
                    }
                    let e = (k, a);
                    proof {
                        lemma_value_at_update(before, i as int, e);
                        assert(before.remove(i as int).insert(i as int, e) =~= before.update(i as int, e));
                    }
                    self.active.insert(i, e);
                }
            },
            ChainEvent::StepError { chain_name, step_index, error } => {
                if let Some(i) = find_key(&self.active, chain_name.as_str()) {
                    proof {
                        lemma_value_at_index(self.active@, i as int);
                    }
                    let ghost before = self.active@;
                    let (k, mut a) = self.active.remove(i);
                    let ghost a0 = a.steps@;
                    if let Some(j) = find_step(&a.steps, *step_index) {
                        let old_step = &a.steps[j];
                        let s = TracedStep {
                            index: old_step.index,
                            name: old_step.name.clone(),
                            output: match &old_step.output {
                                Some(v) => Some(v.copy()),
                                None => None,
                            },
                            error: Some(error.clone()),
                        };
                        a.steps.set(j, s);
                        proof {
                            assert forall|m: int| 0 <= m < a0.len() && !first_step_with(a0, *step_index, m)
                                implies #[trigger] a.steps@[m] == a0[m] by {
                                if m == j {
                                    assert(first_step_with(a0, *step_index, m));
                                }
                            }
                            assert forall|m: int| 0 <= m < a0.len() && first_step_with(a0, *step_index, m)
                                implies m == j by {
                                if m < j {
                                    assert(a0[m].index != *step_index);
                                }
                                if j < m {
                                    assert(a0[j as int].index != *step_index);
                                }
                            }
                        }
                    } else {
                        proof {
                            assert forall|m: int| 0 <= m < a0.len() implies !first_step_with(a0, *step_index, m) by {}
                        }
                    }
                    let e = (k, a);
                    proof {
                        lemma_value_at_update(before, i as int, e);
                        assert(before.remove(i as int).insert(i as int, e) =~= before.update(i as int, e));
                    }
                    self.active.insert(i, e);
                }
            },
        }
    }

    /// The callback's name.
    pub fn callback_name(&self) -> (r: &'static str)
        ensures
            r@ == "TracingCallback"@,
    {
        "TracingCallback"
    }
}

impl Default for TracingCallback {
    fn default() -> (r: Self)
        ensures
            r.wf(),
            r.done().len() == 0,
            r.running().len() == 0,
    {
        Self::new()
    }
}

// ---------------------------------------------------------------------------
// Copies of events
// ---------------------------------------------------------------------------

/// Whether two events are the same: same kind, names and indexes, and
/// payloads with the same JSON text.
pub open spec fn same_event(a: ChainEvent, b: ChainEvent) -> bool {
    match (a, b) {
        (ChainEvent::ChainStart { name: n1, input: i1 }, ChainEvent::ChainStart { name: n2, input: i2 }) => n1@
            == n2@ && json_text(i1) == json_text(i2),
        (ChainEvent::ChainEnd { name: n1, output: o1 }, ChainEvent::ChainEnd { name: n2, output: o2 }) => n1@
            == n2@ && json_text(o1) == json_text(o2),
        (ChainEvent::ChainError { name: n1, error: e1 }, ChainEvent::ChainError { name: n2, error: e2 }) => n1@
            == n2@ && e1@ == e2@,
        (
            ChainEvent::StepStart { chain_name: c1, step_index: i1, step_name: s1 },
            ChainEvent::StepStart { chain_name: c2, step_index: i2, step_name: s2 },
        ) => c1@ == c2@ && i1 == i2 && s1@ == s2@,
        (
            ChainEvent::StepEnd { chain_name: c1, step_index: i1, output: o1 },
            ChainEvent::StepEnd { chain_name: c2, step_index: i2, output: o2 },
        ) => c1@ == c2@ && i1 == i2 && json_text(o1) == json_text(o2),
        (
            ChainEvent::StepError { chain_name: c1, step_index: i1, error: e1 },
            ChainEvent::StepError { chain_name: c2, step_index: i2, error: e2 },
        ) => c1@ == c2@ && i1 == i2 && e1@ == e2@,
        _ => false,
    }
}

impl ChainEvent {
    /// A copy of this event.
    pub fn copy(&self) -> (r: ChainEvent)
        ensures
            same_event(r, *self),
    {
        match self {
            ChainEvent::ChainStart { name, input } => ChainEvent::ChainStart {
                name: name.clone(),
                input: input.copy(),
            },
            ChainEvent::ChainEnd { name, output } => ChainEvent::ChainEnd {
                name: name.clone(),
                output: output.copy(),
            },
            ChainEvent::ChainError { name, error } => ChainEvent::ChainError {
                name: name.clone(),
                error: error.clone(),
            },
            ChainEvent::StepStart { chain_name, step_index, step_name } => ChainEvent::StepStart {
                chain_name: chain_name.clone(),
                step_index: *step_index,
                step_name: step_name.clone(),
            },
            ChainEvent::StepEnd { chain_name, step_index, output } => ChainEvent::StepEnd {
                chain_name: chain_name.clone(),
                step_index: *step_index,
                output: output.copy(),
            },
            ChainEvent::StepError { chain_name, step_index, error } => ChainEvent::StepError {
                chain_name: chain_name.clone(),
                step_index: *step_index,
                error: error.clone(),
            },
        }
    }
}

// ---------------------------------------------------------------------------
// FilterCallback
// ---------------------------------------------------------------------------

/// The name of a filter around a callback named `inner`.
pub fn filter_callback_name(inner: &str) -> (r: String)
    ensures
        r@ == "FilterCallback("@ + inner@ + ")"@,
{
    let mut n = String::from_str("FilterCallback(");
    n.append(inner);
    n.append(")");
    n
}

// ---------------------------------------------------------------------------
// CallbackScope
// ---------------------------------------------------------------------------

/// The events of one run of a chain: a start when the scope opens, step
/// events while it runs, and an end or an error when it closes. Closing
/// consumes the scope; a scope given up without closing yields an error
/// event that says so. The caller hands each event to its callbacks.
pub struct CallbackScope {
    chain_name: String,
}

/// The message of the event of a scope given up without closing.
pub open spec fn abandoned_message() -> Seq<char> {
    "scope dropped without finish"@
}

impl CallbackScope {
    /// The chain the scope runs.
    pub closed spec fn chain(&self) -> Seq<char> {
        self.chain_name@
    }

    /// Opens a scope for `chain_name`, with its start event.
    pub fn new(chain_name: &str, input: JsonValue) -> (r: (CallbackScope, ChainEvent))
        ensures
            r.0.chain() == chain_name@,
            r.1 matches ChainEvent::ChainStart { name, input: i } && name@ == chain_name@ && i == input,
    {
        let scope = CallbackScope { chain_name: String::from_str(chain_name) };
        let event = ChainEvent::ChainStart { name: String::from_str(chain_name), input };
        (scope, event)
    }

    /// The start of step `index`, named `name`.
    pub fn step(&self, index: usize, name: &str) -> (r: ChainEvent)
        ensures
            r matches ChainEvent::StepStart { chain_name, step_index, step_name } && chain_name@
                == self.chain() && step_index == index && step_name@ == name@,
    {
        ChainEvent::StepStart {
            chain_name: self.chain_name.clone(),
            step_index: index,
            step_name: String::from_str(name),
        }
    }

    /// The end of step `index`, with its output.
    pub fn step_end(&self, index: usize, output: JsonValue) -> (r: ChainEvent)
        ensures
            r matches ChainEvent::StepEnd { chain_name, step_index, output: o } && chain_name@
                == self.chain() && step_index == index && o == output,
    {
        ChainEvent::StepEnd { chain_name: self.chain_name.clone(), step_index: index, output }
    }

    /// The failure of step `index`.
    pub fn step_error(&self, index: usize, error: &str) -> (r: ChainEvent)
        ensures
            r matches ChainEvent::StepError { chain_name, step_index, error: e } && chain_name@
                == self.chain() && step_index == index && e@ == error@,
    {
        ChainEvent::StepError {
            chain_name: self.chain_name.clone(),
            step_index: index,
            error: String::from_str(error),
        }
    }

    /// Closes the scope with the chain's output.
    pub fn finish(self, output: JsonValue) -> (r: ChainEvent)
        ensures
            r matches ChainEvent::ChainEnd { name, output: o } && name@ == self.chain() && o == output,
    {
        ChainEvent::ChainEnd { name: self.chain_name, output }
    }

    /// Closes the scope with an error.
    pub fn error(self, error: &str) -> (r: ChainEvent)
        ensures
            r matches ChainEvent::ChainError { name, error: e } && name@ == self.chain() && e@ == error@,
    {
        ChainEvent::ChainError { name: self.chain_name, error: String::from_str(error) }
    }

    /// Gives the scope up without closing it.
    pub fn abandon(self) -> (r: ChainEvent)
        ensures
            r matches ChainEvent::ChainError { name, error: e } && name@ == self.chain() && e@
                == abandoned_message(),
    {
        ChainEvent::ChainError {
            name: self.chain_name,
            error: String::from_str("scope dropped without finish"),
        }
    }
}

// ---------------------------------------------------------------------------
// RecordingCallback
// ---------------------------------------------------------------------------

/// A callback that records the events it is handed, for inspection.
pub struct RecordingCallback {
    events: Vec<ChainEvent>,
    name: String,
}

impl RecordingCallback {
    /// The events recorded, oldest first.
    pub closed spec fn recorded(&self) -> Seq<ChainEvent> {
        self.events@
    }

    /// The callback's name.
    pub closed spec fn spec_name(&self) -> Seq<char> {
        self.name@
    }

    /// A callback named `name` that has recorded nothing.
    pub fn new(name: &str) -> (r: Self)
        ensures
            r.recorded().len() == 0,
            r.spec_name() == name@,
    {
        RecordingCallback { events: Vec::new(), name: String::from_str(name) }
    }

    /// Records an event.
    pub fn on_event(&mut self, event: &ChainEvent)
        ensures
            final(self).recorded().len() == old(self).recorded().len() + 1,
            final(self).recorded().subrange(0, old(self).recorded().len() as int) == old(self).recorded(),
            same_event(final(self).recorded().last(), *event),
            final(self).spec_name() == old(self).spec_name(),
    {
        self.events.push(event.copy());
    }

    /// Copies of the events recorded, oldest first.
    pub fn events(&self) -> (r: Vec<ChainEvent>)
        ensures
            r@.len() == self.recorded().len(),
            forall|i: int| 0 <= i < r@.len() ==> same_event(#[trigger] r@[i], self.recorded()[i]),
    {
        let mut out: Vec<ChainEvent> = Vec::new();
        let mut i: usize = 0;
        while i < self.events.len()
            invariant
                i <= self.events@.len(),
                out@.len() == i,
                forall|k: int| 0 <= k < i ==> same_event(#[trigger] out@[k], self.events@[k]),
            decreases self.events.len() - i,
        {
            out.push(self.events[i].copy());
            i = i + 1;
        }
        out
    }

    /// The number of events recorded.
    pub fn event_count(&self) -> (r: usize)
        ensures
            r == self.recorded().len(),
    {
        self.events.len()
    }

    /// The callback's name.
    pub fn callback_name(&self) -> (r: &str)
        ensures
            r@ == self.spec_name(),
    {
        self.name.as_str()
    }
}

} // verus!
