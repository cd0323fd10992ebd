//! Callback phases, event records, a console handler that keeps a log, a
//! metrics handler that counts events and times runs, and the events a
//! scope emits around a run.
//!
//! Times come from the caller: timestamps as seconds since the Unix epoch,
//! durations from readings of a monotonic clock in nanoseconds.

use vstd::prelude::*;
use vstd::string::*;
use crate::json::{compact_json_text, json_text, JsonValue};
use crate::keyed::{
    find_key, has_key, lemma_value_at_index, lemma_value_at_push, lemma_value_at_remove,
    lemma_value_at_update, unique_keys, value_at,
};
use crate::text::{decimal, ends_with, has_suffix, opt_text, push_string, str_eq, u64_to_string};

verus! {

/// Identifies the lifecycle phase of an event.
#[derive(Debug, Clone, Hash)]
pub enum CallbackPhase {
    /// A chain has started executing.
    ChainStart,
    /// A chain has finished executing.
    ChainEnd,
    /// A chain encountered an error.
    ChainError,
    /// An LLM call has started.
    LlmStart,
    /// An LLM call has finished.
    LlmEnd,
    /// An LLM call encountered an error.
    LlmError,
    /// A tool invocation has started.
    ToolStart,
    /// A tool invocation has finished.
    ToolEnd,
    /// A tool invocation encountered an error.
    ToolError,
    /// A retriever query has started.
    RetrieverStart,
    /// A retriever query has finished.
    RetrieverEnd,
    /// A user-defined phase.
    Custom(String),
}

/// Whether two phases are the same: the same variant, and for custom phases
/// the same name.
pub open spec fn same_phase(a: CallbackPhase, b: CallbackPhase) -> bool {
    match (a, b) {
        (CallbackPhase::Custom(x), CallbackPhase::Custom(y)) => x@ == y@,
        (CallbackPhase::Custom(_), _) => false,
        (_, CallbackPhase::Custom(_)) => false,
        _ => a == b,
    }
}

impl PartialEq for CallbackPhase {
    fn eq(&self, other: &Self) -> (r: bool) {
        match (self, other) {
            (CallbackPhase::ChainStart, CallbackPhase::ChainStart) => true,
            (CallbackPhase::ChainEnd, CallbackPhase::ChainEnd) => true,
            (CallbackPhase::ChainError, CallbackPhase::ChainError) => true,
            (CallbackPhase::LlmStart, CallbackPhase::LlmStart) => true,
            (CallbackPhase::LlmEnd, CallbackPhase::LlmEnd) => true,
            (CallbackPhase::LlmError, CallbackPhase::LlmError) => true,
            (CallbackPhase::ToolStart, CallbackPhase::ToolStart) => true,
            (CallbackPhase::ToolEnd, CallbackPhase::ToolEnd) => true,
            (CallbackPhase::ToolError, CallbackPhase::ToolError) => true,
            (CallbackPhase::RetrieverStart, CallbackPhase::RetrieverStart) => true,
            (CallbackPhase::RetrieverEnd, CallbackPhase::RetrieverEnd) => true,
            (CallbackPhase::Custom(x), CallbackPhase::Custom(y)) => str_eq(x.as_str(), y.as_str()),
            _ => false,
        }
    }
}

impl vstd::std_specs::cmp::PartialEqSpecImpl for CallbackPhase {
    open spec fn obeys_eq_spec() -> bool {
        true
    }

    open spec fn eq_spec(&self, other: &CallbackPhase) -> bool {
        same_phase(*self, *other)
    }
}

impl Eq for CallbackPhase {

}

/// The name a phase is written with.
pub open spec fn phase_name(p: CallbackPhase) -> Seq<char> {
    match p {
        CallbackPhase::ChainStart => "chain_start"@,
        CallbackPhase::ChainEnd => "chain_end"@,
        CallbackPhase::ChainError => "chain_error"@,
        CallbackPhase::LlmStart => "llm_start"@,
        CallbackPhase::LlmEnd => "llm_end"@,
        CallbackPhase::LlmError => "llm_error"@,
        CallbackPhase::ToolStart => "tool_start"@,
        CallbackPhase::ToolEnd => "tool_end"@,
        CallbackPhase::ToolError => "tool_error"@,
        CallbackPhase::RetrieverStart => "retriever_start"@,
        CallbackPhase::RetrieverEnd => "retriever_end"@,
        CallbackPhase::Custom(s) => s@,
    }
}

/// The phase reported when a scope that would end with `end` fails: the
/// error phase of chains, LLM calls and tools, otherwise `end` itself.
pub open spec fn error_phase_spec(end: CallbackPhase) -> CallbackPhase {
    match end {
        CallbackPhase::ChainEnd => CallbackPhase::ChainError,
        CallbackPhase::LlmEnd => CallbackPhase::LlmError,
        CallbackPhase::ToolEnd => CallbackPhase::ToolError,
        other => other,
    }
}

impl CallbackPhase {
    /// Returns a string representation of this phase.
    pub fn as_str(&self) -> (r: &str)
        ensures
            r@ == phase_name(*self),
    {
        match self {
            CallbackPhase::ChainStart => "chain_start",
            CallbackPhase::ChainEnd => "chain_end",
            CallbackPhase::ChainError => "chain_error",
            CallbackPhase::LlmStart => "llm_start",
            CallbackPhase::LlmEnd => "llm_end",
            CallbackPhase::LlmError => "llm_error",
            CallbackPhase::ToolStart => "tool_start",
            CallbackPhase::ToolEnd => "tool_end",
            CallbackPhase::ToolError => "tool_error",
            CallbackPhase::RetrieverStart => "retriever_start",
            CallbackPhase::RetrieverEnd => "retriever_end",
            CallbackPhase::Custom(s) => s.as_str(),
        }
    }

    /// The phase's name as an owned string, as it is displayed.
    pub fn to_string(&self) -> (r: String)
        ensures
            r@ == phase_name(*self),
    {
        String::from_str(self.as_str())
    }

    /// A copy of this phase.
    pub fn copy(&self) -> (r: CallbackPhase)
        ensures
            same_phase(r, *self),
            phase_name(r) == phase_name(*self),
    {
        match self {
            CallbackPhase::Custom(s) => CallbackPhase::Custom(s.clone()),
            CallbackPhase::ChainStart => CallbackPhase::ChainStart,
            CallbackPhase::ChainEnd => CallbackPhase::ChainEnd,
            CallbackPhase::ChainError => CallbackPhase::ChainError,
            CallbackPhase::LlmStart => CallbackPhase::LlmStart,
            CallbackPhase::LlmEnd => CallbackPhase::LlmEnd,
            CallbackPhase::LlmError => CallbackPhase::LlmError,
            CallbackPhase::ToolStart => CallbackPhase::ToolStart,
            CallbackPhase::ToolEnd => CallbackPhase::ToolEnd,
            CallbackPhase::ToolError => CallbackPhase::ToolError,
            CallbackPhase::RetrieverStart => CallbackPhase::RetrieverStart,
            CallbackPhase::RetrieverEnd => CallbackPhase::RetrieverEnd,
        }
    }

    /// The phase a failed scope reports instead of this end phase.
    pub fn error_phase(&self) -> (r: CallbackPhase)
        ensures
            same_phase(r, error_phase_spec(*self)),
    {
        match self {
            CallbackPhase::ChainEnd => CallbackPhase::ChainError,
            CallbackPhase::LlmEnd => CallbackPhase::LlmError,
            CallbackPhase::ToolEnd => CallbackPhase::ToolError,
            other => other.copy(),
        }
    }
}

/// Whether `phase` is among `phases`.
pub open spec fn phase_listed(phases: Seq<CallbackPhase>, phase: CallbackPhase) -> bool {
    exists|i: int| 0 <= i < phases.len() && same_phase(#[trigger] phases[i], phase)
}

/// Whether a handler that only accepts `phases` handles events of `phase`.
pub fn handles_phase(phases: &[CallbackPhase], phase: &CallbackPhase) -> (r: bool)
    ensures
        r == phase_listed(phases@, *phase),
{
    let mut i: usize = 0;
    while i < phases.len()
        invariant
            i <= phases@.len(),
            forall|k: int| 0 <= k < i ==> !same_phase(#[trigger] phases@[k], *phase),
        decreases phases.len() - i,
    {
        if phases[i] == *phase {
            return true;
        }
        i = i + 1;
    }
    false
}

/// Structured event payload emitted through the callback system.
#[derive(Debug)]
pub struct CallbackData {
    /// The lifecycle phase this event belongs to.
    pub phase: CallbackPhase,
    /// Unique identifier for this run.
    pub run_id: String,
    /// Optional parent run id for nested runs.
    pub parent_run_id: Option<String>,
    /// Arbitrary JSON payload.
    pub data: JsonValue,
    /// The event's timestamp.
    pub timestamp: String,
}

/// Whether `v` is the JSON string `s`.
pub open spec fn is_json_str(v: JsonValue, s: Seq<char>) -> bool {
    match v {
        JsonValue::Str(x) => x@ == s,
        _ => false,
    }
}

/// Whether `v` is the JSON object of event `d`: `data`, `parent_run_id`
/// (null when there is none), `phase`, `run_id` and `timestamp`, in that
/// (key) order.
pub open spec fn event_object(v: JsonValue, d: CallbackData) -> bool {
    match v {
        JsonValue::Object(m) => {
            &&& m@.len() == 5
            &&& m@[0].0@ == "data"@ && json_text(m@[0].1) == json_text(d.data)
            &&& m@[1].0@ == "parent_run_id"@ && match d.parent_run_id {
                Some(p) => is_json_str(m@[1].1, p@),
                None => m@[1].1 is Null,
            }
            &&& m@[2].0@ == "phase"@ && is_json_str(m@[2].1, phase_name(d.phase))
            &&& m@[3].0@ == "run_id"@ && is_json_str(m@[3].1, d.run_id@)
            &&& m@[4].0@ == "timestamp"@ && is_json_str(m@[4].1, d.timestamp@)
        },
        _ => false,
    }
}

impl CallbackData {
    /// The event as a JSON object: `data`, `parent_run_id` (null when
    /// there is none), `phase`, `run_id` and `timestamp`.
    pub fn to_json(&self) -> (r: JsonValue)
        ensures
            event_object(r, *self),
    {
        let parent = match &self.parent_run_id {
            Some(p) => JsonValue::Str(p.clone()),
            None => JsonValue::Null,
        };
        let members = vec![
            (String::from_str("data"), self.data.copy()),
            (String::from_str("parent_run_id"), parent),
            (String::from_str("phase"), JsonValue::Str(self.phase.to_string())),
            (String::from_str("run_id"), JsonValue::Str(self.run_id.clone())),
            (String::from_str("timestamp"), JsonValue::Str(self.timestamp.clone())),
        ];
        let r = JsonValue::Object(members);
        r
    }

    /// A copy of this event.
    pub fn copy(&self) -> (r: CallbackData)
        ensures
            same_phase(r.phase, self.phase),
            phase_name(r.phase) == phase_name(self.phase),
            r.run_id@ == self.run_id@,
            opt_text(r.parent_run_id) == opt_text(self.parent_run_id),
            json_text(r.data) == json_text(self.data),
            r.timestamp@ == self.timestamp@,
    {
        CallbackData {
            phase: self.phase.copy(),
            run_id: self.run_id.clone(),
            parent_run_id: match &self.parent_run_id {
                Some(p) => Some(p.clone()),
                None => None,
            },
            data: self.data.copy(),
            timestamp: self.timestamp.clone(),
        }
    }
}

/// The timestamp given to an event built at `secs` seconds since the Unix
/// epoch without one of its own.
pub open spec fn default_timestamp(secs: u64) -> Seq<char> {
    decimal(secs as nat) + "s"@
}

/// Builds [`CallbackData`] step by step.
#[derive(Debug)]
pub struct CallbackDataBuilder {
    phase: CallbackPhase,
    run_id: String,
    parent_run_id: Option<String>,
    data: JsonValue,
    timestamp: Option<String>,
}

impl CallbackDataBuilder {
    /// The event being built.
    pub closed spec fn pending(&self) -> (CallbackPhase, Seq<char>, Option<Seq<char>>, JsonValue, Option<Seq<char>>) {
        (self.phase, self.run_id@, opt_text(self.parent_run_id), self.data, opt_text(self.timestamp))
    }

    /// A builder for an event of `phase` in run `run_id`, with a null
    /// payload.
    pub fn new(phase: CallbackPhase, run_id: &str) -> (r: Self)
        ensures
            r.pending() == (phase, run_id@, None::<Seq<char>>, JsonValue::Null, None::<Seq<char>>),
    {
        CallbackDataBuilder {
            phase,
            run_id: String::from_str(run_id),
            parent_run_id: None,
            data: JsonValue::Null,
            timestamp: None,
        }
    }

    /// Sets the parent run id.
    pub fn parent_run_id(self, id: &str) -> (r: Self)
        ensures
            r.pending() == (self.pending().0, self.pending().1, Some(id@), self.pending().3, self.pending().4),
    {
        CallbackDataBuilder { parent_run_id: Some(String::from_str(id)), ..self }
    }

    /// Sets the payload.
    pub fn data(self, data: JsonValue) -> (r: Self)
        ensures
            r.pending() == (self.pending().0, self.pending().1, self.pending().2, data, self.pending().4),
    {
        CallbackDataBuilder { data, ..self }
    }

    /// Sets the timestamp.
    pub fn timestamp(self, ts: &str) -> (r: Self)
        ensures
            r.pending() == (self.pending().0, self.pending().1, self.pending().2, self.pending().3, Some(ts@)),
    {
        CallbackDataBuilder { timestamp: Some(String::from_str(ts)), ..self }
    }

    /// The event; without a timestamp of its own it is stamped with
    /// `now_secs`, the seconds since the Unix epoch, followed by `s`.
    pub fn build(self, now_secs: u64) -> (r: CallbackData)
        ensures
            r.phase == self.pending().0,
            r.run_id@ == self.pending().1,
            opt_text(r.parent_run_id) == self.pending().2,
            r.data == self.pending().3,
            r.timestamp@ == match self.pending().4 {
                Some(t) => t,
                None => default_timestamp(now_secs),
            },
    {
        let timestamp = match self.timestamp {
            Some(t) => t,
            None => {
                let mut t = u64_to_string(now_secs);
                t.append("s");
                t
            },
        };
        CallbackData {
            phase: self.phase,
            run_id: self.run_id,
            parent_run_id: self.parent_run_id,
            data: self.data,
            timestamp,
        }
    }
}

/// A callback handler that logs events to an internal buffer.
pub struct ConsoleCallbackHandler {
    logs: Vec<String>,
}

/// The log line written for an event.
pub open spec fn log_line(d: CallbackData) -> Seq<char> {
    "["@ + d.timestamp@ + "] "@ + phase_name(d.phase) + " run="@ + d.run_id@ + " data="@ + compact_json_text(
        d.data,
    )
}

impl ConsoleCallbackHandler {
    /// The lines logged so far, oldest first.
    pub closed spec fn lines(&self) -> Seq<Seq<char>> {
        self.logs@.map_values(|s: String| s@)
    }

    /// Creates a new handler with an empty log buffer.
    pub fn new() -> (r: Self)
        ensures
            r.lines() == Seq::<Seq<char>>::empty(),
    {
        let r = ConsoleCallbackHandler { logs: Vec::new() };
        assert(r.lines() =~= Seq::<Seq<char>>::empty());
        r
    }

    /// Returns a snapshot of all log lines.
    pub fn logs(&self) -> (r: Vec<String>)
        ensures
            r@.map_values(|s: String| s@) == self.lines(),
    {
        let mut out: Vec<String> = Vec::new();
        let mut i: usize = 0;
        while i < self.logs.len()
            invariant
                i <= self.logs@.len(),
                out@.len() == i,
                forall|k: int| 0 <= k < i ==> (#[trigger] out@[k])@ == self.logs@[k]@,
            decreases self.logs.len() - i,
        {
            out.push(self.logs[i].clone());
            i = i + 1;
        }
        assert(out@.map_values(|s: String| s@) =~= self.lines());
        out
    }

    /// Clears the log buffer.
    pub fn clear(&mut self)
        ensures
            final(self).lines() == Seq::<Seq<char>>::empty(),
    {
        self.logs = Vec::new();
        assert(self.lines() =~= Seq::<Seq<char>>::empty());
    }

    /// Records an event as one log line.
    pub fn on_event(&mut self, data: &CallbackData)
        ensures
            final(self).lines() == old(self).lines().push(log_line(*data)),
    {
        let ghost before = self.lines();
        let mut line = String::from_str("[");
        push_string(&mut line, &data.timestamp);
        line.append("] ");
        line.append(data.phase.as_str());
        line.append(" run=");
        push_string(&mut line, &data.run_id);
        line.append(" data=");
        let text = data.data.to_json_text();
        push_string(&mut line, &text);
        let ghost lv = line@;
        self.logs.push(line);
        assert(self.lines() =~= before.push(lv));
    }

    /// Human-readable name of this handler.
    pub fn name(&self) -> (r: &'static str)
        ensures
            r@ == "ConsoleCallbackHandler"@,
    {
        "ConsoleCallbackHandler"
    }
}

impl Default for ConsoleCallbackHandler {
    fn default() -> (r: Self)
        ensures
            r.lines() == Seq::<Seq<char>>::empty(),
    {
        Self::new()
    }
}

// ---------------------------------------------------------------------------
// Metrics handler
// ---------------------------------------------------------------------------

/// Counts events per phase and times runs: a phase whose name ends with
/// `_start` notes when its run started, one ending with `_end` or `_error`
/// records the time since, under its own phase.
pub struct MetricsCallbackHandler {
    counts: Vec<(String, usize)>,
    durations: Vec<(String, Vec<u128>)>,
    pending: Vec<(String, u128)>,
}

/// The count of phase `k`, zero when unseen.
pub open spec fn count_of(v: Seq<(String, usize)>, k: Seq<char>) -> nat {
    match value_at(v, k) {
        Some(c) => c as nat,
        None => 0,
    }
}

/// The duration samples of phase `k`, none when unseen.
pub open spec fn samples_of(v: Seq<(String, Vec<u128>)>, k: Seq<char>) -> Seq<u128> {
    match value_at(v, k) {
        Some(s) => s@,
        None => Seq::empty(),
    }
}

/// The sum of the first `n` counts.
pub open spec fn count_total(v: Seq<(String, usize)>, n: nat) -> nat
    decreases n,
{
    if n == 0 || n > v.len() {
        0
    } else {
        count_total(v, (n - 1) as nat) + v[n - 1].1 as nat
    }
}

/// Whether a phase name starts a run.
pub open spec fn starts_run(name: Seq<char>) -> bool {
    has_suffix(name, "_start"@)
}

/// Whether a phase name ends a run.
pub open spec fn ends_run(name: Seq<char>) -> bool {
    has_suffix(name, "_end"@) || has_suffix(name, "_error"@)
}

/// Time from `start` to `now`; zero when the clock reads earlier.
pub open spec fn elapsed(start: u128, now: u128) -> u128 {
    if now >= start {
        (now - start) as u128
    } else {
        0
    }
}

impl MetricsCallbackHandler {
    /// Events seen per phase name.
    pub closed spec fn counts(&self) -> Seq<(String, usize)> {
        self.counts@
    }

    /// Duration samples per phase name, in nanoseconds.
    pub closed spec fn durations(&self) -> Seq<(String, Vec<u128>)> {
        self.durations@
    }

    /// When each open run started.
    pub closed spec fn starts(&self) -> Seq<(String, u128)> {
        self.pending@
    }

    /// Each key appears once in each table.
    pub open spec fn wf(&self) -> bool {
        unique_keys(self.counts()) && unique_keys(self.durations()) && unique_keys(self.starts())
    }

    /// No count is at its largest value.
    pub open spec fn has_room(&self) -> bool {
        forall|k: Seq<char>| #[trigger] has_key(self.counts(), k) ==> count_of(self.counts(), k) < usize::MAX
    }

    /// A handler that has seen nothing.
    pub fn new() -> (r: Self)
        ensures
            r.wf(),
            r.counts().len() == 0,
            r.durations().len() == 0,
            r.starts().len() == 0,
    {
        MetricsCallbackHandler { counts: Vec::new(), durations: Vec::new(), pending: Vec::new() }
    }

    /// Counts one more event of phase `k`.
    fn bump(&mut self, k: &str)
        requires
            old(self).wf(),
            old(self).has_room(),
        ensures
            final(self).wf(),
            final(self).durations() == old(self).durations(),
            final(self).starts() == old(self).starts(),
            forall|q: Seq<char>| #[trigger] value_at(final(self).counts(), q) == if q == k@ {
                Some((count_of(old(self).counts(), k@) + 1) as usize)
            } else {
                value_at(old(self).counts(), q)
            },
    {
        match find_key(&self.counts, k) {
            Some(i) => {
                proof {
                    lemma_value_at_index(self.counts@, i as int);
                    assert(has_key(self.counts@, k@));
                }
                let e = (String::from_str(k), self.counts[i].1 + 1);
                proof {
                    lemma_value_at_update(self.counts@, i as int, e);
                }
                self.counts.set(i, e);
            },
            None => {
                let e = (String::from_str(k), 1usize);
                proof {
                    lemma_value_at_push(self.counts@, e);
                }
                self.counts.push(e);
            },
        }
    }

    /// Adds a duration sample to phase `k`.
    fn add_sample(&mut self, k: &str, d: u128)
        requires
            old(self).wf(),
        ensures
            final(self).wf(),
            final(self).counts() == old(self).counts(),
            final(self).starts() == old(self).starts(),
            forall|q: Seq<char>| #[trigger] samples_of(final(self).durations(), q) == if q == k@ {
                samples_of(old(self).durations(), k@).push(d)
            } else {
                samples_of(old(self).durations(), q)
            },
    {
        match find_key(&self.durations, k) {
            Some(i) => {
                let ghost before = self.durations@;
                proof {
                    lemma_value_at_index(before, i as int);
                    lemma_value_at_remove(before, i as int);
                }
                let (key, mut samples) = self.durations.remove(i);
                samples.push(d);
                let e = (key, samples);
                proof {
                    lemma_value_at_push(self.durations@, e);
                    assert forall|q: Seq<char>| #[trigger] samples_of(self.durations@.push(e), q) == if q == k@ {
                        samples_of(before, k@).push(d)
                    } else {
                        samples_of(before, q)
                    } by {}
                }
                self.durations.push(e);
            },
            None => {
                let mut samples: Vec<u128> = Vec::new();
                samples.push(d);
                let e = (String::from_str(k), samples);
                proof {
                    lemma_value_at_push(self.durations@, e);
                    assert(samples@ =~= Seq::<u128>::empty().push(d));
                }
                self.durations.push(e);
            },
        }
    }

    /// Records an event seen at clock reading `now`.
    pub fn on_event(&mut self, data: &CallbackData, now: u128)
        requires
            old(self).wf(),
            old(self).has_room(),
        ensures
            final(self).wf(),
            forall|q: Seq<char>| #[trigger] value_at(final(self).counts(), q) == if q == phase_name(data.phase) {
                Some((count_of(old(self).counts(), q) + 1) as usize)
            } else {
                value_at(old(self).counts(), q)
            },
            starts_run(phase_name(data.phase)) ==> {
                &&& final(self).durations() == old(self).durations()
                &&& forall|q: Seq<char>| #[trigger] value_at(final(self).starts(), q) == if q == data.run_id@ {
                    Some(now)
                } else {
                    value_at(old(self).starts(), q)
                }
            },
            !starts_run(phase_name(data.phase)) && ends_run(phase_name(data.phase)) ==> {
                &&& forall|q: Seq<char>| #[trigger] value_at(final(self).starts(), q) == if q == data.run_id@ {
                    None
                } else {
                    value_at(old(self).starts(), q)
                }
                &&& forall|q: Seq<char>| #[trigger] samples_of(final(self).durations(), q) == match value_at(old(self).starts(), data.run_id@) {
                    Some(s) => if q == phase_name(data.phase) {
                        samples_of(old(self).durations(), q).push(elapsed(s, now))
                    } else {
                        samples_of(old(self).durations(), q)
                    },
                    None => samples_of(old(self).durations(), q),
                }
            },
            !starts_run(phase_name(data.phase)) && !ends_run(phase_name(data.phase)) ==> {
                &&& final(self).durations() == old(self).durations()
                &&& final(self).starts() == old(self).starts()
            },
    {
        let name = data.phase.as_str();
        self.bump(name);
        if ends_with(name, "_start") {
            let ghost before = self.pending@;
            match find_key(&self.pending, data.run_id.as_str()) {
                Some(i) => {
                    let e = (data.run_id.clone(), now);
                    proof {
                        lemma_value_at_update(before, i as int, e);
                    }
                    self.pending.set(i, e);
                },
                None => {
                    let e = (data.run_id.clone(), now);
                    proof {
                        lemma_value_at_push(before, e);
                    }
                    self.pending.push(e);
                },
            }
        } else if ends_with(name, "_end") || ends_with(name, "_error") {
            let ghost before = self.pending@;
            match find_key(&self.pending, data.run_id.as_str()) {
                Some(i) => {
                    proof {
                        lemma_value_at_index(before, i as int);
                        lemma_value_at_remove(before, i as int);
                    }
                    let (_, start) = self.pending.remove(i);
                    let d = if now >= start {
                        now - start
                    } else {
                        0
                    };
                    self.add_sample(name, d);
                },
                None => {
                    proof {
                        assert forall|q: Seq<char>| #[trigger] value_at(before, q) == if q == data.run_id@ {
                            None
                        } else {
                            value_at(before, q)
                        } by {}
                    }
                },
            }
        }
    }

    /// The total number of events seen.
    pub fn total_events(&self) -> (r: usize)
        requires
            count_total(self.counts(), self.counts().len()) <= usize::MAX,
        ensures
            r == count_total(self.counts(), self.counts().len()),
    {
        let mut total: usize = 0;
        let mut i: usize = 0;
        while i < self.counts.len()
            invariant
                i <= self.counts@.len(),
                total == count_total(self.counts@, i as nat),
                count_total(self.counts@, self.counts@.len()) <= usize::MAX,
            decreases self.counts.len() - i,
        {
            proof {
                lemma_count_total_grows(self.counts@, (i + 1) as nat, self.counts@.len());
            }
            total = total + self.counts[i].1;
            i = i + 1;
        }
        total
    }

    /// The number of events seen per phase name.
    pub fn events_by_phase(&self) -> (r: Vec<(String, usize)>)
        ensures
            r@.len() == self.counts().len(),
            forall|i: int|
                0 <= i < r@.len() ==> (#[trigger] r@[i]).0@ == self.counts()[i].0@ && r@[i].1
                    == self.counts()[i].1,
    {
        let mut out: Vec<(String, usize)> = Vec::new();
        let mut i: usize = 0;
        while i < self.counts.len()
            invariant
                i <= self.counts@.len(),
                out@.len() == i,
                forall|j: int|
                    0 <= j < i ==> (#[trigger] out@[j]).0@ == self.counts@[j].0@ && out@[j].1
                        == self.counts@[j].1,
            decreases self.counts.len() - i,
        {
            out.push((self.counts[i].0.clone(), self.counts[i].1));
            i = i + 1;
        }
        out
    }

    /// The duration samples of a phase, in nanoseconds, oldest first.
    pub fn durations_nanos(&self, phase: &CallbackPhase) -> (r: Vec<u128>)
        requires
            self.wf(),
        ensures
            r@ == samples_of(self.durations(), phase_name(*phase)),
    {
        match find_key(&self.durations, phase.as_str()) {
            Some(i) => {
                proof {
                    lemma_value_at_index(self.durations@, i as int);
                }
                let src = &self.durations[i].1;
                let mut out: Vec<u128> = Vec::new();
                let mut j: usize = 0;
                while j < src.len()
                    invariant
                        j <= src@.len(),
                        out@ == src@.subrange(0, j as int),
                    decreases src.len() - j,
                {
                    out.push(src[j]);
                    j = j + 1;
                }
                assert(out@ =~= src@);
                out
            },
            None => Vec::new(),
        }
    }

    /// The handler's name.
    pub fn name(&self) -> (r: &'static str)
        ensures
            r@ == "MetricsCallbackHandler"@,
    {
        "MetricsCallbackHandler"
    }
}

impl Default for MetricsCallbackHandler {
    fn default() -> (r: Self)
        ensures
            r.wf(),
            r.counts().len() == 0,
            r.durations().len() == 0,
            r.starts().len() == 0,
    {
        Self::new()
    }
}

/// Partial sums grow.
proof fn lemma_count_total_grows(v: Seq<(String, usize)>, n: nat, m: nat)
    requires
        n <= m <= v.len(),
    ensures
        count_total(v, n) <= count_total(v, m),
    decreases m - n,
{
    if n < m {
        lemma_count_total_grows(v, n, (m - 1) as nat);
    }
}

// ---------------------------------------------------------------------------
// Scopes
// ---------------------------------------------------------------------------

/// A run between a start and an end event; a failed run ends with the error
/// phase instead, its payload the error.
pub struct CallbackScope {
    phase_end: CallbackPhase,
    run_id: String,
    data: JsonValue,
    failed: Option<String>,
}

impl CallbackScope {
    /// The phase the run ends with when it does not fail.
    pub closed spec fn end_phase(&self) -> CallbackPhase {
        self.phase_end
    }

    /// The run's id.
    pub closed spec fn run(&self) -> Seq<char> {
        self.run_id@
    }

    /// The payload given at the start.
    pub closed spec fn payload(&self) -> JsonValue {
        self.data
    }

    /// The error the run failed with, if it did.
    pub closed spec fn failure(&self) -> Option<Seq<char>> {
        opt_text(self.failed)
    }

    /// Opens a scope, with the start event to emit: `phase_start` for
    /// `run_id` carrying `data`, stamped `now_secs`.
    pub fn new(
        phase_start: CallbackPhase,
        phase_end: CallbackPhase,
        run_id: &str,
        data: JsonValue,
        now_secs: u64,
    ) -> (r: (CallbackScope, CallbackData))
        ensures
            r.0.end_phase() == phase_end,
            r.0.run() == run_id@,
            json_text(r.0.payload()) == json_text(data),
            r.0.failure() is None,
            r.1.phase == phase_start,
            r.1.run_id@ == run_id@,
            r.1.parent_run_id is None,
            json_text(r.1.data) == json_text(data),
            r.1.timestamp@ == default_timestamp(now_secs),
    {
        let start = CallbackDataBuilder::new(phase_start, run_id).data(data.copy()).build(now_secs);
        let scope = CallbackScope {
            phase_end,
            run_id: String::from_str(run_id),
            data,
            failed: None,
        };
        (scope, start)
    }

    /// Marks the run as failed with `error`.
    pub fn fail(&mut self, error: &str)
        ensures
            final(self).failure() == Some(error@),
            final(self).end_phase() == old(self).end_phase(),
            final(self).run() == old(self).run(),
            final(self).payload() == old(self).payload(),
    {
        self.failed = Some(String::from_str(error));
    }

    /// Closes the scope, with the event to emit, stamped `now_secs`: the end
    /// phase with the start payload, or after a failure the error phase with
    /// `{"error": <message>}`.
    pub fn finish(self, now_secs: u64) -> (r: CallbackData)
        ensures
            r.run_id@ == self.run(),
            r.parent_run_id is None,
            r.timestamp@ == default_timestamp(now_secs),
            match self.failure() {
                Some(e) => same_phase(r.phase, error_phase_spec(self.end_phase())) && match r.data {
                    JsonValue::Object(m) => m@.len() == 1 && m@[0].0@ == "error"@ && is_json_str(m@[0].1, e),
                    _ => false,
                },
                None => r.phase == self.end_phase() && r.data == self.payload(),
            },
    {
        match self.failed {
            Some(error) => {
                let payload = JsonValue::Object(vec![(String::from_str("error"), JsonValue::Str(error))]);
                CallbackDataBuilder::new(self.phase_end.error_phase(), self.run_id.as_str()).data(
                    payload,
                ).build(now_secs)
            },
            None => CallbackDataBuilder::new(self.phase_end, self.run_id.as_str()).data(self.data).build(
                now_secs,
            ),
        }
    }
}

} // verus!
