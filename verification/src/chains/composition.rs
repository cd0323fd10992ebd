//! Metrics of composed chains: each step's name, duration and outcome.

use vstd::prelude::*;
use vstd::string::*;
use crate::json::{json_text, JsonValue};
use crate::text::{decimal, u64_to_string, usize_to_string};

verus! {

/// Metrics for a single step execution.
#[derive(Debug, Clone)]
pub struct StepMetric {
    /// Name of the step.
    pub step_name: String,
    /// Duration in milliseconds.
    pub duration_ms: u64,
    /// Whether the step succeeded.
    pub success: bool,
}

/// Tracks execution metrics across chain steps.
pub struct ChainMetrics {
    metrics: Vec<StepMetric>,
}

/// The total of the durations of `ms[0..n)`.
pub open spec fn total_ms(ms: Seq<StepMetric>, n: nat) -> nat
    decreases n,
{
    if n == 0 || n > ms.len() {
        0
    } else {
        total_ms(ms, (n - 1) as nat) + ms[n - 1].duration_ms as nat
    }
}

proof fn lemma_total_ms_grows(ms: Seq<StepMetric>, n: nat, m: nat)
    requires
        n <= m <= ms.len(),
    ensures
        total_ms(ms, n) <= total_ms(ms, m),
    decreases m - n,
{
    if m > n {
        lemma_total_ms_grows(ms, n, (m - 1) as nat);
    }
}

impl ChainMetrics {
    /// The recorded steps, oldest first.
    pub closed spec fn steps(&self) -> Seq<StepMetric> {
        self.metrics@
    }

    /// Create an empty metrics tracker.
    pub fn new() -> (r: Self)
        ensures
            r.steps().len() == 0,
    {
        ChainMetrics { metrics: Vec::new() }
    }

    /// Record a step execution.
    pub fn record(&mut self, step_name: &str, duration_ms: u64, success: bool)
        ensures
            final(self).steps().len() == old(self).steps().len() + 1,
            final(self).steps().drop_last() == old(self).steps(),
            final(self).steps().last().step_name@ == step_name@,
            final(self).steps().last().duration_ms == duration_ms,
            final(self).steps().last().success == success,
    {
        let ghost before = self.metrics@;
        self.metrics.push(StepMetric { step_name: String::from_str(step_name), duration_ms, success });
        assert(self.metrics@.drop_last() =~= before);
    }

    /// Total duration across all recorded steps; the total must fit in a `u64`.
    pub fn total_duration_ms(&self) -> (r: u64)
        requires
            total_ms(self.steps(), self.steps().len()) <= u64::MAX,
        ensures
            r == total_ms(self.steps(), self.steps().len()),
    {
        let mut total: u64 = 0;
        let mut i: usize = 0;
        while i < self.metrics.len()
            invariant
                i <= self.metrics@.len(),
                total == total_ms(self.metrics@, i as nat),
                total_ms(self.metrics@, self.metrics@.len()) <= u64::MAX,
            decreases self.metrics.len() - i,
        {
            proof {
                lemma_total_ms_grows(self.metrics@, (i + 1) as nat, self.metrics@.len());
            }
            total = total + self.metrics[i].duration_ms;
            i = i + 1;
        }
        total
    }

    /// All step metrics.
    pub fn step_metrics(&self) -> (r: &[StepMetric])
        ensures
            r@ == self.steps(),
    {
        self.metrics.as_slice()
    }
}

/// The number of successful steps among `ms[0..n)`.
pub open spec fn successes(ms: Seq<StepMetric>, n: nat) -> nat
    decreases n,
{
    if n == 0 || n > ms.len() {
        0
    } else {
        successes(ms, (n - 1) as nat) + if ms[n - 1].success {
            1nat
        } else {
            0nat
        }
    }
}

/// Whether `v` is the JSON object of step metric `m`, keys in sorted order:
/// `duration_ms`, `step_name`, `success`.
pub open spec fn step_object(v: JsonValue, m: StepMetric) -> bool {
    match v {
        JsonValue::Object(ms) => {
            &&& ms@.len() == 3
            &&& ms@[0].0@ == "duration_ms"@
            &&& json_text(ms@[0].1) == decimal(m.duration_ms as nat)
            &&& ms@[1].0@ == "step_name"@
            &&& ms@[1].1 is Str
            &&& ms@[1].1->Str_0@ == m.step_name@
            &&& ms@[2].0@ == "success"@
            &&& ms@[2].1 == JsonValue::Bool(m.success)
        },
        _ => false,
    }
}

/// Whether `v` is the JSON object of metrics `steps`, keys in sorted order:
/// `step_count`, `steps` (one object per step) and `total_duration_ms`.
pub open spec fn metrics_object(v: JsonValue, steps: Seq<StepMetric>) -> bool {
    match v {
        JsonValue::Object(ms) => {
            &&& ms@.len() == 3
            &&& ms@[0].0@ == "step_count"@
            &&& json_text(ms@[0].1) == decimal(steps.len())
            &&& ms@[1].0@ == "steps"@
            &&& ms@[1].1 is Array
            &&& ms@[1].1->Array_0@.len() == steps.len()
            &&& forall|i: int|
                0 <= i < steps.len() ==> step_object(#[trigger] ms@[1].1->Array_0@[i], steps[i])
            &&& ms@[2].0@ == "total_duration_ms"@
            &&& json_text(ms@[2].1) == decimal(total_ms(steps, steps.len()))
        },
        _ => false,
    }
}

/// Recording a step adds its duration to the total and, when it succeeded,
/// one to the successes; the steps before it keep theirs.
pub proof fn law_record_accumulates(before: Seq<StepMetric>, after: Seq<StepMetric>)
    requires
        after.len() == before.len() + 1,
        after.drop_last() == before,
    ensures
        total_ms(after, after.len()) == total_ms(before, before.len()) + after.last().duration_ms,
        successes(after, after.len()) == successes(before, before.len()) + if after.last().success {
            1nat
        } else {
            0nat
        },
{
    lemma_prefix_totals(before, after, before.len());
}

proof fn lemma_prefix_totals(before: Seq<StepMetric>, after: Seq<StepMetric>, n: nat)
    requires
        n <= before.len(),
        after.len() == before.len() + 1,
        after.drop_last() == before,
    ensures
        total_ms(after, n) == total_ms(before, n),
        successes(after, n) == successes(before, n),
    decreases n,
{
    if n > 0 {
        lemma_prefix_totals(before, after, (n - 1) as nat);
        assert(after[n - 1] == before[n - 1]);
    }
}

impl ChainMetrics {
    /// How many recorded steps succeeded.
    pub fn success_count(&self) -> (r: usize)
        ensures
            r == successes(self.steps(), self.steps().len()),
    {
        let mut count: usize = 0;
        let mut i: usize = 0;
        while i < self.metrics.len()
            invariant
                i <= self.metrics@.len(),
                count == successes(self.metrics@, i as nat),
                count <= i,
            decreases self.metrics.len() - i,
        {
            if self.metrics[i].success {
                count = count + 1;
            }
            i = i + 1;
        }
        count
    }

    /// The metrics as a JSON object, keys in sorted order: `step_count`,
    /// `steps` (one object per step) and `total_duration_ms`. The success
    /// rate, a float, is left for the caller to add.
    pub fn to_json(&self) -> (r: JsonValue)
        requires
            total_ms(self.steps(), self.steps().len()) <= u64::MAX,
        ensures
            metrics_object(r, self.steps()),
    {
        let mut items: Vec<JsonValue> = Vec::new();
        let mut i: usize = 0;
        while i < self.metrics.len()
            invariant
                i <= self.metrics@.len(),
                items@.len() == i,
                forall|k: int| 0 <= k < i ==> step_object(#[trigger] items@[k], self.metrics@[k]),
            decreases self.metrics.len() - i,
        {
            let m = &self.metrics[i];
            let mut members: Vec<(String, JsonValue)> = Vec::new();
            members.push((String::from_str("duration_ms"), JsonValue::Number(u64_to_string(m.duration_ms))));
            members.push((String::from_str("step_name"), JsonValue::Str(m.step_name.clone())));
            members.push((String::from_str("success"), JsonValue::Bool(m.success)));
            let item = JsonValue::Object(members);
            items.push(item);
            i = i + 1;
        }
        let total = self.total_duration_ms();
        let mut top: Vec<(String, JsonValue)> = Vec::new();
        top.push((String::from_str("step_count"), JsonValue::Number(usize_to_string(self.metrics.len()))));
        top.push((String::from_str("steps"), JsonValue::Array(items)));
        top.push((String::from_str("total_duration_ms"), JsonValue::Number(u64_to_string(total))));
        JsonValue::Object(top)
    }
}

impl Default for ChainMetrics {
    fn default() -> (r: Self)
        ensures
            r.steps().len() == 0,
    {
        Self::new()
    }
}

} // verus!
