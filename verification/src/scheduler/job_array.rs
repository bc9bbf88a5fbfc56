//! Job arrays: one specification that stands for many tasks.

use vstd::prelude::*;
use vstd::string::*;
use crate::model::error::{BuboError, ErrorView};
use crate::text::{
    bounded_value, dec, decimal, lemma_dec_injective, parse_bounded, split_at_first, split_first,
    trim, trimmed,
};

verus! {

/// Specification for a job array.
///
/// Supported texts:
/// - `"0-99"`: indices 0 to 99, step 1
/// - `"1-10:2"`: indices 1, 3, 5, 7, 9
/// - `"0-99%5"`: indices 0 to 99, at most 5 at a time
/// - `"1-10:2%3"`: step and concurrency combined
#[derive(Debug, Clone, Copy, PartialEq, Eq)]
pub struct JobArraySpec {
    pub start: u32,
    /// Inclusive end index.
    pub end: u32,
    /// Step between indices.
    pub step: u32,
    /// Maximum number of tasks that run at a time, if there is one.
    pub max_concurrent: Option<u32>,
}

/// A single task of a job array.
#[derive(Debug, Clone, PartialEq, Eq)]
pub struct ExpandedJob {
    /// Name of the task, such as `"my-job_3"` for array index 3.
    pub name: String,
    /// Its index in the array.
    pub array_index: u32,
    /// Name of the array job.
    pub parent_name: String,
}

/// Content of an [`ExpandedJob`].
pub ghost struct TaskView {
    pub name: Seq<char>,
    pub array_index: int,
    pub parent_name: Seq<char>,
}

impl DeepView for ExpandedJob {
    type V = TaskView;

    open spec fn deep_view(&self) -> TaskView {
        TaskView {
            name: self.name@,
            array_index: self.array_index as int,
            parent_name: self.parent_name@,
        }
    }
}

/// The number that a part of the text denotes.
pub open spec fn index_value(text: Seq<char>) -> Option<nat> {
    bounded_value(text, u32::MAX as nat)
}

/// What is wrong with a text that describes no job array, or nothing. The parts are
/// looked at in this order: concurrency, step, start, end.
pub open spec fn array_fault(input: Seq<char>) -> Option<Seq<char>> {
    let s = trimmed(input);
    let in_spec = " in job array spec '"@ + s + "'"@;
    let (range, conc) = split_first(s, '%');
    let (bounds, step) = split_first(range, ':');
    let (start, end) = split_first(bounds, '-');
    if conc is Some && index_value(conc->0) is None {
        Some("invalid max_concurrent value '"@ + conc->0 + "'"@ + in_spec)
    } else if conc is Some && index_value(conc->0) == Some(0nat) {
        Some("max_concurrent must be >= 1"@ + in_spec)
    } else if step is Some && index_value(step->0) is None {
        Some("invalid step value '"@ + step->0 + "'"@ + in_spec)
    } else if step is Some && index_value(step->0) == Some(0nat) {
        Some("step must be >= 1"@ + in_spec)
    } else if end is None {
        Some("missing '-' separator"@ + in_spec + "; expected 'start-end'"@)
    } else if index_value(start) is None {
        Some("invalid start index '"@ + start + "'"@ + in_spec)
    } else if index_value(end->0) is None {
        Some("invalid end index '"@ + end->0 + "'"@ + in_spec)
    } else if index_value(end->0)->0 < index_value(start)->0 {
        Some(
            "end index "@ + dec(index_value(end->0)->0) + " < start index "@ + dec(
                index_value(start)->0,
            ) + in_spec,
        )
    } else {
        None
    }
}

impl JobArraySpec {
    /// Whether `self` is what the text describes, where it describes an array: its
    /// bounds, its step, which is 1 unless the text states another, and its
    /// concurrency, which has no limit unless the text states one.
    pub open spec fn described_by(self, input: Seq<char>) -> bool {
        let (range, conc) = split_first(trimmed(input), '%');
        let (bounds, step) = split_first(range, ':');
        let (start, end) = split_first(bounds, '-');
        &&& index_value(start) == Some(self.start as nat)
        &&& end is Some && index_value(end->0) == Some(self.end as nat)
        &&& match step {
            Some(text) => index_value(text) == Some(self.step as nat),
            None => self.step == 1,
        }
        &&& match conc {
            Some(text) => self.max_concurrent is Some && index_value(text) == Some(
                self.max_concurrent->0 as nat,
            ),
            None => self.max_concurrent is None,
        }
    }

    /// Whether the tasks of the array can be counted off: it has none, or its step
    /// leads on.
    pub open spec fn countable(self) -> bool {
        self.end < self.start || self.step > 0
    }

    /// Number of tasks.
    pub open spec fn count(self) -> nat {
        if self.end < self.start {
            0
        } else {
            ((self.end - self.start) / self.step as int + 1) as nat
        }
    }

    /// The tasks, in the order of their indices.
    pub open spec fn tasks(self, parent: Seq<char>) -> Seq<TaskView> {
        Seq::new(
            self.count(),
            |k: int|
                TaskView {
                    name: parent + "_"@ + dec((self.start + k * self.step) as nat),
                    array_index: self.start + k * self.step,
                    parent_name: parent,
                },
        )
    }
}

fn refuse(what: String, input: &str, end: &str) -> (r: BuboError)
    ensures
        r@ == (ErrorView::ValidationError {
            reason: what@ + (" in job array spec '"@ + input@ + "'"@) + end@,
        }),
{
    let mut spec_part = " in job array spec '".to_owned();
    spec_part.append(input);
    spec_part.append("'");
    let mut reason = what;
    reason.append(spec_part.as_str());
    reason.append(end);
    BuboError::ValidationError { reason }
}

fn quoted(before: &str, text: &str) -> (r: String)
    ensures
        r@ == before@ + text@ + "'"@,
{
    let mut r = before.to_owned();
    r.append(text);
    r.append("'");
    r
}

proof fn lemma_empty_end(s: Seq<char>)
    ensures
        s + ""@ == s,
{
    reveal_strlit("");
    assert(s + ""@ =~= s);
}

impl JobArraySpec {
    /// Parse a job array specification text:
    ///
    /// ```text
    /// spec      = range ["%" max_conc]
    /// range     = start "-" end [":" step]
    /// ```
    pub fn parse(input: &str) -> (r: Result<Self, BuboError>)
        ensures
            match r {
                Ok(spec) => array_fault(input@) is None && spec.described_by(input@),
                Err(e) => array_fault(input@) is Some && e@ == (ErrorView::ValidationError {
                    reason: array_fault(input@)->0,
                }),
            },
    {
        proof {
            assert forall|t: Seq<char>| #[trigger] (t + ""@) == t by {
                lemma_empty_end(t);
            }
        }
        let s = trim(input);
        let (range, conc_text) = split_at_first(s, '%');
        let max_concurrent: Option<u32> = match conc_text {
            Some(text) => match parse_bounded(text, u32::MAX as u64) {
                None => {
                    return Err(refuse(quoted("invalid max_concurrent value '", text), s, ""));
                },
                Some(conc) => {
                    if conc == 0 {
                        return Err(refuse("max_concurrent must be >= 1".to_owned(), s, ""));
                    }
                    Some(conc as u32)
                },
            },
            None => None,
        };
        let (bounds, step_text) = split_at_first(range, ':');
        let step: u32 = match step_text {
            Some(text) => match parse_bounded(text, u32::MAX as u64) {
                None => {
                    return Err(refuse(quoted("invalid step value '", text), s, ""));
                },
                Some(step) => {
                    if step == 0 {
                        return Err(refuse("step must be >= 1".to_owned(), s, ""));
                    }
                    step as u32
                },
            },
            None => 1,
        };
        let (start_text, end_text) = split_at_first(bounds, '-');
        let end_text = match end_text {
            Some(text) => text,
            None => {
                return Err(
                    refuse("missing '-' separator".to_owned(), s, "; expected 'start-end'"),
                );
            },
        };
        let start: u64 = match parse_bounded(start_text, u32::MAX as u64) {
            Some(start) => start,
            None => {
                return Err(refuse(quoted("invalid start index '", start_text), s, ""));
            },
        };
        let end: u64 = match parse_bounded(end_text, u32::MAX as u64) {
            Some(end) => end,
            None => {
                return Err(refuse(quoted("invalid end index '", end_text), s, ""));
            },
        };
        if end < start {
            let mut what = "end index ".to_owned();
            what.append(decimal(end).as_str());
            what.append(" < start index ");
            what.append(decimal(start).as_str());
            return Err(refuse(what, s, ""));
        }
        Ok(JobArraySpec { start: start as u32, end: end as u32, step, max_concurrent })
    }

    /// Expand the array into its tasks.
    pub fn expand(&self, parent_job_name: &str) -> (r: Vec<ExpandedJob>)
        requires
            self.countable(),
        ensures
            r.deep_view() == self.tasks(parent_job_name@),
    {
        let mut jobs: Vec<ExpandedJob> = Vec::new();
        let ghost all = self.tasks(parent_job_name@);
        if self.end < self.start {
            proof {
                assert(jobs.deep_view() =~= all);
            }
            return jobs;
        }
        let mut index: u32 = self.start;
        let mut more = true;
        proof {
            lemma_count(*self, 0);
        }
        while more
            invariant
                all == self.tasks(parent_job_name@),
                self.start <= self.end,
                self.step > 0,
                jobs.len() <= self.count(),
                forall|k: int| 0 <= k < jobs.len() ==> #[trigger] jobs[k].deep_view() == all[k],
                more ==> jobs.len() < self.count() && index == self.start + jobs.len() * self.step
                    && index <= self.end,
                !more ==> jobs.len() == self.count(),
            decreases self.count() - jobs.len(),
        {
            let mut name = parent_job_name.to_owned();
            name.append("_");
            name.append(decimal(index as u64).as_str());
            jobs.push(
                ExpandedJob { name, array_index: index, parent_name: parent_job_name.to_owned() },
            );
            proof {
                let k = jobs.len() as int;
                lemma_count(*self, k);
                assert(k * self.step == (k - 1) * self.step + self.step) by (nonlinear_arith);
            }
            match index.checked_add(self.step) {
                Some(next) => {
                    if next <= self.end {
                        index = next;
                    } else {
                        more = false;
                    }
                },
                None => {
                    more = false;
                },
            }
        }
        proof {
            assert(jobs.deep_view() =~= all);
        }
        jobs
    }

    /// Number of tasks in this array.
    pub fn task_count(&self) -> (r: u32)
        requires
            self.countable(),
            self.count() <= u32::MAX,
        ensures
            r == self.count(),
    {
        if self.end < self.start {
            return 0;
        }
        (self.end - self.start) / self.step + 1
    }
}

/// The index after `k` steps is within the bounds exactly when the array has more
/// than `k` tasks.
proof fn lemma_count(spec: JobArraySpec, k: int)
    requires
        spec.start <= spec.end,
        spec.step > 0,
        k >= 0,
    ensures
        k < spec.count() <==> spec.start + k * spec.step <= spec.end,
{
    let span = spec.end - spec.start;
    let step = spec.step as int;
    let q = span / step;
    assert(q * step <= span < (q + 1) * step) by (nonlinear_arith)
        requires
            q == span / step,
            step > 0,
    ;
    if k <= q {
        assert(k * step <= q * step) by (nonlinear_arith)
            requires
                k <= q,
                step > 0,
        ;
    } else {
        assert(k * step >= (q + 1) * step) by (nonlinear_arith)
            requires
                k >= q + 1,
                step > 0,
        ;
    }
}

/// What a text describes can always be expanded: its bounds are in order, its step
/// leads on, and a stated concurrency is at least 1.
pub proof fn law_parsed_array_is_countable(spec: JobArraySpec, input: Seq<char>)
    requires
        array_fault(input) is None,
        spec.described_by(input),
    ensures
        spec.start <= spec.end,
        spec.step >= 1,
        spec.max_concurrent is Some ==> spec.max_concurrent->0 >= 1,
        spec.countable(),
{
}

/// The number of tasks is the number that the array expands to, whatever the name.
pub proof fn law_expansion_has_task_count(spec: JobArraySpec, parent: Seq<char>)
    ensures
        spec.tasks(parent).len() == spec.count(),
{
}

/// The tasks are exactly the indices that steps from the start reach without passing
/// the end.
pub proof fn law_tasks_are_the_steps(spec: JobArraySpec, parent: Seq<char>, index: int)
    requires
        spec.start <= spec.end,
        spec.step > 0,
    ensures
        (exists|i: int|
            0 <= i < spec.tasks(parent).len() && (#[trigger] spec.tasks(parent)[i]).array_index
                == index) <==> (spec.start <= index <= spec.end && (index - spec.start)
            % (spec.step as int) == 0),
{
    let step = spec.step as int;
    let tasks = spec.tasks(parent);
    if exists|i: int| 0 <= i < tasks.len() && (#[trigger] tasks[i]).array_index == index {
        let i = choose|i: int| 0 <= i < tasks.len() && (#[trigger] tasks[i]).array_index == index;
        lemma_count(spec, i);
        assert(0 <= i * step && (i * step) % step == 0) by (nonlinear_arith)
            requires
                i >= 0,
                step > 0,
        ;
    }
    if spec.start <= index <= spec.end && (index - spec.start) % step == 0 {
        let i = (index - spec.start) / step;
        assert(i >= 0 && i * step == index - spec.start) by (nonlinear_arith)
            requires
                i == (index - spec.start) / step,
                (index - spec.start) % step == 0,
                index >= spec.start,
                step > 0,
        ;
        lemma_count(spec, i);
        assert(tasks[i].array_index == index);
    }
}

/// No two tasks of an array share an index or a name.
pub proof fn law_tasks_are_distinct(spec: JobArraySpec, parent: Seq<char>, i: int, j: int)
    requires
        spec.countable(),
        0 <= i < j < spec.tasks(parent).len(),
    ensures
        spec.tasks(parent)[i].array_index < spec.tasks(parent)[j].array_index,
        spec.tasks(parent)[i].name != spec.tasks(parent)[j].name,
{
    let a = spec.start + i * spec.step;
    let b = spec.start + j * spec.step;
    assert(0 <= a < b) by (nonlinear_arith)
        requires
            a == spec.start + i * spec.step,
            b == spec.start + j * spec.step,
            0 <= i < j,
            spec.step > 0,
    ;
    let prefix = parent + "_"@;
    if prefix + dec(a as nat) == prefix + dec(b as nat) {
        assert((prefix + dec(a as nat)).skip(prefix.len() as int) =~= dec(a as nat));
        assert((prefix + dec(b as nat)).skip(prefix.len() as int) =~= dec(b as nat));
        lemma_dec_injective(a as nat, b as nat);
    }
}

} // verus!
