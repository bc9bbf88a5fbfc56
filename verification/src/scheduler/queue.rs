//! A queue of pending jobs by priority.

use vstd::prelude::*;
use vstd::string::*;
use crate::model::time::Timestamp;
use crate::model::walltime::WalltimeDuration;
use crate::text::str_eq;

verus! {

/// A pending job in a scheduler queue.
#[derive(Clone, Debug)]
pub struct QueuedJob {
    pub name: String,
    pub namespace: String,
    pub queue: String,
    pub priority: i32,
    pub nodes: u32,
    pub tasks_per_node: u32,
    pub cpu_per_node_millis: u64,
    pub memory_per_node_bytes: u64,
    pub gpus_per_node: u32,
    pub walltime: Option<WalltimeDuration>,
    pub submit_time: Timestamp,
}

/// Content of a [`QueuedJob`].
pub ghost struct JobView {
    pub name: Seq<char>,
    pub namespace: Seq<char>,
    pub queue: Seq<char>,
    pub priority: int,
    pub nodes: nat,
    pub tasks_per_node: nat,
    pub cpu_per_node_millis: nat,
    pub memory_per_node_bytes: nat,
    pub gpus_per_node: nat,
    pub walltime: Option<WalltimeDuration>,
    pub submit_time: Timestamp,
}

impl DeepView for QueuedJob {
    type V = JobView;

    open spec fn deep_view(&self) -> JobView {
        JobView {
            name: self.name@,
            namespace: self.namespace@,
            queue: self.queue@,
            priority: self.priority as int,
            nodes: self.nodes as nat,
            tasks_per_node: self.tasks_per_node as nat,
            cpu_per_node_millis: self.cpu_per_node_millis as nat,
            memory_per_node_bytes: self.memory_per_node_bytes as nat,
            gpus_per_node: self.gpus_per_node as nat,
            walltime: self.walltime,
            submit_time: self.submit_time,
        }
    }
}

impl JobView {
    /// Whether `self` goes before `other`: by higher priority, or by earlier
    /// submission where the priorities are equal.
    pub open spec fn outranks(self, other: JobView) -> bool {
        self.priority > other.priority || (self.priority == other.priority
            && self.submit_time.before(other.submit_time))
    }
}

/// Whether the job at position `b` is the next one: none outranks it, and it
/// outranks those that arrived before it.
pub open spec fn is_next(jobs: Seq<JobView>, b: int) -> bool {
    &&& 0 <= b < jobs.len()
    &&& forall|k: int| 0 <= k < jobs.len() ==> !(#[trigger] jobs[k]).outranks(jobs[b])
    &&& forall|k: int| 0 <= k < b ==> jobs[b].outranks(#[trigger] jobs[k])
}

/// Position of the first job with the name `name`.
pub open spec fn first_with_name(jobs: Seq<JobView>, name: Seq<char>) -> Option<int>
    decreases jobs.len(),
{
    if jobs.len() == 0 {
        None
    } else if jobs[0].name == name {
        Some(0)
    } else {
        match first_with_name(jobs.drop_first(), name) {
            Some(i) => Some(i + 1),
            None => None,
        }
    }
}

/// Pending jobs. Its content is the sequence of the jobs in the order in which they
/// arrived.
#[derive(Clone, Debug)]
pub struct PriorityQueue {
    jobs: Vec<QueuedJob>,
}

impl View for PriorityQueue {
    type V = Seq<JobView>;

    closed spec fn view(&self) -> Seq<JobView> {
        self.jobs.deep_view()
    }
}

fn goes_before(a: &QueuedJob, b: &QueuedJob) -> (r: bool)
    ensures
        r == a.deep_view().outranks(b.deep_view()),
{
    a.priority > b.priority || (a.priority == b.priority && a.submit_time.is_before(&b.submit_time))
}

impl PriorityQueue {
    /// A queue without jobs.
    pub fn new() -> (r: Self)
        ensures
            r@ == Seq::<JobView>::empty(),
    {
        let r = PriorityQueue { jobs: Vec::new() };
        proof {
            assert(r@ =~= Seq::<JobView>::empty());
        }
        r
    }

    /// Adds a job.
    pub fn push(&mut self, job: QueuedJob)
        ensures
            final(self)@ == old(self)@.push(job.deep_view()),
    {
        let ghost before = self@;
        let ghost content = job.deep_view();
        self.jobs.push(job);
        proof {
            assert(self@ =~= before.push(content));
        }
    }

    /// Number of jobs.
    pub fn len(&self) -> (r: usize)
        ensures
            r == self@.len(),
    {
        self.jobs.len()
    }

    /// Whether there are no jobs.
    pub fn is_empty(&self) -> (r: bool)
        ensures
            r == (self@.len() == 0),
    {
        self.jobs.len() == 0
    }

    fn next_position(&self) -> (r: Option<usize>)
        ensures
            match r {
                Some(b) => is_next(self@, b as int),
                None => self@.len() == 0,
            },
    {
        if self.jobs.len() == 0 {
            return None;
        }
        let ghost all = self@;
        let mut best: usize = 0;
        let mut i: usize = 1;
        while i < self.jobs.len()
            invariant
                1 <= i <= self.jobs.len(),
                all == self.jobs.deep_view(),
                best < i,
                forall|k: int| 0 <= k < i ==> !(#[trigger] all[k]).outranks(all[best as int]),
                forall|k: int| 0 <= k < best ==> all[best as int].outranks(#[trigger] all[k]),
            decreases self.jobs.len() - i,
        {
            if goes_before(&self.jobs[i], &self.jobs[best]) {
                proof {
                    assert(all[i as int].outranks(all[best as int]));
                }
                best = i;
            }
            i += 1;
        }
        Some(best)
    }

    /// The next job.
    pub fn peek(&self) -> (r: Option<&QueuedJob>)
        ensures
            match r {
                Some(job) => exists|b: int|
                    is_next(self@, b) && job.deep_view() == #[trigger] self@[b],
                None => self@.len() == 0,
            },
    {
        match self.next_position() {
            Some(b) => {
                proof {
                    assert(self@[b as int] == self.jobs[b as int].deep_view());
                }
                Some(&self.jobs[b])
            },
            None => None,
        }
    }

    /// Takes the next job out.
    pub fn pop(&mut self) -> (r: Option<QueuedJob>)
        ensures
            match r {
                Some(job) => exists|b: int|
                    is_next(old(self)@, b) && job.deep_view() == #[trigger] old(self)@[b]
                        && final(self)@ == old(self)@.remove(b),
                None => old(self)@.len() == 0 && final(self)@ == old(self)@,
            },
    {
        let ghost before = self@;
        match self.next_position() {
            Some(b) => {
                let job = self.jobs.remove(b);
                proof {
                    assert(self@ =~= before.remove(b as int));
                    assert(job.deep_view() == before[b as int]);
                }
                Some(job)
            },
            None => None,
        }
    }

    /// Takes out the first job with the name `name`.
    pub fn remove_by_name(&mut self, name: &str) -> (r: Option<QueuedJob>)
        ensures
            match r {
                Some(job) => first_with_name(old(self)@, name@) is Some && {
                    let i = first_with_name(old(self)@, name@)->0;
                    0 <= i < old(self)@.len() && job.deep_view() == old(self)@[i]
                        && job.deep_view().name == name@ && final(self)@ == old(self)@.remove(i)
                },
                None => first_with_name(old(self)@, name@) is None && final(self)@ == old(self)@,
            },
    {
        let ghost before = self@;
        let mut i: usize = 0;
        proof {
            assert(before.skip(0) =~= before);
        }
        while i < self.jobs.len()
            invariant
                i <= self.jobs.len(),
                before == old(self)@,
                before == self.jobs.deep_view(),
                first_with_name(before, name@) == (match first_with_name(
                    before.skip(i as int),
                    name@,
                ) {
                    Some(k) => Some(k + i),
                    None => None,
                }),
            decreases self.jobs.len() - i,
        {
            proof {
                assert(before.skip(i as int)[0] == self.jobs[i as int].deep_view());
                assert(before.skip(i as int).drop_first() =~= before.skip(i + 1));
            }
            if str_eq(self.jobs[i].name.as_str(), name) {
                let job = self.jobs.remove(i);
                proof {
                    assert(before[i as int] == job.deep_view());
                    assert(first_with_name(before, name@) == Some(i as int));
                    assert(self@ =~= before.remove(i as int));
                }
                return Some(job);
            }
            i += 1;
        }
        None
    }
}

/// Of two jobs at most one outranks the other, and outranking carries over.
pub proof fn law_ranking_is_an_order(a: JobView, b: JobView, c: JobView)
    ensures
        !(a.outranks(b) && b.outranks(a)),
        a.outranks(b) && b.outranks(c) ==> a.outranks(c),
        !a.outranks(b) && !b.outranks(c) ==> !a.outranks(c),
{
}

/// There is only one next job.
pub proof fn law_next_job_is_unique(jobs: Seq<JobView>, a: int, b: int)
    requires
        is_next(jobs, a),
        is_next(jobs, b),
    ensures
        a == b,
{
    if a < b {
        assert(jobs[b].outranks(jobs[a]));
    }
    if b < a {
        assert(jobs[a].outranks(jobs[b]));
    }
}

/// A job is found by name exactly when the queue holds one.
pub proof fn lemma_first_with_name(jobs: Seq<JobView>, name: Seq<char>)
    ensures
        match first_with_name(jobs, name) {
            Some(i) => 0 <= i < jobs.len() && jobs[i].name == name,
            None => forall|k: int| 0 <= k < jobs.len() ==> (#[trigger] jobs[k]).name != name,
        },
    decreases jobs.len(),
{
    if jobs.len() > 0 && jobs[0].name != name {
        let rest = jobs.drop_first();
        lemma_first_with_name(rest, name);
        match first_with_name(rest, name) {
            Some(i) => {
                assert(jobs[i + 1] == rest[i]);
            },
            None => {
                assert forall|k: int| 0 <= k < jobs.len() implies (#[trigger] jobs[k]).name
                    != name by {
                    if k > 0 {
                        assert(rest[k - 1] == jobs[k]);
                    }
                }
            },
        }
    }
}

} // verus!
