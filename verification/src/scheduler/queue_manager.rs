//! Named queues with policies: who may submit what, and which job is next.

use vstd::prelude::*;
use vstd::string::*;
use crate::model::cluster::floor_sub;
use crate::model::error::{BuboError, ErrorView};
use crate::model::walltime::{duration_text, WalltimeDuration};
use crate::scheduler::queue::{
    first_with_name, is_next, JobView, PriorityQueue, QueuedJob,
};
use crate::scheduler::queue_history::{is_step, Call};
use crate::string_map::{lemma_prefix_set, StringMap};
use crate::text::{dec, decimal, sort_strings, sorted};

verus! {

/// Configuration for a managed queue.
#[derive(Clone, Copy, Debug)]
pub struct QueueConfig {
    pub max_nodes: u32,
    pub max_walltime: Option<WalltimeDuration>,
    pub max_jobs_per_user: Option<u32>,
    pub default_priority: i32,
}

/// Runtime stats snapshot for a single queue.
#[derive(Clone, Copy, Debug)]
pub struct QueueStats {
    pub pending_jobs: usize,
    pub active_jobs: u32,
    pub used_nodes: u32,
    pub max_nodes: u32,
}

/// State of a single named queue.
struct ManagedQueue {
    queue: PriorityQueue,
    config: QueueConfig,
    active_jobs: u32,
    used_nodes: u32,
    /// Active job counts of each user; the namespace stands for the user.
    user_job_counts: StringMap<u32>,
}

/// Content of a queue.
pub ghost struct QueueView {
    /// Pending jobs, in the order in which they arrived.
    pub jobs: Seq<JobView>,
    pub config: QueueConfig,
    pub active_jobs: nat,
    pub used_nodes: nat,
    pub user_counts: Map<Seq<char>, u32>,
}

impl QueueView {
    /// A queue in which nothing has happened.
    pub open spec fn fresh(config: QueueConfig) -> QueueView {
        QueueView {
            jobs: Seq::empty(),
            config,
            active_jobs: 0,
            used_nodes: 0,
            user_counts: Map::empty(),
        }
    }

    /// Active jobs of a user.
    pub open spec fn count_of(self, user: Seq<char>) -> nat {
        if self.user_counts.dom().contains(user) {
            self.user_counts[user] as nat
        } else {
            0
        }
    }
}

impl DeepView for ManagedQueue {
    type V = QueueView;

    closed spec fn deep_view(&self) -> QueueView {
        QueueView {
            jobs: self.queue@,
            config: self.config,
            active_jobs: self.active_jobs as nat,
            used_nodes: self.used_nodes as nat,
            user_counts: self.user_job_counts@,
        }
    }
}

/// Content of a [`QueueManager`]: its queues by name.
pub type QueuesView = Map<Seq<char>, QueueView>;

/// What keeps `job` out of the queues, or nothing. The limits are looked at in this
/// order: nodes of the job, nodes left, walltime, jobs of the user.
pub open spec fn submission_fault(queues: QueuesView, job: JobView) -> Option<ErrorView> {
    if !queues.dom().contains(job.queue) {
        Some(ErrorView::QueueNotFound { queue_name: job.queue })
    } else {
        let q = queues[job.queue];
        let max = q.config.max_nodes as nat;
        let asks = "job '"@ + job.name + "' requests "@ + dec(job.nodes) + " nodes, but queue '"@
            + job.queue;
        if job.nodes > max {
            Some(ErrorView::ValidationError { reason: asks + "' allows at most "@ + dec(max) })
        } else if q.used_nodes + job.nodes > max {
            Some(
                ErrorView::ValidationError {
                    reason: asks + "' only has "@ + dec(floor_sub(max, q.used_nodes)) + " of "@
                        + dec(max) + " nodes available"@,
                },
            )
        } else if q.config.max_walltime is Some && job.walltime is Some && job.walltime->0.seconds
            > q.config.max_walltime->0.seconds {
            Some(
                ErrorView::ValidationError {
                    reason: "job '"@ + job.name + "' walltime "@ + duration_text(
                        job.walltime->0.seconds as nat,
                    ) + " exceeds queue '"@ + job.queue + "' maximum "@ + duration_text(
                        q.config.max_walltime->0.seconds as nat,
                    ),
                },
            )
        } else if q.config.max_jobs_per_user is Some && q.count_of(job.namespace)
            >= q.config.max_jobs_per_user->0 {
            Some(
                ErrorView::ValidationError {
                    reason: "user '"@ + job.namespace
                        + "' has reached the max_jobs_per_user limit of "@ + dec(
                        q.config.max_jobs_per_user->0 as nat,
                    ) + " in queue '"@ + job.queue + "'"@,
                },
            )
        } else {
            None
        }
    }
}

/// The queue with one more pending job.
pub open spec fn with_job(q: QueueView, job: JobView) -> QueueView {
    QueueView { jobs: q.jobs.push(job), ..q }
}

/// The queue without the pending job at position `b`.
pub open spec fn without_job(q: QueueView, b: int) -> QueueView {
    QueueView { jobs: q.jobs.remove(b), ..q }
}

/// The queue after a job of `user` on `nodes` nodes has started.
pub open spec fn after_start(q: QueueView, nodes: nat, user: Seq<char>) -> QueueView {
    QueueView {
        active_jobs: q.active_jobs + 1,
        used_nodes: q.used_nodes + nodes,
        user_counts: q.user_counts.insert(user, (q.count_of(user) + 1) as u32),
        ..q
    }
}

/// The queue after a job of `user` on `nodes` nodes has finished.
pub open spec fn after_finish(q: QueueView, nodes: nat, user: Seq<char>) -> QueueView {
    QueueView {
        active_jobs: floor_sub(q.active_jobs, 1),
        used_nodes: floor_sub(q.used_nodes, nodes),
        user_counts: q.user_counts.insert(user, floor_sub(q.count_of(user), 1) as u32),
        ..q
    }
}

/// Whether the counters of a queue can take a start.
pub open spec fn start_fits(q: QueueView, nodes: nat, user: Seq<char>) -> bool {
    &&& q.active_jobs + 1 <= u32::MAX
    &&& q.used_nodes + nodes <= u32::MAX
    &&& q.count_of(user) + 1 <= u32::MAX
}

/// The queues of a new manager: a single one, without limits.
pub open spec fn initial_queues(default_queue: Seq<char>) -> QueuesView {
    Map::<Seq<char>, QueueView>::empty().insert(
        default_queue,
        QueueView::fresh(
            QueueConfig {
                max_nodes: u32::MAX,
                max_walltime: None,
                max_jobs_per_user: None,
                default_priority: 50,
            },
        ),
    )
}

/// The queues after `name` has been registered. A queue that exists keeps its pending
/// jobs and its counters.
pub open spec fn registered(queues: QueuesView, name: Seq<char>, config: QueueConfig) -> QueuesView {
    queues.insert(
        name,
        if queues.dom().contains(name) {
            QueueView { config, ..queues[name] }
        } else {
            QueueView::fresh(config)
        },
    )
}

/// The queues after `job` has been taken into its queue.
pub open spec fn submitted(queues: QueuesView, job: JobView) -> QueuesView {
    queues.insert(job.queue, with_job(queues[job.queue], job))
}

/// The queues after a job of `user` on `nodes` nodes has started in queue `name`.
pub open spec fn started(
    queues: QueuesView,
    name: Seq<char>,
    nodes: nat,
    user: Seq<char>,
) -> QueuesView {
    if queues.dom().contains(name) {
        queues.insert(name, after_start(queues[name], nodes, user))
    } else {
        queues
    }
}

/// The queues after a job of `user` on `nodes` nodes has finished in queue `name`.
pub open spec fn finished(
    queues: QueuesView,
    name: Seq<char>,
    nodes: nat,
    user: Seq<char>,
) -> QueuesView {
    if queues.dom().contains(name) {
        queues.insert(name, after_finish(queues[name], nodes, user))
    } else {
        queues
    }
}

/// Number of pending jobs in queue `name`; none where it does not exist.
pub open spec fn depth(queues: QueuesView, name: Seq<char>) -> nat {
    if queues.dom().contains(name) {
        queues[name].jobs.len()
    } else {
        0
    }
}

/// Whether the job at position `b` of queue `name` is the next one of all queues: the
/// next one of its queue, and outranked by no pending job.
pub open spec fn is_next_of_all(queues: QueuesView, name: Seq<char>, b: int) -> bool {
    &&& queues.dom().contains(name)
    &&& is_next(queues[name].jobs, b)
    &&& forall|other: Seq<char>, k: int|
        #![trigger queues[other].jobs[k]]
        queues.dom().contains(other) && 0 <= k < queues[other].jobs.len()
            ==> !queues[other].jobs[k].outranks(queues[name].jobs[b])
}

/// Number of pending jobs in the queues named in `names`.
pub open spec fn pending_in(queues: QueuesView, names: Set<Seq<char>>) -> nat
    decreases names.len(),
    when names.finite()
{
    if names.len() == 0 {
        0
    } else {
        let name = names.choose();
        queues[name].jobs.len() + pending_in(queues, names.remove(name))
    }
}

/// Manages multiple named priority queues with policy enforcement.
pub struct QueueManager {
    queues: StringMap<ManagedQueue>,
    /// Name of the queue for jobs that name none.
    default_queue: String,
}

impl View for QueueManager {
    type V = QueuesView;

    closed spec fn view(&self) -> QueuesView {
        self.queues@
    }
}

fn new_queue(config: QueueConfig) -> (r: ManagedQueue)
    ensures
        r.deep_view() == QueueView::fresh(config),
{
    ManagedQueue {
        queue: PriorityQueue::new(),
        config,
        active_jobs: 0,
        used_nodes: 0,
        user_job_counts: StringMap::new(),
    }
}

fn user_count(q: &ManagedQueue, user: &str) -> (r: u32)
    ensures
        r == q.deep_view().count_of(user@),
{
    match q.user_job_counts.get(user) {
        Some(n) => *n,
        None => 0,
    }
}

impl QueueManager {
    /// A manager has finitely many queues.
    pub proof fn lemma_finite(self)
        ensures
            self@.dom().finite(),
    {
        self.queues.lemma_finite();
    }

    /// Name of the queue for jobs that name none.
    pub closed spec fn default_name(&self) -> Seq<char> {
        self.default_queue@
    }

    /// A manager with a single queue, which has no node, walltime or user limits.
    pub fn new(default_queue: &str) -> (r: Self)
        ensures
            r@ == initial_queues(default_queue@),
            r.default_name() == default_queue@,
    {
        let mut queues: StringMap<ManagedQueue> = StringMap::new();
        queues.insert(
            default_queue.to_owned(),
            new_queue(
                QueueConfig {
                    max_nodes: u32::MAX,
                    max_walltime: None,
                    max_jobs_per_user: None,
                    default_priority: 50,
                },
            ),
        );
        QueueManager { queues, default_queue: default_queue.to_owned() }
    }

    /// Registers or reconfigures a named queue. A queue that exists keeps its pending
    /// jobs and its counters.
    pub fn register_queue(&mut self, name: &str, config: QueueConfig)
        ensures
            final(self)@ == registered(old(self)@, name@, config),
            is_step(
                old(self)@,
                Call::Register { name: name@, config },
                true,
                final(self)@,
            ),
            final(self).default_name() == old(self).default_name(),
    {
        let ghost before = self@;
        let q = match self.queues.remove(name) {
            Some(q) => ManagedQueue { config, ..q },
            None => new_queue(config),
        };
        self.queues.insert(name.to_owned(), q);
        proof {
            assert(self@ =~= before.insert(name@, q.deep_view()));
        }
    }

    /// Removes a queue by name, unless it has pending jobs.
    pub fn remove_queue(&mut self, name: &str) -> (r: Result<(), BuboError>)
        ensures
            final(self).default_name() == old(self).default_name(),
            is_step(old(self)@, Call::Remove { name: name@ }, r is Ok, final(self)@),
            match r {
                Ok(_) => old(self)@.dom().contains(name@) && old(self)@[name@].jobs.len() == 0
                    && final(self)@ == old(self)@.remove(name@),
                Err(e) => final(self)@ == old(self)@ && if !old(self)@.dom().contains(name@) {
                    e@ == (ErrorView::QueueNotFound { queue_name: name@ })
                } else {
                    old(self)@[name@].jobs.len() > 0 && e@ == (ErrorView::ValidationError {
                        reason: "queue '"@ + name@ + "' is not empty"@,
                    })
                },
            },
    {
        match self.queues.get(name) {
            None => {
                return Err(BuboError::QueueNotFound { queue_name: name.to_owned() });
            },
            Some(q) => {
                if !q.queue.is_empty() {
                    let mut reason = "queue '".to_owned();
                    reason.append(name);
                    reason.append("' is not empty");
                    return Err(BuboError::ValidationError { reason });
                }
            },
        }
        self.queues.remove(name);
        Ok(())
    }

    fn fault_of(&self, job: &QueuedJob) -> (r: Option<BuboError>)
        ensures
            match r {
                Some(e) => submission_fault(self@, job.deep_view()) == Some(e@),
                None => submission_fault(self@, job.deep_view()) is None,
            },
    {
        let q = match self.queues.get(job.queue.as_str()) {
            Some(q) => q,
            None => {
                return Some(BuboError::QueueNotFound { queue_name: job.queue.clone() });
            },
        };
        let max = q.config.max_nodes;
        if job.nodes > max || q.used_nodes as u64 + job.nodes as u64 > max as u64 {
            let mut reason = "job '".to_owned();
            reason.append(job.name.as_str());
            reason.append("' requests ");
            reason.append(decimal(job.nodes as u64).as_str());
            reason.append(" nodes, but queue '");
            reason.append(job.queue.as_str());
            if job.nodes > max {
                reason.append("' allows at most ");
                reason.append(decimal(max as u64).as_str());
            } else {
                reason.append("' only has ");
                reason.append(decimal(max.saturating_sub(q.used_nodes) as u64).as_str());
                reason.append(" of ");
                reason.append(decimal(max as u64).as_str());
                reason.append(" nodes available");
            }
            return Some(BuboError::ValidationError { reason });
        }
        match (q.config.max_walltime, job.walltime) {
            (Some(limit), Some(asked)) => {
                if asked.seconds > limit.seconds {
                    let mut reason = "job '".to_owned();
                    reason.append(job.name.as_str());
                    reason.append("' walltime ");
                    reason.append(asked.to_string().as_str());
                    reason.append(" exceeds queue '");
                    reason.append(job.queue.as_str());
                    reason.append("' maximum ");
                    reason.append(limit.to_string().as_str());
                    return Some(BuboError::ValidationError { reason });
                }
            },
            _ => {},
        }
        match q.config.max_jobs_per_user {
            Some(limit) => {
                if user_count(q, job.namespace.as_str()) >= limit {
                    let mut reason = "user '".to_owned();
                    reason.append(job.namespace.as_str());
                    reason.append("' has reached the max_jobs_per_user limit of ");
                    reason.append(decimal(limit as u64).as_str());
                    reason.append(" in queue '");
                    reason.append(job.queue.as_str());
                    reason.append("'");
                    return Some(BuboError::ValidationError { reason });
                }
            },
            None => {},
        }
        None
    }

    /// Validates a job against the policies of its queue and enqueues it.
    pub fn submit_job(&mut self, job: QueuedJob) -> (r: Result<(), BuboError>)
        ensures
            final(self).default_name() == old(self).default_name(),
            is_step(old(self)@, Call::Submit { job: job.deep_view() }, r is Ok, final(self)@),
            match r {
                Ok(_) => submission_fault(old(self)@, job.deep_view()) is None && final(self)@
                    == submitted(old(self)@, job.deep_view()),
                Err(e) => submission_fault(old(self)@, job.deep_view()) == Some(e@)
                    && final(self)@ == old(self)@,
            },
    {
        match self.fault_of(&job) {
            Some(e) => {
                return Err(e);
            },
            None => {},
        }
        let ghost before = self@;
        let name = job.queue.clone();
        match self.queues.remove(name.as_str()) {
            Some(mut q) => {
                let ghost content = q.deep_view();
                q.queue.push(job);
                let ghost after = q.deep_view();
                self.queues.insert(name, q);
                proof {
                    assert(after == with_job(content, job.deep_view()));
                    assert(self@ =~= before.insert(job.queue@, after));
                }
            },
            None => {},
        }
        Ok(())
    }

    /// Pops the highest-priority job across all queues.
    pub fn next_job(&mut self) -> (r: Option<QueuedJob>)
        ensures
            final(self).default_name() == old(self).default_name(),
            is_step(old(self)@, Call::Next, r is Some, final(self)@),
            match r {
                Some(job) => exists|name: Seq<char>, b: int|
                    is_next_of_all(old(self)@, name, b) && job.deep_view()
                        == #[trigger] old(self)@[name].jobs[b] && final(self)@ == old(self)@.insert(
                        name,
                        without_job(old(self)@[name], b),
                    ),
                None => final(self)@ == old(self)@ && forall|name: Seq<char>| #[trigger]
                    old(self)@.dom().contains(name) ==> old(self)@[name].jobs.len() == 0,
            },
    {
        let n = self.queues.len();
        let ghost before = self@;
        let ghost keys = self.queues.keys_seq();
        let mut best: Option<usize> = None;
        let ghost mut at: int = 0;
        let mut i: usize = 0;
        while i < n
            invariant
                i <= n,
                n == keys.len(),
                keys == self.queues.keys_seq(),
                before == self.queues@,
                self.queues.entries_make_map(),
                match best {
                    Some(w) => w < i && is_next(before[keys[w as int]].jobs, at) && forall|
                        o: int,
                        k: int,
                    |
                        0 <= o < i && 0 <= k < before[keys[o]].jobs.len()
                            ==> !(#[trigger] before[keys[o]].jobs[k]).outranks(
                            before[keys[w as int]].jobs[at],
                        ),
                    None => forall|o: int|
                        0 <= o < i ==> (#[trigger] before[keys[o]]).jobs.len() == 0,
                },
            decreases n - i,
        {
            let q = self.queues.value_at(i);
            match q.queue.peek() {
                None => {},
                Some(job) => {
                    let ghost content = before[keys[i as int]].jobs;
                    let ghost b = choose|b: int|
                        is_next(content, b) && job.deep_view() == #[trigger] content[b];
                    let better = match best {
                        None => true,
                        Some(w) => {
                            let other = self.queues.value_at(w);
                            match other.queue.peek() {
                                Some(o) => {
                                    proof {
                                        let jobs = before[keys[w as int]].jobs;
                                        let c = choose|c: int|
                                            is_next(jobs, c) && o.deep_view() == #[trigger] jobs[c];
                                        crate::scheduler::queue::law_next_job_is_unique(
                                            jobs,
                                            c,
                                            at,
                                        );
                                    }
                                    job.priority > o.priority || (job.priority == o.priority
                                        && job.submit_time.is_before(&o.submit_time))
                                },
                                None => true,
                            }
                        },
                    };
                    if better {
                        best = Some(i);
                        proof {
                            at = b;
                        }
                    }
                },
            }
            i += 1;
        }
        match best {
            None => {
                proof {
                    assert forall|name: Seq<char>| #[trigger]
                        before.dom().contains(name) implies before[name].jobs.len() == 0 by {
                        assert(keys.to_set().contains(name));
                        let o = keys.index_of(name);
                        assert(before[keys[o]].jobs.len() == 0);
                    }
                }
                None
            },
            Some(w) => {
                let name = self.queues.key_at(w).clone();
                proof {
                    assert forall|other: Seq<char>, k: int|
                        #![trigger before[other].jobs[k]]
                        before.dom().contains(other) && 0 <= k < before[other].jobs.len() implies
                        !before[other].jobs[k].outranks(before[name@].jobs[at]) by {
                        assert(keys.to_set().contains(other));
                        let o = keys.index_of(other);
                        assert(!before[keys[o]].jobs[k].outranks(before[keys[w as int]].jobs[at]));
                    }
                    assert(is_next_of_all(before, name@, at));
                }
                match self.queues.remove(name.as_str()) {
                    Some(mut q) => {
                        let ghost content = q.deep_view();
                        let job = q.queue.pop();
                        let ghost after = q.deep_view();
                        let ghost key = name@;
                        self.queues.insert(name, q);
                        proof {
                            let b = choose|b: int|
                                is_next(content.jobs, b) && job->0.deep_view()
                                    == #[trigger] content.jobs[b] && after.jobs
                                    == content.jobs.remove(b);
                            crate::scheduler::queue::law_next_job_is_unique(content.jobs, b, at);
                            assert(after == without_job(content, at));
                            assert(self@ =~= before.insert(key, without_job(before[key], at)));
                            assert(job->0.deep_view() == before[key].jobs[at]);
                        }
                        job
                    },
                    None => None,
                }
            },
        }
    }

    /// Pops the highest-priority job from a specific queue.
    pub fn next_job_from(&mut self, queue_name: &str) -> (r: Option<QueuedJob>)
        ensures
            final(self).default_name() == old(self).default_name(),
            is_step(old(self)@, Call::NextFrom { name: queue_name@ }, r is Some, final(self)@),
            match r {
                Some(job) => old(self)@.dom().contains(queue_name@) && exists|b: int|
                    is_next(old(self)@[queue_name@].jobs, b) && job.deep_view()
                        == #[trigger] old(self)@[queue_name@].jobs[b] && final(self)@
                        == old(self)@.insert(
                        queue_name@,
                        without_job(old(self)@[queue_name@], b),
                    ),
                None => final(self)@ == old(self)@ && (old(self)@.dom().contains(queue_name@)
                    ==> old(self)@[queue_name@].jobs.len() == 0),
            },
    {
        let ghost before = self@;
        match self.queues.remove(queue_name) {
            Some(mut q) => {
                let ghost content = q.deep_view();
                let job = q.queue.pop();
                let ghost after = q.deep_view();
                self.queues.insert(queue_name.to_owned(), q);
                proof {
                    match &job {
                        Some(j) => {
                            let b = choose|b: int|
                                is_next(content.jobs, b) && j.deep_view()
                                    == #[trigger] content.jobs[b] && after.jobs
                                    == content.jobs.remove(b);
                            assert(after == without_job(content, b));
                            assert(self@ =~= before.insert(
                                queue_name@,
                                without_job(before[queue_name@], b),
                            ));
                            assert(j.deep_view() == before[queue_name@].jobs[b]);
                        },
                        None => {
                            assert(self@ =~= before);
                        },
                    }
                }
                job
            },
            None => {
                proof {
                    assert(self@ =~= before);
                }
                None
            },
        }
    }

    /// Removes a job by name from some queue that holds one of that name.
    pub fn cancel_job(&mut self, job_name: &str) -> (r: Option<QueuedJob>)
        ensures
            final(self).default_name() == old(self).default_name(),
            is_step(old(self)@, Call::Cancel { job_name: job_name@ }, r is Some, final(self)@),
            match r {
                Some(job) => exists|name: Seq<char>|
                    #![trigger old(self)@[name]]
                    old(self)@.dom().contains(name) && first_with_name(
                        old(self)@[name].jobs,
                        job_name@,
                    ) is Some && {
                        let b = first_with_name(old(self)@[name].jobs, job_name@)->0;
                        job.deep_view() == old(self)@[name].jobs[b] && job.deep_view().name
                            == job_name@ && final(self)@ == old(self)@.insert(
                            name,
                            without_job(old(self)@[name], b),
                        )
                    },
                None => final(self)@ == old(self)@ && forall|name: Seq<char>| #[trigger]
                    old(self)@.dom().contains(name) ==> first_with_name(
                        old(self)@[name].jobs,
                        job_name@,
                    ) is None,
            },
    {
        let names = self.queues.keys();
        let ghost before = self@;
        let ghost keys = names.deep_view();
        let mut i: usize = 0;
        while i < names.len()
            invariant
                i <= names.len(),
                keys == names.deep_view(),
                before == old(self)@,
                before == self.queues@,
                self.default_queue == old(self).default_queue,
                keys.to_set() == before.dom(),
                forall|k: int|
                    0 <= k < i ==> first_with_name(
                        (#[trigger] before[keys[k]]).jobs,
                        job_name@,
                    ) is None,
            decreases names.len() - i,
        {
            let ghost name = keys[i as int];
            proof {
                assert(keys.to_set().contains(name)) by {
                    assert(keys.contains(name));
                }
            }
            match self.queues.remove(names[i].as_str()) {
                Some(mut q) => {
                    let ghost content = q.deep_view();
                    let found = q.queue.remove_by_name(job_name);
                    let ghost after = q.deep_view();
                    self.queues.insert(names[i].clone(), q);
                    match found {
                        Some(job) => {
                            proof {
                                let b = first_with_name(content.jobs, job_name@)->0;
                                assert(after == without_job(content, b));
                                assert(self@ =~= before.insert(
                                    name,
                                    without_job(before[name], b),
                                ));
                            }
                            return Some(job);
                        },
                        None => {
                            proof {
                                assert(after == content);
                                assert(self.queues@ =~= before);
                            }
                        },
                    }
                },
                None => {},
            }
            i += 1;
        }
        proof {
            assert forall|name: Seq<char>| #[trigger] before.dom().contains(name) implies
                first_with_name(before[name].jobs, job_name@) is None by {
                assert(keys.to_set().contains(name));
                let k = keys.index_of(name);
                assert(first_with_name(before[keys[k]].jobs, job_name@) is None);
            }
        }
        None
    }

    /// Records that a job has started running.
    pub fn record_job_started(&mut self, queue_name: &str, nodes: u32, namespace: &str)
        requires
            old(self)@.dom().contains(queue_name@) ==> start_fits(
                old(self)@[queue_name@],
                nodes as nat,
                namespace@,
            ),
        ensures
            final(self).default_name() == old(self).default_name(),
            final(self)@ == started(old(self)@, queue_name@, nodes as nat, namespace@),
            is_step(
                old(self)@,
                Call::Start { name: queue_name@, nodes: nodes as nat, user: namespace@ },
                true,
                final(self)@,
            ),
    {
        let ghost before = self@;
        match self.queues.remove(queue_name) {
            Some(mut q) => {
                let ghost content = q.deep_view();
                let count = user_count(&q, namespace);
                q.active_jobs = q.active_jobs + 1;
                q.used_nodes = q.used_nodes + nodes;
                q.user_job_counts.insert(namespace.to_owned(), count + 1);
                let ghost after = q.deep_view();
                self.queues.insert(queue_name.to_owned(), q);
                proof {
                    assert(after.user_counts =~= after_start(
                        content,
                        nodes as nat,
                        namespace@,
                    ).user_counts);
                    assert(self@ =~= before.insert(queue_name@, after));
                }
            },
            None => {
                proof {
                    assert(self@ =~= before);
                }
            },
        }
    }

    /// Records that a running job has finished.
    pub fn record_job_finished(&mut self, queue_name: &str, nodes: u32, namespace: &str)
        ensures
            final(self).default_name() == old(self).default_name(),
            final(self)@ == finished(old(self)@, queue_name@, nodes as nat, namespace@),
            is_step(
                old(self)@,
                Call::Finish { name: queue_name@, nodes: nodes as nat, user: namespace@ },
                true,
                final(self)@,
            ),
    {
        let ghost before = self@;
        match self.queues.remove(queue_name) {
            Some(mut q) => {
                let ghost content = q.deep_view();
                let count = user_count(&q, namespace);
                q.active_jobs = q.active_jobs.saturating_sub(1);
                q.used_nodes = q.used_nodes.saturating_sub(nodes);
                q.user_job_counts.insert(namespace.to_owned(), count.saturating_sub(1));
                let ghost after = q.deep_view();
                self.queues.insert(queue_name.to_owned(), q);
                proof {
                    assert(after.user_counts =~= after_finish(
                        content,
                        nodes as nat,
                        namespace@,
                    ).user_counts);
                    assert(self@ =~= before.insert(queue_name@, after));
                }
            },
            None => {
                proof {
                    assert(self@ =~= before);
                }
            },
        }
    }

    /// Number of pending jobs in a specific queue; none where it does not exist.
    pub fn queue_depth(&self, queue_name: &str) -> (r: usize)
        ensures
            r == depth(self@, queue_name@),
    {
        match self.queues.get(queue_name) {
            Some(q) => q.queue.len(),
            None => 0,
        }
    }

    /// Total number of pending jobs across all queues.
    pub fn total_depth(&self) -> (r: usize)
        requires
            pending_in(self@, self@.dom()) <= usize::MAX,
        ensures
            r == pending_in(self@, self@.dom()),
            self@.dom().finite(),
    {
        let n = self.queues.len();
        let ghost keys = self.queues.keys_seq();
        let ghost queues = self@;
        let mut total: usize = 0;
        let mut i: usize = 0;
        proof {
            assert(keys.take(0).to_set() =~= Set::<Seq<char>>::empty());
        }
        while i < n
            invariant
                i <= n,
                n == keys.len(),
                queues == self.queues@,
                keys == self.queues.keys_seq(),
                self.queues.entries_make_map(),
                pending_in(queues, queues.dom()) <= usize::MAX,
                total == pending_in(queues, keys.take(i as int).to_set()),
            decreases n - i,
        {
            proof {
                let more = keys.take(i + 1).to_set();
                lemma_prefix_set(keys, i as int);
                lemma_pending_remove(queues, more, keys[i as int]);
                lemma_pending_subset(queues, more, queues.dom());
            }
            total += self.queues.value_at(i).queue.len();
            i += 1;
        }
        proof {
            assert(keys.take(n as int) =~= keys);
        }
        total
    }

    /// Registered queue names in lexicographic order.
    pub fn queue_names(&self) -> (r: Vec<String>)
        ensures
            sorted(r.deep_view()),
            r.deep_view().no_duplicates(),
            r.deep_view().to_set() == self@.dom(),
    {
        let names = self.queues.keys();
        let ghost keys = names.deep_view();
        let r = sort_strings(names);
        let ghost names_sorted = r.deep_view();
        proof {
            keys.lemma_multiset_has_no_duplicates();
            names_sorted.lemma_multiset_has_no_duplicates_conv();
            assert(names_sorted.to_set() =~= keys.to_set()) by {
                assert forall|x: Seq<char>|
                    names_sorted.to_set().contains(x) == keys.to_set().contains(x) by {
                    vstd::seq_lib::to_multiset_contains(names_sorted, x);
                    vstd::seq_lib::to_multiset_contains(keys, x);
                }
            }
        }
        r
    }

    /// Stats snapshot for a given queue.
    pub fn queue_stats(&self, queue_name: &str) -> (r: Option<QueueStats>)
        ensures
            match r {
                Some(stats) => self@.dom().contains(queue_name@) && {
                    let q = self@[queue_name@];
                    stats.pending_jobs == q.jobs.len() && stats.active_jobs == q.active_jobs
                        && stats.used_nodes == q.used_nodes && stats.max_nodes
                        == q.config.max_nodes
                },
                None => !self@.dom().contains(queue_name@),
            },
    {
        match self.queues.get(queue_name) {
            Some(q) => Some(
                QueueStats {
                    pending_jobs: q.queue.len(),
                    active_jobs: q.active_jobs,
                    used_nodes: q.used_nodes,
                    max_nodes: q.config.max_nodes,
                },
            ),
            None => None,
        }
    }
}

/// Any queue can be counted first.
pub proof fn lemma_pending_remove(queues: QueuesView, names: Set<Seq<char>>, name: Seq<char>)
    requires
        names.finite(),
        names.contains(name),
    ensures
        pending_in(queues, names) == queues[name].jobs.len() + pending_in(
            queues,
            names.remove(name),
        ),
    decreases names.len(),
{
    let first = names.choose();
    assert(names.len() > 0) by {
        if names.len() == 0 {
            assert(names =~= Set::empty());
        }
    }
    if first != name {
        lemma_pending_remove(queues, names.remove(first), name);
        lemma_pending_remove(queues, names.remove(name), first);
        assert(names.remove(first).remove(name) =~= names.remove(name).remove(first));
    }
}

proof fn lemma_pending_subset(queues: QueuesView, some: Set<Seq<char>>, all: Set<Seq<char>>)
    requires
        all.finite(),
        some.subset_of(all),
    ensures
        pending_in(queues, some) <= pending_in(queues, all),
    decreases all.len(),
{
    if some =~= all {
    } else {
        let x = choose|x: Seq<char>| all.contains(x) && !some.contains(x);
        lemma_pending_remove(queues, all, x);
        assert(some.subset_of(all.remove(x)));
        lemma_pending_subset(queues, some, all.remove(x));
    }
}

/// How many jobs are pending rests on the lengths of the queues alone.
pub proof fn lemma_pending_same(a: QueuesView, b: QueuesView, names: Set<Seq<char>>)
    requires
        names.finite(),
        forall|x: Seq<char>| names.contains(x) ==> (#[trigger] a[x]).jobs.len() == b[x].jobs.len(),
    ensures
        pending_in(a, names) == pending_in(b, names),
    decreases names.len(),
{
    if names.len() > 0 {
        let x = names.choose();
        assert(names.contains(x));
        assert(a[x].jobs.len() == b[x].jobs.len());
        lemma_pending_same(a, b, names.remove(x));
    }
}

/// A change of one queue changes how many jobs are pending by what it changes there.
pub proof fn lemma_pending_update(queues: QueuesView, name: Seq<char>, q: QueueView)
    requires
        queues.dom().finite(),
        queues.dom().contains(name),
    ensures
        pending_in(queues.insert(name, q), queues.dom()) == pending_in(queues, queues.dom())
            - queues[name].jobs.len() + q.jobs.len(),
{
    let after = queues.insert(name, q);
    let names = queues.dom();
    lemma_pending_remove(queues, names, name);
    lemma_pending_remove(after, names, name);
    lemma_pending_same(queues, after, names.remove(name));
}

/// A submission that is taken adds one pending job, and taking a job out removes one.
pub proof fn law_pending_jobs_are_counted(
    queues: QueuesView,
    name: Seq<char>,
    job: JobView,
    b: int,
)
    requires
        queues.dom().finite(),
        queues.dom().contains(name),
    ensures
        pending_in(queues.insert(name, with_job(queues[name], job)), queues.dom()) == pending_in(
            queues,
            queues.dom(),
        ) + 1,
        0 <= b < queues[name].jobs.len() ==> pending_in(
            queues.insert(name, without_job(queues[name], b)),
            queues.dom(),
        ) == pending_in(queues, queues.dom()) - 1,
{
    lemma_pending_update(queues, name, with_job(queues[name], job));
    if 0 <= b < queues[name].jobs.len() {
        lemma_pending_update(queues, name, without_job(queues[name], b));
    }
}

/// A job that is taken exceeds none of the limits of its queue.
pub proof fn law_taken_job_is_within_limits(queues: QueuesView, job: JobView)
    requires
        submission_fault(queues, job) is None,
    ensures
        queues.dom().contains(job.queue),
        queues[job.queue].used_nodes + job.nodes <= queues[job.queue].config.max_nodes,
        queues[job.queue].config.max_walltime is Some && job.walltime is Some
            ==> job.walltime->0.seconds <= queues[job.queue].config.max_walltime->0.seconds,
        queues[job.queue].config.max_jobs_per_user is Some ==> queues[job.queue].count_of(
            job.namespace,
        ) < queues[job.queue].config.max_jobs_per_user->0,
{
}

/// A job that starts and finishes leaves the counters of its queue as they were.
pub proof fn law_finish_undoes_start(
    q: QueueView,
    nodes: nat,
    user: Seq<char>,
    other: Seq<char>,
)
    requires
        start_fits(q, nodes, user),
    ensures
        after_finish(after_start(q, nodes, user), nodes, user).active_jobs == q.active_jobs,
        after_finish(after_start(q, nodes, user), nodes, user).used_nodes == q.used_nodes,
        after_finish(after_start(q, nodes, user), nodes, user).count_of(other) == q.count_of(other),
        after_finish(after_start(q, nodes, user), nodes, user).jobs == q.jobs,
{
}

} // verus!
