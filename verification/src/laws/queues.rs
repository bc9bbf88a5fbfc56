//! Queues: who may submit what, and which job comes next.

use vstd::prelude::*;
use crate::model::error::BuboError;
use crate::model::time::Timestamp;
use crate::scheduler::queue::{JobView, PriorityQueue, QueuedJob};
use crate::scheduler::queue_manager::{QueueConfig, QueueManager, QueueStats, QueuesView};

verus! {

/// Whether a point in time is earlier than another.
pub open spec fn earlier(a: Timestamp, b: Timestamp) -> bool {
    a.seconds < b.seconds || (a.seconds == b.seconds && a.nanos < b.nanos)
}

/// Whether a job has to come before another: it has a higher priority, or the same and was
/// submitted earlier.
pub open spec fn comes_first(a: JobView, b: JobView) -> bool {
    a.priority > b.priority || (a.priority == b.priority && earlier(a.submit_time, b.submit_time))
}

/// The job that is taken from a queue is one before which no other has to come; of jobs that
/// could stand for each other, it is the one that arrived first. The rest stays in its
/// order. A job is taken whenever there is one, and the one that is shown is the one that
/// is taken.
pub proof fn law_best_job_is_taken(
    queue: &mut PriorityQueue,
    before: &PriorityQueue,
    shown: Option<&QueuedJob>,
    r: Option<QueuedJob>,
)
    requires
        call_ensures(PriorityQueue::pop, (queue,), r),
        *before == *old(queue),
        call_ensures(PriorityQueue::peek, (before,), shown),
    ensures
        r is Some <==> old(queue)@.len() > 0,
        shown is Some <==> r is Some,
        r is Some ==> {
            let jobs = old(queue)@;
            let taken = r->0.deep_view();
            &&& (shown->0).deep_view() == taken
            &&& forall|k: int| 0 <= k < jobs.len() ==> !comes_first(#[trigger] jobs[k], taken)
            &&& exists|b: int|
                0 <= b < jobs.len() && #[trigger] jobs[b] == taken && final(queue)@ == jobs.remove(b)
                    && forall|k: int| 0 <= k < b ==> comes_first(taken, #[trigger] jobs[k])
        },
        r is None ==> final(queue)@ == old(queue)@,
{
    if r is Some {
        let jobs = old(queue)@;
        let b = choose|b: int|
            crate::scheduler::queue::is_next(jobs, b) && r->0.deep_view() == #[trigger] jobs[b]
                && final(queue)@ == jobs.remove(b);
        let c = choose|c: int|
            crate::scheduler::queue::is_next(jobs, c) && (shown->0).deep_view()
                == #[trigger] jobs[c];
        crate::scheduler::queue::law_next_job_is_unique(jobs, b, c);
        assert(jobs[b] == r->0.deep_view());
    }
}

/// A job that is added to a queue is in it, behind the others, and is counted.
pub proof fn law_added_jobs_are_queued(
    queue: &mut PriorityQueue,
    job: QueuedJob,
    before: &PriorityQueue,
    after: &PriorityQueue,
    n: usize,
    m: usize,
    empty: bool,
)
    requires
        call_ensures(PriorityQueue::push, (queue, job), ()),
        *before == *old(queue),
        *after == *final(queue),
        call_ensures(PriorityQueue::len, (before,), n),
        call_ensures(PriorityQueue::len, (after,), m),
        call_ensures(PriorityQueue::is_empty, (after,), empty),
    ensures
        m == n + 1,
        !empty,
        after@.last() == job.deep_view(),
        forall|k: int| 0 <= k < before@.len() ==> #[trigger] after@[k] == before@[k],
{
}

/// What is taken out of a queue by name is the first job of that name; nothing is taken out
/// exactly where there is none.
pub proof fn law_jobs_are_taken_out_by_name(
    queue: &mut PriorityQueue,
    name: &str,
    r: Option<QueuedJob>,
)
    requires
        call_ensures(PriorityQueue::remove_by_name, (queue, name), r),
    ensures
        r is None <==> forall|k: int|
            0 <= k < old(queue)@.len() ==> (#[trigger] old(queue)@[k]).name != name@,
        r is None ==> final(queue)@ == old(queue)@,
        r is Some ==> r->0.name@ == name@ && exists|b: int|
            0 <= b < old(queue)@.len() && #[trigger] old(queue)@[b] == r->0.deep_view() && final(queue)@ == old(queue)@.remove(b) && forall|k: int|
                0 <= k < b ==> (#[trigger] old(queue)@[k]).name != name@,
{
    lemma_first_with_name(old(queue)@, name@);
    if r is Some {
        let b = crate::scheduler::queue::first_with_name(old(queue)@, name@)->0;
        assert(old(queue)@[b] == r->0.deep_view());
    }
}

proof fn lemma_first_with_name(jobs: Seq<JobView>, name: Seq<char>)
    ensures
        match crate::scheduler::queue::first_with_name(jobs, name) {
            Some(b) => 0 <= b < jobs.len() && jobs[b].name == name && forall|k: int|
                0 <= k < b ==> (#[trigger] jobs[k]).name != name,
            None => forall|k: int| 0 <= k < jobs.len() ==> (#[trigger] jobs[k]).name != name,
        },
    decreases jobs.len(),
{
    if jobs.len() > 0 {
        let rest = jobs.drop_first();
        lemma_first_with_name(rest, name);
        if jobs[0].name != name {
            match crate::scheduler::queue::first_with_name(rest, name) {
                Some(b) => {
                    assert forall|k: int| 0 <= k < b + 1 implies (#[trigger] jobs[k]).name != name by {
                        if k > 0 {
                            assert(rest[k - 1].name != name);
                        }
                    }
                },
                None => {
                    assert forall|k: int| 0 <= k < jobs.len() implies (#[trigger] jobs[k]).name
                        != name by {
                        if k > 0 {
                            assert(rest[k - 1].name != name);
                        }
                    }
                },
            }
        }
    }
}

/// Whether a queue has room for a job: it allows and still has the nodes, allows the
/// walltime, and the user has not reached the limit of jobs.
pub open spec fn allows(queues: QueuesView, job: JobView) -> bool {
    let q = queues[job.queue];
    let running = if q.user_counts.dom().contains(job.namespace) {
        q.user_counts[job.namespace] as int
    } else {
        0
    };
    &&& q.used_nodes + job.nodes <= q.config.max_nodes
    &&& q.config.max_walltime is Some && job.walltime is Some ==> job.walltime->0.seconds
        <= q.config.max_walltime->0.seconds
    &&& q.config.max_jobs_per_user is Some ==> running < q.config.max_jobs_per_user->0
}

/// A job is taken exactly where its queue exists and allows it. It then waits behind the
/// others of its queue, and nothing else changes; a job that is refused changes nothing. A
/// refusal says whether the queue is unknown or a limit is reached.
pub proof fn law_jobs_are_taken_within_limits(
    manager: &mut QueueManager,
    job: QueuedJob,
    r: Result<(), BuboError>,
    other: Seq<char>,
)
    requires
        call_ensures(QueueManager::submit_job, (manager, job), r),
    ensures
        r is Ok <==> old(manager)@.dom().contains(job.queue@) && allows(
            old(manager)@,
            job.deep_view(),
        ),
        r is Err ==> final(manager)@ == old(manager)@,
        r is Err && r->Err_0 is QueueNotFound ==> (r->Err_0->queue_name)@ == job.queue@,
        r is Err ==> (r->Err_0 is QueueNotFound <==> !old(manager)@.dom().contains(job.queue@)) && (
        r->Err_0 is ValidationError <==> old(manager)@.dom().contains(job.queue@)),
        r is Ok ==> {
            let before = old(manager)@[job.queue@];
            let after = final(manager)@[job.queue@];
            &&& final(manager)@.dom() == old(manager)@.dom()
            &&& after.jobs == before.jobs.push(job.deep_view())
            &&& after.config == before.config
            &&& after.active_jobs == before.active_jobs
            &&& after.used_nodes == before.used_nodes
            &&& after.user_counts == before.user_counts
            &&& other != job.queue@ ==> final(manager)@[other] == old(manager)@[other]
        },
{
    if r is Ok {
        assert(final(manager)@.dom() =~= old(manager)@.dom());
    }
}

/// The job that comes next of all queues is one before which none has to come, whatever queue
/// it waits in, and it is taken from its queue alone. There is one whenever any waits.
pub proof fn law_best_job_of_all_queues_is_next(
    manager: &mut QueueManager,
    r: Option<QueuedJob>,
    name: Seq<char>,
    k: int,
)
    requires
        call_ensures(QueueManager::next_job, (manager,), r),
        old(manager)@.dom().contains(name),
        0 <= k < old(manager)@[name].jobs.len(),
    ensures
        r is Some,
        !comes_first(old(manager)@[name].jobs[k], r->0.deep_view()),
        final(manager)@[name].jobs.len() == old(manager)@[name].jobs.len()
            || final(manager)@[name].jobs.len() == old(manager)@[name].jobs.len() - 1,
        final(manager)@[name].config == old(manager)@[name].config,
        final(manager)@[name].used_nodes == old(manager)@[name].used_nodes,
        final(manager)@[name].active_jobs == old(manager)@[name].active_jobs,
        exists|from: Seq<char>|
            old(manager)@.dom().contains(from) && old(manager)@[from].jobs.contains(
                r->0.deep_view(),
            ) && #[trigger] final(manager)@[from].jobs.len() == old(manager)@[from].jobs.len() - 1,
{
    if r is Some {
        let (from, b) = choose|from: Seq<char>, b: int|
            crate::scheduler::queue_manager::is_next_of_all(old(manager)@, from, b)
                && r->0.deep_view() == #[trigger] old(manager)@[from].jobs[b] && final(manager)@
                == old(manager)@.insert(
                from,
                crate::scheduler::queue_manager::without_job(old(manager)@[from], b),
            );
        assert(!old(manager)@[name].jobs[k].outranks(old(manager)@[from].jobs[b]));
        assert(old(manager)@[from].jobs.contains(r->0.deep_view()));
        assert(final(manager)@[from].jobs.len() == old(manager)@[from].jobs.len() - 1);
    }
}

/// The job that comes next of one queue is the best of that queue, and other queues are left
/// alone. There is one exactly where any waits there.
pub proof fn law_best_job_of_a_queue_is_next(
    manager: &mut QueueManager,
    name: &str,
    r: Option<QueuedJob>,
    k: int,
    other: Seq<char>,
)
    requires
        call_ensures(QueueManager::next_job_from, (manager, name), r),
    ensures
        r is Some <==> old(manager)@.dom().contains(name@) && old(manager)@[name@].jobs.len() > 0,
        r is None ==> final(manager)@ == old(manager)@,
        r is Some ==> {
            let jobs = old(manager)@[name@].jobs;
            &&& jobs.contains(r->0.deep_view())
            &&& 0 <= k < jobs.len() ==> !comes_first(jobs[k], r->0.deep_view())
            &&& final(manager)@[name@].jobs.len() == jobs.len() - 1
            &&& other != name@ ==> final(manager)@[other] == old(manager)@[other]
        },
{
    if r is Some {
        let jobs = old(manager)@[name@].jobs;
        let b = choose|b: int|
            crate::scheduler::queue::is_next(jobs, b) && r->0.deep_view() == #[trigger] jobs[b];
        assert(jobs[b] == r->0.deep_view());
    }
}

/// A job is cancelled by its name, out of whatever queue it waits in. Nothing is cancelled
/// exactly where no job of that name waits.
pub proof fn law_waiting_jobs_can_be_cancelled(
    manager: &mut QueueManager,
    job_name: &str,
    r: Option<QueuedJob>,
    name: Seq<char>,
    k: int,
)
    requires
        call_ensures(QueueManager::cancel_job, (manager, job_name), r),
    ensures
        old(manager)@.dom().contains(name) && 0 <= k < old(manager)@[name].jobs.len() && old(
            manager,
        )@[name].jobs[k].name == job_name@ ==> r is Some,
        r is None ==> final(manager)@ == old(manager)@,
        r is Some ==> r->0.name@ == job_name@ && exists|from: Seq<char>|
            old(manager)@.dom().contains(from) && old(manager)@[from].jobs.contains(
                r->0.deep_view(),
            ) && #[trigger] final(manager)@[from].jobs.len() == old(manager)@[from].jobs.len() - 1,
{
    if old(manager)@.dom().contains(name) {
        lemma_first_with_name(old(manager)@[name].jobs, job_name@);
    }
    if r is Some {
        let from = choose|from: Seq<char>|
            #![trigger old(manager)@[from]]
            old(manager)@.dom().contains(from) && crate::scheduler::queue::first_with_name(
                old(manager)@[from].jobs,
                job_name@,
            ) is Some && {
                let b = crate::scheduler::queue::first_with_name(
                    old(manager)@[from].jobs,
                    job_name@,
                )->0;
                r->0.deep_view() == old(manager)@[from].jobs[b] && r->0.deep_view().name == job_name@
                    && final(manager)@ == old(manager)@.insert(
                    from,
                    crate::scheduler::queue_manager::without_job(old(manager)@[from], b),
                )
            };
        lemma_first_with_name(old(manager)@[from].jobs, job_name@);
        assert(old(manager)@[from].jobs.contains(r->0.deep_view()));
        assert(final(manager)@[from].jobs.len() == old(manager)@[from].jobs.len() - 1);
    }
}

/// How many jobs of a user run in a queue.
pub open spec fn running_of(queues: QueuesView, name: Seq<char>, user: Seq<char>) -> int {
    if queues[name].user_counts.dom().contains(user) {
        queues[name].user_counts[user] as int
    } else {
        0
    }
}

/// A job that starts counts once in its queue, with its nodes, and for its user alone. The
/// jobs that wait, and other queues, stay as they are; of a queue that is not known nothing
/// is counted.
pub proof fn law_starts_are_counted(
    manager: &mut QueueManager,
    name: &str,
    nodes: u32,
    user: &str,
    other: Seq<char>,
    someone: Seq<char>,
)
    requires
        call_ensures(QueueManager::record_job_started, (manager, name, nodes, user), ()),
        old(manager)@.dom().contains(name@) ==> running_of(old(manager)@, name@, user@) < u32::MAX,
    ensures
        !old(manager)@.dom().contains(name@) ==> final(manager)@ == old(manager)@,
        other != name@ ==> final(manager)@[other] == old(manager)@[other],
        old(manager)@.dom().contains(name@) ==> {
            let before = old(manager)@[name@];
            let after = final(manager)@[name@];
            &&& after.active_jobs == before.active_jobs + 1
            &&& after.used_nodes == before.used_nodes + nodes
            &&& running_of(final(manager)@, name@, user@) == running_of(
                old(manager)@,
                name@,
                user@,
            ) + 1
            &&& someone != user@ ==> running_of(final(manager)@, name@, someone) == running_of(
                old(manager)@,
                name@,
                someone,
            )
            &&& after.jobs == before.jobs
            &&& after.config == before.config
        },
{
}

/// A job that finishes is counted off again, with its nodes, and for its user alone; no
/// counter goes below zero.
pub proof fn law_ends_are_counted(
    manager: &mut QueueManager,
    name: &str,
    nodes: u32,
    user: &str,
    other: Seq<char>,
    someone: Seq<char>,
)
    requires
        call_ensures(QueueManager::record_job_finished, (manager, name, nodes, user), ()),
    ensures
        !old(manager)@.dom().contains(name@) ==> final(manager)@ == old(manager)@,
        other != name@ ==> final(manager)@[other] == old(manager)@[other],
        old(manager)@.dom().contains(name@) ==> {
            let before = old(manager)@[name@];
            let after = final(manager)@[name@];
            &&& before.active_jobs > 0 ==> after.active_jobs == before.active_jobs - 1
            &&& before.active_jobs == 0 ==> after.active_jobs == 0
            &&& before.used_nodes >= nodes ==> after.used_nodes == before.used_nodes - nodes
            &&& before.used_nodes < nodes ==> after.used_nodes == 0
            &&& running_of(old(manager)@, name@, user@) > 0 ==> running_of(
                final(manager)@,
                name@,
                user@,
            ) == running_of(old(manager)@, name@, user@) - 1
            &&& running_of(old(manager)@, name@, user@) == 0 ==> running_of(
                final(manager)@,
                name@,
                user@,
            ) == 0
            &&& someone != user@ ==> running_of(final(manager)@, name@, someone) == running_of(
                old(manager)@,
                name@,
                someone,
            )
            &&& after.jobs == before.jobs
            &&& after.config == before.config
        },
{
}

/// A queue that is registered has its new limits, and keeps its jobs and counters if it
/// existed; other queues stay as they are. A new queue starts with nothing.
pub proof fn law_registered_queues_keep_their_jobs(
    manager: &mut QueueManager,
    name: &str,
    config: QueueConfig,
    other: Seq<char>,
)
    requires
        call_ensures(QueueManager::register_queue, (manager, name, config), ()),
    ensures
        final(manager)@.dom().contains(name@),
        final(manager)@[name@].config == config,
        old(manager)@.dom().contains(name@) ==> {
            let before = old(manager)@[name@];
            let after = final(manager)@[name@];
            &&& after.jobs == before.jobs
            &&& after.active_jobs == before.active_jobs
            &&& after.used_nodes == before.used_nodes
            &&& after.user_counts == before.user_counts
        },
        !old(manager)@.dom().contains(name@) ==> {
            let after = final(manager)@[name@];
            &&& after.jobs.len() == 0
            &&& after.active_jobs == 0
            &&& after.used_nodes == 0
            &&& after.user_counts == Map::<Seq<char>, u32>::empty()
        },
        other != name@ ==> final(manager)@.dom().contains(other) == old(manager)@.dom().contains(
            other,
        ) && final(manager)@[other] == old(manager)@[other],
{
}

/// A queue is removed exactly where it exists and no job waits in it; other queues stay.
pub proof fn law_only_empty_queues_are_removed(
    manager: &mut QueueManager,
    name: &str,
    r: Result<(), BuboError>,
    other: Seq<char>,
)
    requires
        call_ensures(QueueManager::remove_queue, (manager, name), r),
    ensures
        r is Ok <==> old(manager)@.dom().contains(name@) && old(manager)@[name@].jobs.len() == 0,
        r is Ok ==> !final(manager)@.dom().contains(name@),
        r is Err ==> final(manager)@ == old(manager)@,
        r is Err ==> (r->Err_0 is QueueNotFound <==> !old(manager)@.dom().contains(name@)),
        other != name@ ==> final(manager)@.dom().contains(other) == old(manager)@.dom().contains(
            other,
        ) && final(manager)@[other] == old(manager)@[other],
{
}

/// A new manager has one queue, with nothing in it and no limits.
pub proof fn law_new_managers_have_one_queue(
    default_queue: &str,
    manager: QueueManager,
    other: Seq<char>,
)
    requires
        call_ensures(QueueManager::new, (default_queue,), manager),
    ensures
        manager@.dom().contains(other) <==> other == default_queue@,
        ({
            let q = manager@[default_queue@];
            &&& q.jobs.len() == 0 && q.active_jobs == 0 && q.used_nodes == 0
            &&& q.config.max_nodes == u32::MAX
            &&& q.config.max_walltime is None && q.config.max_jobs_per_user is None
        }),
{
}

/// What is told of a queue is what it holds: how many jobs wait, how many run, and on how
/// many of how many nodes. Of a queue that does not exist nothing is told, and nothing
/// waits in it.
pub proof fn law_queues_tell_what_they_hold(
    manager: &QueueManager,
    name: &str,
    depth: usize,
    stats: Option<QueueStats>,
)
    requires
        call_ensures(QueueManager::queue_depth, (manager, name), depth),
        call_ensures(QueueManager::queue_stats, (manager, name), stats),
    ensures
        stats is Some <==> manager@.dom().contains(name@),
        stats is None ==> depth == 0,
        stats is Some ==> {
            let q = manager@[name@];
            &&& depth == q.jobs.len()
            &&& stats->0.pending_jobs == depth
            &&& stats->0.active_jobs == q.active_jobs
            &&& stats->0.used_nodes == q.used_nodes
            &&& stats->0.max_nodes == q.config.max_nodes
        },
{
}

/// How many jobs wait in all is how many wait in each queue, added up, and queues are listed
/// by name, each once and in order.
pub proof fn law_total_is_sum_of_queues(
    manager: &QueueManager,
    names: Vec<String>,
    total: usize,
    name: Seq<char>,
    i: int,
    j: int,
)
    requires
        call_ensures(QueueManager::queue_names, (manager,), names),
        call_ensures(QueueManager::total_depth, (manager,), total),
    ensures
        total == waiting_in(manager@, names.deep_view()),
        names.deep_view().contains(name) <==> manager@.dom().contains(name),
        names.deep_view().no_duplicates(),
        0 <= i < j < names@.len() ==> crate::text::text_le(names@[i]@, names@[j]@),
{
    let list = names.deep_view();
    crate::scheduler::queue_history::law_total_depth_is_sum_of_depths(manager@, list);
    lemma_waiting(manager@, list);
    assert(list.to_set().contains(name) == list.contains(name));
    if 0 <= i < j < names@.len() {
        assert(list[i] == names@[i]@);
        assert(list[j] == names@[j]@);
    }
}

/// How many jobs wait in the queues of a list, added up.
pub open spec fn waiting_in(queues: QueuesView, names: Seq<Seq<char>>) -> nat
    decreases names.len(),
{
    if names.len() == 0 {
        0
    } else {
        queues[names.last()].jobs.len() + waiting_in(queues, names.drop_last())
    }
}

proof fn lemma_waiting(queues: QueuesView, names: Seq<Seq<char>>)
    requires
        names.to_set().subset_of(queues.dom()),
    ensures
        waiting_in(queues, names) == crate::scheduler::queue_history::sum_of_depths(queues, names),
    decreases names.len(),
{
    if names.len() > 0 {
        assert(names.contains(names.last()));
        assert(names.to_set().contains(names.last()));
        let rest = names.drop_last();
        assert forall|x: Seq<char>| rest.to_set().contains(x) implies queues.dom().contains(x) by {
            let k = rest.index_of(x);
            assert(names[k] == x);
            assert(names.to_set().contains(x));
        }
        lemma_waiting(queues, rest);
    }
}

/// A job that is taken waits until it is handed out or cancelled: each submission that is
/// taken adds one to the total, and each job that comes out takes one off.
pub proof fn law_total_follows_jobs(
    manager: &mut QueueManager,
    job: QueuedJob,
    before: &QueueManager,
    after: &QueueManager,
    later: &mut QueueManager,
    end: &QueueManager,
    submitted: Result<(), BuboError>,
    handed: Option<QueuedJob>,
    a: usize,
    b: usize,
    c: usize,
)
    requires
        *before == *old(manager),
        *after == *final(manager),
        *old(later) == *after,
        *end == *final(later),
        call_ensures(QueueManager::submit_job, (manager, job), submitted),
        call_ensures(QueueManager::next_job, (later,), handed),
        call_ensures(QueueManager::total_depth, (before,), a),
        call_ensures(QueueManager::total_depth, (after,), b),
        call_ensures(QueueManager::total_depth, (end,), c),
    ensures
        submitted is Ok ==> b == a + 1,
        submitted is Err ==> b == a,
        handed is Some ==> c == b - 1,
        handed is None ==> c == b && b == 0,
{
    crate::scheduler::queue_history::law_calls_change_depth(
        before@,
        crate::scheduler::queue_history::Call::Submit { job: job.deep_view() },
        submitted is Ok,
        after@,
    );
    crate::scheduler::queue_history::law_calls_change_depth(
        after@,
        crate::scheduler::queue_history::Call::Next,
        handed is Some,
        end@,
    );
    if handed is None {
        lemma_nothing_waits(after@, after@.dom());
    }
}

proof fn lemma_nothing_waits(queues: QueuesView, names: Set<Seq<char>>)
    requires
        names.finite(),
        forall|name: Seq<char>| names.contains(name) ==> (#[trigger] queues[name]).jobs.len() == 0,
    ensures
        crate::scheduler::queue_manager::pending_in(queues, names) == 0,
    decreases names.len(),
{
    if names.len() > 0 {
        let name = names.choose();
        assert(names.contains(name));
        assert(queues[name].jobs.len() == 0);
        lemma_nothing_waits(queues, names.remove(name));
    }
}

} // verus!
