//! What holds of named queues over whole histories of calls.

use vstd::prelude::*;
use crate::scheduler::queue::JobView;
use crate::scheduler::queue_manager::{
    depth, finished, initial_queues, law_pending_jobs_are_counted, lemma_pending_remove,
    lemma_pending_same, lemma_pending_update, pending_in, registered, started, submission_fault,
    submitted, without_job, QueueConfig, QueueManager, QueuesView,
};
use crate::string_map::lemma_prefix_set;

verus! {

/// A call that may change the queues of a manager.
pub ghost enum Call {
    Register { name: Seq<char>, config: QueueConfig },
    Remove { name: Seq<char> },
    Submit { job: JobView },
    Next,
    NextFrom { name: Seq<char> },
    Cancel { job_name: Seq<char> },
    Start { name: Seq<char>, nodes: nat, user: Seq<char> },
    Finish { name: Seq<char>, nodes: nat, user: Seq<char> },
}

impl Call {
    /// Whether this is a call that takes a pending job out.
    pub open spec fn takes(self) -> bool {
        self is Next || self is NextFrom || self is Cancel
    }
}

/// Whether `after` is `before` without one pending job.
pub open spec fn loses_one(before: QueuesView, after: QueuesView) -> bool {
    exists|name: Seq<char>, b: int|
        before.dom().contains(name) && 0 <= b < before[name].jobs.len() && after == before.insert(
            name,
            #[trigger] without_job(before[name], b),
        )
}

/// Whether a call leads from `before` to `after`. It has success where it returns `Ok`
/// or a job, and where it returns nothing to say otherwise.
pub open spec fn is_step(before: QueuesView, call: Call, success: bool, after: QueuesView) -> bool {
    match call {
        Call::Register { name, config } => success && after == registered(before, name, config),
        Call::Remove { name } => if success {
            before.dom().contains(name) && before[name].jobs.len() == 0 && after == before.remove(
                name,
            )
        } else {
            after == before
        },
        Call::Submit { job } => success == (submission_fault(before, job) is None) && after == (
        if success {
            submitted(before, job)
        } else {
            before
        }),
        Call::Next | Call::NextFrom { .. } | Call::Cancel { .. } => if success {
            loses_one(before, after)
        } else {
            after == before
        },
        Call::Start { name, nodes, user } => success && after == started(before, name, nodes, user),
        Call::Finish { name, nodes, user } => success && after == finished(
            before,
            name,
            nodes,
            user,
        ),
    }
}

/// Whether `states` are those that a new manager goes through when `calls` are made,
/// each with success or without.
pub open spec fn is_history(states: Seq<QueuesView>, calls: Seq<(Call, bool)>) -> bool {
    &&& states.len() == calls.len() + 1
    &&& exists|default_queue: Seq<char>| states[0] == #[trigger] initial_queues(default_queue)
    &&& forall|i: int|
        0 <= i < calls.len() ==> is_step(
            states[i],
            (#[trigger] calls[i]).0,
            calls[i].1,
            states[i + 1],
        )
}

/// Number of submissions among `calls` that were taken.
pub open spec fn jobs_in(calls: Seq<(Call, bool)>) -> nat {
    calls.filter(|c: (Call, bool)| c.0 is Submit && c.1).len()
}

/// Number of jobs that `calls` took out.
pub open spec fn jobs_out(calls: Seq<(Call, bool)>) -> nat {
    calls.filter(|c: (Call, bool)| c.0.takes() && c.1).len()
}

/// Sum of the depths of the queues named in `names`, in turn.
pub open spec fn sum_of_depths(queues: QueuesView, names: Seq<Seq<char>>) -> nat
    decreases names.len(),
{
    if names.len() == 0 {
        0
    } else {
        sum_of_depths(queues, names.drop_last()) + depth(queues, names.last())
    }
}

/// A manager has finitely many queues.
pub proof fn law_queues_are_finite(manager: QueueManager)
    ensures
        manager@.dom().finite(),
{
    manager.lemma_finite();
}

/// Only a submission that is taken adds a pending job, one, and only a call that hands
/// a job out removes one. No other call changes how many jobs are pending.
pub proof fn law_calls_change_depth(
    before: QueuesView,
    call: Call,
    success: bool,
    after: QueuesView,
)
    requires
        before.dom().finite(),
        is_step(before, call, success, after),
    ensures
        after.dom().finite(),
        pending_in(after, after.dom()) == pending_in(before, before.dom()) + (if call is Submit
            && success {
            1int
        } else {
            0int
        }) - (if call.takes() && success {
            1int
        } else {
            0int
        }),
{
    match call {
        Call::Register { name, config } => {
            if before.dom().contains(name) {
                assert(after.dom() =~= before.dom());
                lemma_pending_update(before, name, after[name]);
            } else {
                assert(after.dom().remove(name) =~= before.dom());
                lemma_pending_remove(after, after.dom(), name);
                lemma_pending_same(before, after, before.dom());
            }
        },
        Call::Remove { name } => {
            if success {
                assert(after.dom() =~= before.dom().remove(name));
                lemma_pending_remove(before, before.dom(), name);
                lemma_pending_same(before, after, after.dom());
            }
        },
        Call::Submit { job } => {
            if success {
                assert(after.dom() =~= before.dom());
                law_pending_jobs_are_counted(before, job.queue, job, 0);
            }
        },
        Call::Next | Call::NextFrom { .. } | Call::Cancel { .. } => {
            if success {
                let (name, b) = choose|name: Seq<char>, b: int|
                    before.dom().contains(name) && 0 <= b < before[name].jobs.len() && after
                        == before.insert(name, #[trigger] without_job(before[name], b));
                assert(after.dom() =~= before.dom());
                law_pending_jobs_are_counted(before, name, before[name].jobs[b], b);
            }
        },
        Call::Start { name, .. } | Call::Finish { name, .. } => {
            if before.dom().contains(name) {
                assert(after.dom() =~= before.dom());
                lemma_pending_update(before, name, after[name]);
            }
        },
    }
}

/// In whatever state calls have brought a manager, as many jobs are pending as
/// submissions were taken, less those that were handed out or cancelled.
pub proof fn law_depth_over_history(states: Seq<QueuesView>, calls: Seq<(Call, bool)>)
    requires
        is_history(states, calls),
    ensures
        states.last().dom().finite(),
        pending_in(states.last(), states.last().dom()) == jobs_in(calls) - jobs_out(calls),
    decreases calls.len(),
{
    reveal(Seq::filter);
    if calls.len() == 0 {
        let default_queue = choose|default_queue: Seq<char>|
            states[0] == #[trigger] initial_queues(default_queue);
        let queues = states[0];
        assert(queues.dom() =~= set![default_queue]);
        lemma_pending_remove(queues, queues.dom(), default_queue);
        assert(queues.dom().remove(default_queue) =~= Set::empty());
    } else {
        let n = calls.len() - 1;
        let earlier = calls.drop_last();
        assert forall|i: int| 0 <= i < earlier.len() implies is_step(
            states.drop_last()[i],
            (#[trigger] earlier[i]).0,
            earlier[i].1,
            states.drop_last()[i + 1],
        ) by {
            assert(earlier[i] == calls[i]);
        }
        law_depth_over_history(states.drop_last(), earlier);
        assert(is_step(states[n], calls[n].0, calls[n].1, states[n + 1]));
        law_calls_change_depth(states[n], calls[n].0, calls[n].1, states[n + 1]);
    }
}

/// The total depth is the sum of the depths of the queues, when each is counted once,
/// in whatever order.
pub proof fn law_total_depth_is_sum_of_depths(queues: QueuesView, names: Seq<Seq<char>>)
    requires
        names.no_duplicates(),
        names.to_set() == queues.dom(),
    ensures
        queues.dom().finite(),
        pending_in(queues, queues.dom()) == sum_of_depths(queues, names),
{
    vstd::seq_lib::seq_to_set_is_finite(names);
    lemma_sum_of_prefix(queues, names, names.len() as int);
    assert(names.take(names.len() as int) =~= names);
}

/// What the total depth is in whatever state calls have brought a manager. It is the
/// sum of the depths of the queues, each named once, and the number of submissions that
/// were taken less that of the jobs that were handed out or cancelled. A queue that does
/// not exist has no depth, and starts, ends and registrations change nothing.
pub proof fn law_total_depth(
    states: Seq<QueuesView>,
    calls: Seq<(Call, bool)>,
    names: Seq<Seq<char>>,
)
    requires
        is_history(states, calls),
        names.no_duplicates(),
        names.to_set() == states.last().dom(),
    ensures
        pending_in(states.last(), states.last().dom()) == sum_of_depths(states.last(), names),
        sum_of_depths(states.last(), names) == jobs_in(calls) - jobs_out(calls),
        forall|name: Seq<char>| !names.contains(name) ==> #[trigger] depth(states.last(), name) == 0,
        forall|i: int|
            0 <= i < calls.len() && ((#[trigger] calls[i]).0 is Register || calls[i].0 is Start
                || calls[i].0 is Finish) ==> pending_in(states[i + 1], states[i + 1].dom())
                == pending_in(states[i], states[i].dom()),
{
    law_depth_over_history(states, calls);
    law_total_depth_is_sum_of_depths(states.last(), names);
    assert forall|name: Seq<char>| !names.contains(name) implies #[trigger] depth(
        states.last(),
        name,
    ) == 0 by {
        assert(!names.to_set().contains(name));
    }
    assert forall|i: int|
        0 <= i < calls.len() && ((#[trigger] calls[i]).0 is Register || calls[i].0 is Start
            || calls[i].0 is Finish) implies pending_in(states[i + 1], states[i + 1].dom())
        == pending_in(states[i], states[i].dom()) by {
        lemma_prefix_is_history(states, calls, i);
        law_depth_over_history(states.take(i + 1), calls.take(i));
        law_calls_change_depth(states[i], calls[i].0, calls[i].1, states[i + 1]);
    }
}

proof fn lemma_prefix_is_history(states: Seq<QueuesView>, calls: Seq<(Call, bool)>, n: int)
    requires
        is_history(states, calls),
        0 <= n <= calls.len(),
    ensures
        is_history(states.take(n + 1), calls.take(n)),
{
    assert forall|i: int| 0 <= i < n implies is_step(
        states.take(n + 1)[i],
        (#[trigger] calls.take(n)[i]).0,
        calls.take(n)[i].1,
        states.take(n + 1)[i + 1],
    ) by {
        assert(calls.take(n)[i] == calls[i]);
    }
}

proof fn lemma_sum_of_prefix(queues: QueuesView, names: Seq<Seq<char>>, n: int)
    requires
        names.no_duplicates(),
        names.to_set() == queues.dom(),
        0 <= n <= names.len(),
    ensures
        pending_in(queues, names.take(n).to_set()) == sum_of_depths(queues, names.take(n)),
    decreases n,
{
    if n == 0 {
        assert(names.take(0).to_set() =~= Set::<Seq<char>>::empty());
    } else {
        let name = names[n - 1];
        lemma_sum_of_prefix(queues, names, n - 1);
        lemma_prefix_set(names, n - 1);
        lemma_pending_remove(queues, names.take(n).to_set(), name);
        assert(names.take(n).drop_last() =~= names.take(n - 1));
        assert(names.take(n).last() == name);
        assert(names.contains(name));
        assert(queues.dom().contains(name)) by {
            assert(names.to_set().contains(name));
        }
    }
}

} // verus!
