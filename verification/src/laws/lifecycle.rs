//! How a job goes from one state to the next.

use vstd::prelude::*;
use crate::bubo;
use crate::controller::reconcile::{advance, launch_failed, launch_succeeded, stage_of, Stage, Step};
use crate::controller::reservation::ReservationManager;
use crate::laws::cluster::listed;
use crate::model::backend::{BackendJobStatus, LaunchResult};
use crate::model::cluster::ClusterState;
use crate::model::crd::{MPIJobSpec, MPIJobStatus};
use crate::model::time::{Moment, Timestamp};
use crate::model::types::{ExecutionBackendType, JobState};
use crate::scheduler::gang::Placement;
use crate::wren::crd::{WrenJobSpec, WrenJobStatus};
use crate::wren;

verus! {

/// A job that has ended, in whatever way, is cleaned up; any other is handled by its state.
pub proof fn law_ended_jobs_are_cleaned_up(state: JobState, r: Stage)
    requires
        call_ensures(stage_of, (state,), r),
    ensures
        r == Stage::Pending <==> state == JobState::Pending,
        r == Stage::Scheduling <==> state == JobState::Scheduling,
        r == Stage::Running <==> state == JobState::Running,
        r == Stage::Terminal <==> state == JobState::Succeeded || state == JobState::Failed || state
            == JobState::Cancelled || state == JobState::WalltimeExceeded,
{
}

/// Whether a step makes a job fail with the message `message`.
pub open spec fn fails_with(step: Step, message: Seq<char>) -> bool {
    !step.terminate && step.patch is Some && step.patch->0 is State && step.patch->0->state
        == JobState::Failed && step.patch->0->State_message is Some
        && step.patch->0->State_message->0@ == message
}

/// Whether a job asks for nothing that cannot be: it needs a node, and a container if it is
/// to run in one.
pub open spec fn is_sound(nodes: u32, backend: ExecutionBackendType, has_container: bool) -> bool {
    nodes > 0 && (backend == ExecutionBackendType::Container ==> has_container)
}

/// A pending job goes on to be scheduled exactly where it is sound, and else fails. A Wren
/// job gets its identifier on the way.
pub proof fn law_sound_jobs_are_scheduled(
    spec: &WrenJobSpec,
    mpi_spec: &MPIJobSpec,
    job_id: u64,
    checked: Result<(), String>,
    pending: Option<Step>,
    next: Step,
    mpi_next: Step,
)
    requires
        call_ensures(wren::reconciler::validate_job_spec, (spec,), checked),
        call_ensures(wren::reconciler::handle_pending, (spec,), pending),
        call_ensures(wren::reconciler::identified, (job_id,), next),
        call_ensures(bubo::reconciler::handle_pending, (mpi_spec,), mpi_next),
    ensures
        checked is Ok <==> is_sound(spec.nodes, spec.backend, spec.container is Some),
        pending is None <==> is_sound(spec.nodes, spec.backend, spec.container is Some),
        pending is Some ==> fails_with(pending->0, checked->Err_0@) && pending->0.transition is None,
        !next.terminate && next.patch is Some && next.patch->0 is Scheduled
            && next.patch->0->job_id == job_id,
        next.transition == Some((JobState::Pending, JobState::Scheduling)),
        is_sound(mpi_spec.nodes, mpi_spec.backend, mpi_spec.container is Some) ==> {
            &&& !mpi_next.terminate && mpi_next.patch is Some && mpi_next.patch->0 is State
            &&& mpi_next.patch->0->state == JobState::Scheduling
            &&& mpi_next.transition == Some((JobState::Pending, JobState::Scheduling))
        },
        !is_sound(mpi_spec.nodes, mpi_spec.backend, mpi_spec.container is Some) ==> {
            &&& mpi_next.patch is Some && mpi_next.patch->0 is State
            &&& mpi_next.patch->0->state == JobState::Failed
            &&& mpi_next.transition is None
        },
{
    lemma_patch(next);
    lemma_patch(mpi_next);
    if pending is Some {
        assert(pending.deep_view() == Some(pending->0.deep_view()));
        lemma_patch(pending->0);
    }
}

proof fn lemma_patch(step: Step)
    ensures
        step.deep_view().terminate == step.terminate,
        step.deep_view().transition == step.transition,
        step.patch is Some <==> step.deep_view().patch is Some,
        step.patch is Some ==> step.deep_view().patch->0 == step.patch->0.deep_view(),
        step.patch is Some && step.patch->0 is State ==> {
            &&& step.patch->0->State_message is Some <==> step.patch->0.deep_view()->State_message is Some
            &&& step.patch->0->State_message is Some ==> step.patch->0->State_message->0@
                == step.patch->0.deep_view()->State_message->0
        },
{
}

/// What a running job comes to is what its backend reports. A job that has succeeded is
/// completed at that time, one that has failed fails with its message, one that is gone
/// fails, one that starts up tells how many workers are ready, and one that runs is left
/// alone, or ended by the backend if it has overrun its walltime, and by nothing else.
pub proof fn law_backend_decides_what_comes(
    status: BackendJobStatus,
    overrun: Option<String>,
    now: String,
    r: Step,
)
    requires
        call_ensures(advance, (status, overrun, now), r),
    ensures
        r.terminate <==> status is Running && overrun is Some,
        status is Succeeded ==> r.patch is Some && r.patch->0 is Completed
            && r.patch->0->completion_time@ == now@ && r.transition == Some(
            (JobState::Running, JobState::Succeeded),
        ),
        status is Failed ==> fails_with(r, (status->message)@) && r.transition == Some(
            (JobState::Running, JobState::Failed),
        ),
        status is NotFound ==> fails_with(r, "backend resources disappeared"@)
            && r.transition is None,
        status is Launching ==> r.patch is Some && r.patch->0 is Workers && r.patch->0->ready
            == status->ready && r.patch->0->total == status->total && r.transition is None,
        status is Running && overrun is None ==> r.patch is None && r.transition is None,
        status is Running && overrun is Some ==> r.patch is Some && r.patch->0 is State
            && r.patch->0->state == JobState::WalltimeExceeded && r.patch->0->State_message is Some
            && r.patch->0->State_message->0@ == overrun->0@ && r.transition == Some(
            (JobState::Running, JobState::WalltimeExceeded),
        ),
{
    lemma_patch(r);
    assert(overrun.deep_view() is Some <==> overrun is Some);
}

/// Under either controller a running job is ended only while its backend runs it, and it is
/// ended exactly where a check of its walltime at that time has something to say.
pub proof fn law_running_jobs_are_ended_for_walltime(
    spec: &WrenJobSpec,
    status: &WrenJobStatus,
    mpi_spec: &MPIJobSpec,
    mpi_status: &MPIJobStatus,
    reported: BackendJobStatus,
    now: &Moment,
    walltime: Option<&str>,
    start: Option<&str>,
    overrun: Option<String>,
    r: Step,
    mpi_r: Step,
)
    requires
        call_ensures(wren::reconciler::handle_running, (spec, status, reported, now), r),
        call_ensures(
            bubo::reconciler::handle_running,
            (mpi_spec, mpi_status, reported, now),
            mpi_r,
        ),
        walltime.deep_view() == spec.walltime.deep_view(),
        start.deep_view() == status.start_time.deep_view(),
        mpi_spec.walltime.deep_view() == spec.walltime.deep_view(),
        mpi_status.start_time.deep_view() == status.start_time.deep_view(),
        call_ensures(
            crate::controller::walltime::check_walltime_at,
            (walltime, start, now@),
            overrun,
        ),
    ensures
        r.terminate <==> reported is Running && overrun is Some,
        mpi_r.terminate <==> r.terminate,
        r.transition == mpi_r.transition,
        reported is Succeeded ==> r.transition == Some((JobState::Running, JobState::Succeeded)),
        reported is Failed ==> r.transition == Some((JobState::Running, JobState::Failed)),
{
    lemma_patch(r);
    lemma_patch(mpi_r);
    assert(overrun.deep_view() is Some <==> overrun is Some);
}

/// A job that is launched runs, on the nodes of its placement, from that time on; what was
/// reserved for it is released, and nothing else.
pub proof fn law_launched_jobs_run(
    reservations: &mut ReservationManager,
    job: &str,
    node_count: u32,
    placement: &Placement,
    launched: LaunchResult,
    now: &Moment,
    text: String,
    r: Step,
    other: Seq<char>,
)
    requires
        call_ensures(
            launch_succeeded,
            (reservations, job, node_count, placement, launched, now),
            r,
        ),
        call_ensures(Moment::text, (now,), text),
    ensures
        !r.terminate,
        r.transition == Some((JobState::Scheduling, JobState::Running)),
        r.patch is Some && r.patch->0 is Started,
        r.patch->0->start_time@ == text@,
        r.patch->0->assigned_nodes.deep_view() == placement.nodes.deep_view(),
        r.patch->0->total_workers == node_count,
        r.patch->0->Started_message@ == launched.message@,
        !final(reservations)@.dom().contains(job@),
        other != job@ ==> final(reservations)@.dom().contains(other) == old(
            reservations,
        )@.dom().contains(other) && final(reservations)@[other] == old(reservations)@[other],
{
    lemma_patch(r);
}

/// A job that cannot be launched fails, and says why; what was reserved for it is released.
pub proof fn law_jobs_that_cannot_be_launched_fail(
    cluster: &mut ClusterState,
    reservations: &mut ReservationManager,
    job: &str,
    placement: &Placement,
    error: &str,
    r: Step,
    other: Seq<char>,
)
    requires
        call_ensures(launch_failed, (cluster, reservations, job, placement, error), r),
    ensures
        fails_with(r, "launch failed: "@ + error@),
        r.transition is None,
        !final(reservations)@.dom().contains(job@),
        other != job@ ==> final(reservations)@.dom().contains(other) == old(
            reservations,
        )@.dom().contains(other) && final(reservations)@[other] == old(reservations)@[other],
{
    lemma_patch(r);
}

/// A job that has ended holds nothing any more, under either controller, and its pods are
/// removed exactly where it is time to clear away what it left.
pub proof fn law_ended_jobs_hold_nothing(
    cluster: &mut ClusterState,
    mpi_cluster: &mut ClusterState,
    name: &str,
    status: &WrenJobStatus,
    mpi_status: &MPIJobStatus,
    now: Timestamp,
    completion: Option<&str>,
    start: Option<&str>,
    clear: bool,
    r: bool,
    mpi_r: bool,
    node: Seq<char>,
)
    requires
        call_ensures(wren::reconciler::handle_terminal, (cluster, name, status, now), r),
        call_ensures(
            bubo::reconciler::handle_terminal,
            (mpi_cluster, name, mpi_status, now),
            mpi_r,
        ),
        completion.deep_view() == status.completion_time.deep_view(),
        start.deep_view() == status.start_time.deep_view(),
        mpi_status.completion_time.deep_view() == status.completion_time.deep_view(),
        mpi_status.start_time.deep_view() == status.start_time.deep_view(),
        call_ensures(
            crate::controller::walltime::should_cleanup_at,
            (completion, start, now),
            clear,
        ),
    ensures
        !listed(final(cluster)@, node, name@),
        !listed(final(mpi_cluster)@, node, name@),
        r == clear,
        mpi_r == clear,
{
    if old(cluster)@.allocations.dom().contains(node) {
        crate::controller::booking::lemma_without_lacks(
            old(cluster)@.allocations[node].jobs,
            name@,
        );
    }
    if old(mpi_cluster)@.allocations.dom().contains(node) {
        crate::controller::booking::lemma_without_lacks(
            old(mpi_cluster)@.allocations[node].jobs,
            name@,
        );
    }
}

} // verus!
