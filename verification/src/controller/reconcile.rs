//! The lifecycle of a job: what is done with it in each of its states.

use vstd::prelude::*;
use vstd::string::*;
use crate::controller::booking::{release_job, released, unbook, unbooked};
use crate::controller::launch::copy_words;
use crate::controller::reservation::ReservationManager;
use crate::controller::walltime::{
    check_walltime_at, clock_tells, overrun_by_clock, walltime_message,
};
use crate::model::backend::{BackendJobStatus, BackendView, LaunchResult};
use crate::model::cluster::ClusterState;
use crate::model::time::Timestamp;
use crate::model::types::{ExecutionBackendType, JobState};
use crate::model::time::Moment;
use crate::model::walltime::walltime_fits;
use crate::scheduler::gang::Placement;

verus! {

/// Which part of the controller handles a job.
#[derive(Clone, Copy, Debug, PartialEq, Eq, Structural)]
pub enum Stage {
    Pending,
    Scheduling,
    Running,
    Terminal,
}

/// Which part of the controller handles a job in a state.
pub open spec fn stage(state: JobState) -> Stage {
    match state {
        JobState::Pending => Stage::Pending,
        JobState::Scheduling => Stage::Scheduling,
        JobState::Running => Stage::Running,
        _ => Stage::Terminal,
    }
}

/// Which part of the controller handles a job in a state.
pub fn stage_of(state: JobState) -> (r: Stage)
    ensures
        r == stage(state),
{
    match state {
        JobState::Pending => Stage::Pending,
        JobState::Scheduling => Stage::Scheduling,
        JobState::Running => Stage::Running,
        JobState::Succeeded | JobState::Failed | JobState::Cancelled
        | JobState::WalltimeExceeded => Stage::Terminal,
    }
}

/// A change of a job's status. Fields that it does not name stay as they are.
#[derive(Clone, Debug, PartialEq, Eq)]
pub enum StatusPatch {
    /// Sets the state and the message; without a message, clears it.
    State { state: JobState, message: Option<String> },
    /// Sets the state to scheduling, and the identifier of the job.
    Scheduled { job_id: u64 },
    /// Sets the state to running, the message, the nodes and the start, and the
    /// worker counts, with no worker ready yet.
    Started {
        message: String,
        assigned_nodes: Vec<String>,
        start_time: String,
        total_workers: u32,
    },
    /// Sets the state to succeeded, with its message and the time of completion.
    Completed { message: String, completion_time: String },
    /// Sets the worker counts.
    Workers { ready: u32, total: u32 },
}

/// Content of a [`StatusPatch`].
pub ghost enum PatchView {
    State { state: JobState, message: Option<Seq<char>> },
    Scheduled { job_id: u64 },
    Started {
        message: Seq<char>,
        assigned_nodes: Seq<Seq<char>>,
        start_time: Seq<char>,
        total_workers: u32,
    },
    Completed { message: Seq<char>, completion_time: Seq<char> },
    Workers { ready: u32, total: u32 },
}

impl DeepView for StatusPatch {
    type V = PatchView;

    open spec fn deep_view(&self) -> PatchView {
        match self {
            StatusPatch::State { state, message } => PatchView::State {
                state: *state,
                message: message.deep_view(),
            },
            StatusPatch::Scheduled { job_id } => PatchView::Scheduled { job_id: *job_id },
            StatusPatch::Started { message, assigned_nodes, start_time, total_workers } =>
                PatchView::Started {
                message: message@,
                assigned_nodes: assigned_nodes.deep_view(),
                start_time: start_time@,
                total_workers: *total_workers,
            },
            StatusPatch::Completed { message, completion_time } => PatchView::Completed {
                message: message@,
                completion_time: completion_time@,
            },
            StatusPatch::Workers { ready, total } => PatchView::Workers {
                ready: *ready,
                total: *total,
            },
        }
    }
}

/// What is to be done with a job.
#[derive(Clone, Debug, PartialEq, Eq)]
pub struct Step {
    /// Whether the backend is to end the job first.
    pub terminate: bool,
    /// How its status changes.
    pub patch: Option<StatusPatch>,
    /// The change of state to count, from one to the other.
    pub transition: Option<(JobState, JobState)>,
}

/// Content of a [`Step`].
pub ghost struct StepView {
    pub terminate: bool,
    pub patch: Option<PatchView>,
    pub transition: Option<(JobState, JobState)>,
}

impl DeepView for Step {
    type V = StepView;

    open spec fn deep_view(&self) -> StepView {
        StepView {
            terminate: self.terminate,
            patch: self.patch.deep_view(),
            transition: self.transition,
        }
    }
}

impl StepView {
    /// Nothing is done.
    pub open spec fn rest() -> StepView {
        StepView { terminate: false, patch: None, transition: None }
    }

    /// The status changes, and the change of state, if any, is counted.
    pub open spec fn change(patch: PatchView, transition: Option<(JobState, JobState)>) -> StepView {
        StepView { terminate: false, patch: Some(patch), transition }
    }

    /// The job fails for `reason`.
    pub open spec fn failure(
        reason: Seq<char>,
        transition: Option<(JobState, JobState)>,
    ) -> StepView {
        StepView::change(
            PatchView::State { state: JobState::Failed, message: Some(reason) },
            transition,
        )
    }
}

/// The job fails for `reason`.
pub fn fail_job(reason: String, transition: Option<(JobState, JobState)>) -> (r: Step)
    ensures
        r.deep_view() == StepView::failure(reason@, transition),
{
    Step {
        terminate: false,
        patch: Some(StatusPatch::State { state: JobState::Failed, message: Some(reason) }),
        transition,
    }
}

/// What is wrong with a job that asks for `nodes` nodes.
pub open spec fn job_fault(
    nodes: u32,
    backend: ExecutionBackendType,
    has_container: bool,
) -> Option<Seq<char>> {
    if nodes == 0 {
        Some("nodes must be > 0"@)
    } else if backend == ExecutionBackendType::Container && !has_container {
        Some("container spec required for container backend"@)
    } else {
        None
    }
}

/// Checks what a job asks for.
pub fn check_job(nodes: u32, backend: ExecutionBackendType, has_container: bool) -> (r: Result<
    (),
    String,
>)
    ensures
        match r {
            Ok(_) => job_fault(nodes, backend, has_container) is None,
            Err(reason) => job_fault(nodes, backend, has_container) == Some(reason@),
        },
{
    if nodes == 0 {
        return Err("nodes must be > 0".to_owned());
    }
    if backend == ExecutionBackendType::Container && !has_container {
        return Err("container spec required for container backend".to_owned());
    }
    Ok(())
}

/// The job is launched: what it holds is committed, and it runs from `now` on.
pub fn launch_succeeded(
    reservations: &mut ReservationManager,
    job_name: &str,
    node_count: u32,
    placement: &Placement,
    launched: LaunchResult,
    now: &Moment,
) -> (r: Step)
    ensures
        final(reservations).lifetime() == old(reservations).lifetime(),
        final(reservations)@ == old(reservations)@.remove(job_name@),
        r.deep_view() == StepView::change(
            PatchView::Started {
                message: launched.message@,
                assigned_nodes: placement.nodes.deep_view(),
                start_time: now@.written(),
                total_workers: node_count,
            },
            Some((JobState::Scheduling, JobState::Running)),
        ),
        now@.regular() && now@.four_digit_year() ==> now@.is_read_from(
            r.deep_view().patch->0->start_time,
        ),
{
    let _ = reservations.release(job_name);
    Step {
        terminate: false,
        patch: Some(
            StatusPatch::Started {
                message: launched.message,
                assigned_nodes: copy_words(&placement.nodes),
                start_time: now.text(),
                total_workers: node_count,
            },
        ),
        transition: Some((JobState::Scheduling, JobState::Running)),
    }
}

/// The job could not be launched: what it holds is given back, and it fails.
pub fn launch_failed(
    cluster: &mut ClusterState,
    reservations: &mut ReservationManager,
    job_name: &str,
    placement: &Placement,
    error: &str,
) -> (r: Step)
    ensures
        final(reservations).lifetime() == old(reservations).lifetime(),
        final(reservations)@ == old(reservations)@.remove(job_name@),
        final(cluster)@ == unbooked(old(cluster)@, placement.nodes.deep_view(), job_name@),
        r.deep_view() == StepView::failure("launch failed: "@ + error@, None),
{
    let _ = reservations.release(job_name);
    unbook(cluster, placement, job_name);
    let mut reason = "launch failed: ".to_owned();
    reason.append(error);
    fail_job(reason, None)
}

/// What is done with a running job of which the backend reports `status`, at a time
/// whose text is `now`; `overrun` is what is said of its walltime, if it is over.
pub open spec fn running(
    status: BackendView,
    overrun: Option<Seq<char>>,
    now: Seq<char>,
) -> StepView {
    match status {
        BackendView::Succeeded => StepView::change(
            PatchView::Completed { message: "Job completed successfully"@, completion_time: now },
            Some((JobState::Running, JobState::Succeeded)),
        ),
        BackendView::Failed { message } => StepView::failure(
            message,
            Some((JobState::Running, JobState::Failed)),
        ),
        BackendView::Running => match overrun {
            Some(message) => StepView {
                terminate: true,
                patch: Some(
                    PatchView::State { state: JobState::WalltimeExceeded, message: Some(message) },
                ),
                transition: Some((JobState::Running, JobState::WalltimeExceeded)),
            },
            None => StepView::rest(),
        },
        BackendView::Launching { ready, total } => StepView::change(
            PatchView::Workers { ready, total },
            None,
        ),
        BackendView::NotFound => StepView::failure("backend resources disappeared"@, None),
    }
}

/// What is done with a running job of which the backend reports `status`, where
/// `overrun` is what is said of its walltime, if it is over.
pub fn advance(status: BackendJobStatus, overrun: Option<String>, now: String) -> (r: Step)
    ensures
        r.deep_view() == running(status@, overrun.deep_view(), now@),
{
    match status {
        BackendJobStatus::Succeeded => Step {
            terminate: false,
            patch: Some(
                StatusPatch::Completed {
                    message: "Job completed successfully".to_owned(),
                    completion_time: now,
                },
            ),
            transition: Some((JobState::Running, JobState::Succeeded)),
        },
        BackendJobStatus::Failed { message } => fail_job(
            message,
            Some((JobState::Running, JobState::Failed)),
        ),
        BackendJobStatus::Running => match overrun {
            Some(message) => Step {
                terminate: true,
                patch: Some(
                    StatusPatch::State {
                        state: JobState::WalltimeExceeded,
                        message: Some(message),
                    },
                ),
                transition: Some((JobState::Running, JobState::WalltimeExceeded)),
            },
            None => Step { terminate: false, patch: None, transition: None },
        },
        BackendJobStatus::Launching { ready, total } => Step {
            terminate: false,
            patch: Some(StatusPatch::Workers { ready, total }),
            transition: None,
        },
        BackendJobStatus::NotFound => fail_job("backend resources disappeared".to_owned(), None),
    }
}

/// What is done at `now` with a running job of which the backend reports `status`. Its
/// walltime counts only while the backend runs it.
pub fn advance_running(
    status: BackendJobStatus,
    walltime: Option<&str>,
    start_time: Option<&str>,
    now: &Moment,
) -> (r: Step)
    requires
        status@ is Running && walltime is Some ==> walltime_fits(walltime->0@),
    ensures
        r.deep_view() == running(
            status@,
            walltime_message(walltime.deep_view(), start_time.deep_view(), now@),
            now@.written(),
        ),
        start_time is Some ==> clock_tells(start_time->0@, now@) ==> (r.terminate <==> status@
            is Running && overrun_by_clock(walltime.deep_view(), start_time.deep_view(), now@)),
        now@.regular() && now@.four_digit_year() && status@ is Succeeded ==> now@.is_read_from(
            r.deep_view().patch->0->completion_time,
        ),
{
    let overrun = match &status {
        BackendJobStatus::Running => check_walltime_at(walltime, start_time, now.time()),
        _ => None,
    };
    advance(status, overrun, now.text())
}

/// What is known of a job of which the cluster holds allocations.
#[derive(Clone, Copy, Debug, PartialEq, Eq, Structural)]
pub enum JobLookup {
    Exists,
    Missing,
    Unknown,
}

/// Releases what is allocated to a job that is known not to exist any more, such as
/// one that was deleted while it ran; says whether it did.
pub fn settle_allocations(cluster: &mut ClusterState, job_name: &str, lookup: JobLookup) -> (r:
    bool)
    ensures
        r == (lookup == JobLookup::Missing),
        final(cluster)@ == (if lookup == JobLookup::Missing {
            released(old(cluster)@, job_name@)
        } else {
            old(cluster)@
        }),
{
    match lookup {
        JobLookup::Missing => {
            release_job(cluster, job_name);
            true
        },
        JobLookup::Exists | JobLookup::Unknown => false,
    }
}

/// A job is ended by the backend exactly when it is running and has overrun its
/// walltime, and then its status says so.
pub proof fn law_only_overrun_jobs_are_ended(
    status: BackendView,
    overrun: Option<Seq<char>>,
    now: Seq<char>,
)
    ensures
        running(status, overrun, now).terminate <==> status is Running && overrun is Some,
        running(status, overrun, now).terminate ==> running(status, overrun, now).patch == Some(
            PatchView::State { state: JobState::WalltimeExceeded, message: overrun },
        ),
{
}

/// The state that a patch sets, if it sets one.
pub open spec fn state_after(patch: PatchView) -> Option<JobState> {
    match patch {
        PatchView::State { state, .. } => Some(state),
        PatchView::Scheduled { .. } => Some(JobState::Scheduling),
        PatchView::Started { .. } => Some(JobState::Running),
        PatchView::Completed { .. } => Some(JobState::Succeeded),
        PatchView::Workers { .. } => None,
    }
}

/// A running job either stays as it is or ends, and what is counted is the change
/// that its status shows. No other state follows upon running.
pub proof fn law_running_jobs_end(status: BackendView, overrun: Option<Seq<char>>, now: Seq<char>)
    ensures
        ({
            let step = running(status, overrun, now);
            &&& step.patch is Some ==> match state_after(step.patch->0) {
                Some(state) => state.terminal(),
                None => true,
            }
            &&& step.transition is Some ==> step.patch is Some && state_after(step.patch->0)
                == Some((step.transition->0).1) && (step.transition->0).0 == JobState::Running
        }),
{
}

} // verus!
