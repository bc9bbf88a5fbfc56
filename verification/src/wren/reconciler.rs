//! What the controller of Wren jobs does with a job in each of its states.

use vstd::prelude::*;
use vstd::string::*;
use crate::controller::booking::{
    book, can_book, has_no_place, is_booking, release_job, released,
};
use crate::controller::reconcile::{
    advance_running, check_job, fail_job, job_fault, running, PatchView, StatusPatch, Step, StepView,
};
use crate::controller::reservation::ReservationManager;
use crate::controller::walltime::{
    clock_seconds_since, clock_tells, ended, overrun_by_clock, should_cleanup, should_cleanup_at,
    ttl_expired, walltime_message, POD_TTL_SECONDS,
};
use crate::model::backend::BackendJobStatus;
use crate::model::cluster::ClusterState;
use crate::model::time::{rfc3339_value, Moment, Timestamp};
use crate::model::types::JobState;
use crate::model::walltime::walltime_fits;
use crate::scheduler::gang::Placement;
use crate::wren::crd::{UserIdentity, WrenJobSpec, WrenJobStatus};

pub use crate::controller::booking::collect_allocated_job_names;
pub use crate::controller::walltime::check_walltime_exceeded;

verus! {

/// Why a job without a user is not run.
pub open spec fn no_user_reason() -> Seq<char> {
    "no valid WrenUser identity resolved — every job requires a wren.giar.dev/user annotation pointing to an existing WrenUser with non-root uid"@
}

/// Checks what a job asks for.
pub fn validate_job_spec(spec: &WrenJobSpec) -> (r: Result<(), String>)
    ensures
        match r {
            Ok(_) => job_fault(spec.nodes, spec.backend, spec.container is Some) is None,
            Err(reason) => job_fault(spec.nodes, spec.backend, spec.container is Some) == Some(
                reason@,
            ),
        },
{
    check_job(spec.nodes, spec.backend, spec.container.is_some())
}

/// What is done with a pending job: where it asks for what cannot be, it fails; else
/// it waits for its identifier, and nothing is done yet.
pub fn handle_pending(spec: &WrenJobSpec) -> (r: Option<Step>)
    ensures
        r.deep_view() == (match job_fault(spec.nodes, spec.backend, spec.container is Some) {
            Some(reason) => Some(StepView::failure(reason, None)),
            None => None,
        }),
{
    match validate_job_spec(spec) {
        Err(reason) => Some(fail_job(reason, None)),
        Ok(_) => None,
    }
}

/// A pending job that has its identifier goes on to be scheduled.
pub fn identified(job_id: u64) -> (r: Step)
    ensures
        r.deep_view() == StepView::change(
            PatchView::Scheduled { job_id },
            Some((JobState::Pending, JobState::Scheduling)),
        ),
{
    Step {
        terminate: false,
        patch: Some(StatusPatch::Scheduled { job_id }),
        transition: Some((JobState::Pending, JobState::Scheduling)),
    }
}

/// How an attempt to schedule a job ends.
pub enum Attempt {
    /// The job is refused.
    Refused { step: Step },
    /// There is no place for it now; it is tried again later.
    Retry,
    /// It is booked and to be launched.
    Launch { placement: Placement },
}

/// Looks for nodes for a job and books them. A job of which it is not known whom it
/// runs as is refused, whatever its backend.
pub fn handle_scheduling(
    cluster: &mut ClusterState,
    reservations: &mut ReservationManager,
    name: &str,
    spec: &WrenJobSpec,
    user: Option<&UserIdentity>,
    now: u128,
) -> (r: Attempt)
    requires
        user is Some ==> can_book(old(cluster)@, spec.nodes as nat),
    ensures
        final(reservations).lifetime() == old(reservations).lifetime(),
        user is None <==> r is Refused,
        match r {
            Attempt::Refused { step } => final(cluster)@ == old(cluster)@ && final(reservations)@
                == old(reservations)@ && step.deep_view() == StepView::failure(
                no_user_reason(),
                None,
            ),
            Attempt::Retry => final(cluster)@ == old(cluster)@ && final(reservations)@ == old(
                reservations,
            )@ && has_no_place(old(cluster)@, spec.nodes as nat, spec.topology_ref()),
            Attempt::Launch { placement } => is_booking(
                old(cluster)@,
                old(reservations)@,
                name@,
                spec.nodes as nat,
                spec.topology_ref(),
                now as nat,
                placement,
                final(cluster)@,
                final(reservations)@,
            ),
        },
{
    if user.is_none() {
        let reason =
            "no valid WrenUser identity resolved — every job requires a wren.giar.dev/user annotation pointing to an existing WrenUser with non-root uid".to_owned();
        return Attempt::Refused { step: fail_job(reason, None) };
    }
    match book(cluster, reservations, name, spec.nodes, spec.topology.as_ref(), now) {
        Ok(placement) => Attempt::Launch { placement },
        Err(_) => Attempt::Retry,
    }
}

/// What is done at `now` with a running job of which the backend reports
/// `backend_status`.
pub fn handle_running(
    spec: &WrenJobSpec,
    status: &WrenJobStatus,
    backend_status: BackendJobStatus,
    now: &Moment,
) -> (r: Step)
    requires
        backend_status@ is Running && spec.walltime is Some ==> walltime_fits(spec.walltime->0@),
    ensures
        r.deep_view() == running(
            backend_status@,
            walltime_message(spec.walltime.deep_view(), status.start_time.deep_view(), now@),
            now@.written(),
        ),
        status.start_time is Some ==> clock_tells(status.start_time->0@, now@) ==> (r.terminate
            <==> backend_status@ is Running && overrun_by_clock(
            spec.walltime.deep_view(),
            status.start_time.deep_view(),
            now@,
        )),
        now@.regular() && now@.four_digit_year() && backend_status@ is Succeeded
            ==> now@.is_read_from(r.deep_view().patch->0->completion_time),
{
    let walltime = match &spec.walltime {
        Some(text) => Some(text.as_str()),
        None => None,
    };
    let start_time = match &status.start_time {
        Some(text) => Some(text.as_str()),
        None => None,
    };
    advance_running(backend_status, walltime, start_time, now)
}

/// Checks whether by now the pods of an ended job, which are kept for a while, are to
/// be removed. The time of completion counts, or else that of the start.
pub fn should_cleanup_pods(status: &WrenJobStatus) -> (r: bool)
    ensures
        exists|now: Timestamp| #[trigger]
            ttl_expired(
                status.completion_time.deep_view(),
                status.start_time.deep_view(),
                now,
            ) == r && now.regular(),
        status.completion_time is None && status.start_time is None ==> !r,
        ended(status.completion_time.deep_view(), status.start_time.deep_view()) matches Some(text)
            ==> rfc3339_value(text) is None ==> !r,
{
    let completion_time = match &status.completion_time {
        Some(text) => Some(text.as_str()),
        None => None,
    };
    let start_time = match &status.start_time {
        Some(text) => Some(text.as_str()),
        None => None,
    };
    let r = should_cleanup(completion_time, start_time);
    proof {
        assert(completion_time.deep_view() == status.completion_time.deep_view());
        assert(start_time.deep_view() == status.start_time.deep_view());
    }
    r
}

/// Releases what an ended job held in the cluster; says whether by `now` its pods,
/// which are kept for a while, are to be removed.
pub fn handle_terminal(
    cluster: &mut ClusterState,
    name: &str,
    status: &WrenJobStatus,
    now: Timestamp,
) -> (r: bool)
    ensures
        final(cluster)@ == released(old(cluster)@, name@),
        r == ttl_expired(status.completion_time.deep_view(), status.start_time.deep_view(), now),
        ended(status.completion_time.deep_view(), status.start_time.deep_view()) matches Some(text)
            ==> clock_tells(text, now) ==> r == (clock_seconds_since(text, now) > POD_TTL_SECONDS),
{
    release_job(cluster, name);
    let completion_time = match &status.completion_time {
        Some(text) => Some(text.as_str()),
        None => None,
    };
    let start_time = match &status.start_time {
        Some(text) => Some(text.as_str()),
        None => None,
    };
    should_cleanup_at(completion_time, start_time, now)
}

} // verus!
