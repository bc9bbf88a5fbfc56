//! What the controller of MPI jobs does with a job in each of its states.

use vstd::prelude::*;
use vstd::string::*;
use crate::controller::booking::{
    book, can_book, has_no_place, is_booking, release_job, released,
};
use crate::controller::reconcile::{
    advance_running, check_job, fail_job, job_fault, running, PatchView, StatusPatch, Step, StepView,
};
use crate::controller::reservation::ReservationManager;
use crate::controller::walltime::{
    clock_seconds_since, clock_tells, ended, overrun_by_clock, should_cleanup_at, ttl_expired,
    walltime_message, POD_TTL_SECONDS,
};
use crate::model::backend::BackendJobStatus;
use crate::model::cluster::ClusterState;
use crate::model::crd::{MPIJobSpec, MPIJobStatus};
use crate::model::time::{Moment, Timestamp};
use crate::model::types::JobState;
use crate::model::walltime::walltime_fits;
use crate::scheduler::gang::Placement;

verus! {

/// What is done with a pending job: it fails where it asks for what cannot be, and
/// else goes on to be scheduled.
pub fn handle_pending(spec: &MPIJobSpec) -> (r: Step)
    ensures
        r.deep_view() == (match job_fault(spec.nodes, spec.backend, spec.container is Some) {
            Some(reason) => StepView::failure(reason, None),
            None => StepView::change(
                PatchView::State { state: JobState::Scheduling, message: None },
                Some((JobState::Pending, JobState::Scheduling)),
            ),
        }),
{
    match check_job(spec.nodes, spec.backend, spec.container.is_some()) {
        Err(reason) => fail_job(reason, None),
        Ok(_) => Step {
            terminate: false,
            patch: Some(StatusPatch::State { state: JobState::Scheduling, message: None }),
            transition: Some((JobState::Pending, JobState::Scheduling)),
        },
    }
}

/// Looks for nodes for a job and books them; where there are none now, the job is
/// left to be tried again. The caller launches the job on the nodes.
pub fn handle_scheduling(
    cluster: &mut ClusterState,
    reservations: &mut ReservationManager,
    name: &str,
    spec: &MPIJobSpec,
    now: u128,
) -> (r: Option<Placement>)
    requires
        can_book(old(cluster)@, spec.nodes as nat),
    ensures
        final(reservations).lifetime() == old(reservations).lifetime(),
        match r {
            Some(p) => is_booking(
                old(cluster)@,
                old(reservations)@,
                name@,
                spec.nodes as nat,
                spec.topology_ref(),
                now as nat,
                p,
                final(cluster)@,
                final(reservations)@,
            ),
            None => final(cluster)@ == old(cluster)@ && final(reservations)@ == old(
                reservations,
            )@ && has_no_place(old(cluster)@, spec.nodes as nat, spec.topology_ref()),
        },
{
    match book(cluster, reservations, name, spec.nodes, spec.topology.as_ref(), now) {
        Ok(placement) => Some(placement),
        Err(_) => None,
    }
}

/// What is done at `now` with a running job of which the backend reports
/// `backend_status`.
pub fn handle_running(
    spec: &MPIJobSpec,
    status: &MPIJobStatus,
    backend_status: BackendJobStatus,
    now: &Moment,
) -> (r: Step)
    requires
        backend_status@ is Running && spec.walltime is Some ==> walltime_fits(spec.walltime->0@),
    ensures
        r.deep_view() == running(
            backend_status@,
            walltime_message(spec.walltime.deep_view(), status.start_time.deep_view(), now@),
            now@.written(),
        ),
        status.start_time is Some ==> clock_tells(status.start_time->0@, now@) ==> (r.terminate
            <==> backend_status@ is Running && overrun_by_clock(
            spec.walltime.deep_view(),
            status.start_time.deep_view(),
            now@,
        )),
        now@.regular() && now@.four_digit_year() && backend_status@ is Succeeded
            ==> now@.is_read_from(r.deep_view().patch->0->completion_time),
{
    let walltime = match &spec.walltime {
        Some(text) => Some(text.as_str()),
        None => None,
    };
    let start_time = match &status.start_time {
        Some(text) => Some(text.as_str()),
        None => None,
    };
    advance_running(backend_status, walltime, start_time, now)
}

/// Releases what an ended job held in the cluster; says whether by `now` its pods,
/// which are kept for a while, are to be removed.
pub fn handle_terminal(
    cluster: &mut ClusterState,
    name: &str,
    status: &MPIJobStatus,
    now: Timestamp,
) -> (r: bool)
    ensures
        final(cluster)@ == released(old(cluster)@, name@),
        r == ttl_expired(status.completion_time.deep_view(), status.start_time.deep_view(), now),
        ended(status.completion_time.deep_view(), status.start_time.deep_view()) matches Some(text)
            ==> clock_tells(text, now) ==> r == (clock_seconds_since(text, now) > POD_TTL_SECONDS),
{
    release_job(cluster, name);
    let completion_time = match &status.completion_time {
        Some(text) => Some(text.as_str()),
        None => None,
    };
    let start_time = match &status.start_time {
        Some(text) => Some(text.as_str()),
        None => None,
    };
    should_cleanup_at(completion_time, start_time, now)
}

} // verus!
