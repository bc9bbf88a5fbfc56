//! What holds of a job that leaves things open.

use vstd::prelude::*;
use crate::bubo::reaper::ReaperBackend;
use crate::controller::reservation::ReservationManager;
use crate::model::crd::{
    default_mpi_impl, default_priority, default_queue, default_tasks_per_node, default_true,
    MPIJobSpec,
};
use crate::model::types::ExecutionBackendType;
use crate::text::dec;
use crate::wren::crd::WrenJobSpec;

verus! {

/// A job that states only its nodes goes to the default queue with the default priority, has
/// one rank on each node, and runs in a container, under either controller.
pub proof fn law_open_jobs_get_the_defaults(
    nodes: u32,
    job: WrenJobSpec,
    mpi_job: MPIJobSpec,
    queue: String,
    priority: i32,
    tasks: u32,
    implementation: String,
    on: bool,
)
    requires
        call_ensures(WrenJobSpec::with_nodes, (nodes,), job),
        call_ensures(MPIJobSpec::with_nodes, (nodes,), mpi_job),
        call_ensures(default_queue, (), queue),
        call_ensures(default_priority, (), priority),
        call_ensures(default_tasks_per_node, (), tasks),
        call_ensures(default_mpi_impl, (), implementation),
        call_ensures(default_true, (), on),
    ensures
        job.nodes == nodes && mpi_job.nodes == nodes,
        queue@ == "default"@ && job.queue@ == queue@ && mpi_job.queue@ == queue@,
        priority == 50 && job.priority == priority && mpi_job.priority == priority,
        tasks == 1 && job.tasks_per_node == tasks && mpi_job.tasks_per_node == tasks,
        implementation@ == "openmpi"@,
        on,
        job.backend == ExecutionBackendType::Container,
        mpi_job.backend == ExecutionBackendType::Container,
        job.walltime is None && job.dependencies@.len() == 0,
        mpi_job.walltime is None && mpi_job.dependencies@.len() == 0,
{
}

/// Agents are reached at the port that is set, if it is one, and else at the usual port; in
/// the clear unless encryption is asked for. At first no job is known.
pub proof fn law_agents_have_usual_settings(
    port: Option<&str>,
    scheme: Option<&str>,
    n: u16,
    r: ReaperBackend,
    job: Seq<char>,
)
    requires
        call_ensures(ReaperBackend::new, (port, scheme), r),
    ensures
        port is None ==> r.agent_port == 8443,
        port is Some && port->0@.len() == 0 ==> r.agent_port == 8443,
        port is Some && port->0@ == dec(n as nat) ==> r.agent_port == n,
        scheme is Some && scheme->0@ == "https"@ ==> r.agent_scheme@ == "https"@,
        scheme is None || scheme->0@ != "https"@ ==> r.agent_scheme@ == "http"@,
        !r@.active.dom().contains(job),
        !r@.nodes.dom().contains(job),
{
    crate::laws::texts::lemma_read_back(n as nat, u16::MAX as nat);
}

/// Reservations last a minute unless it is said otherwise, and objects are found under the
/// names that they are known by.
pub proof fn law_usual_names_and_times(manager: ReservationManager)
    requires
        call_ensures(<ReservationManager as Default>::default, (), manager),
    ensures
        manager.lifetime() == 60 * 1_000_000_000,
        crate::wren::job_id::CONFIGMAP_NAME@ == "wren-job-id-counter"@,
        crate::wren::reaper::API_VERSION@ == "reaper.io/v1alpha1"@,
        crate::wren::reaper::KIND@ == "ReaperPod"@,
{
}

} // verus!
