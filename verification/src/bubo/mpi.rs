//! MPI bootstrap of MPI jobs: hostfile, command line, labels and names.

use vstd::prelude::*;
use vstd::slice::*;
use vstd::string::*;
use crate::controller::launch::{
    concat, hostfile, hostfile_text, labels_under, mpirun, mpirun_words, standard_labels,
};
use crate::model::crd::MPIJobSpec;
use crate::scheduler::gang::Placement;
use crate::string_map::StringMap;
use crate::text::{dec, decimal};

verus! {

/// Whether the number of ranks of a job fits in 32 bits.
pub open spec fn ranks_fit(spec: MPIJobSpec) -> bool {
    spec.nodes * spec.tasks_per_node <= u32::MAX
}

/// Labels of what is created for an MPI job.
pub open spec fn labels(job: Seq<char>, role: Seq<char>, rank: Option<u32>) -> Map<
    Seq<char>,
    Seq<char>,
> {
    labels_under("bubo.io"@, "bubo"@, job, role, rank)
}

/// Generates an MPI hostfile from a placement, in the format of Open MPI and MPICH:
/// ```text
/// node-0 slots=4
/// node-1 slots=4
/// ```
pub fn generate_hostfile(placement: &Placement, tasks_per_node: u32) -> (r: String)
    ensures
        r@ == hostfile(placement.nodes.deep_view(), tasks_per_node as nat),
{
    let nodes = placement.nodes.as_slice();
    proof {
        assert(nodes.deep_view() =~= placement.nodes.deep_view());
    }
    hostfile_text(nodes, tasks_per_node)
}

/// Total number of MPI ranks of a job.
pub fn total_ranks(spec: &MPIJobSpec) -> (r: u32)
    requires
        ranks_fit(*spec),
    ensures
        r == spec.nodes * spec.tasks_per_node,
{
    spec.nodes * spec.tasks_per_node
}

/// The mpirun command prefix of a job.
pub fn mpirun_args(spec: &MPIJobSpec, hostfile_path: &str) -> (r: Vec<String>)
    requires
        ranks_fit(*spec),
    ensures
        r.deep_view() == mpirun_words(
            (spec.nodes * spec.tasks_per_node) as nat,
            hostfile_path@,
            spec.mpi,
        ),
{
    mpirun(total_ranks(spec), hostfile_path, &spec.mpi)
}

/// Standard labels applied to all pods created for an MPI job.
pub fn job_labels(job_name: &str, role: &str, rank: Option<u32>) -> (r: StringMap<String>)
    ensures
        r@ == labels(job_name@, role@, rank),
{
    standard_labels("bubo.io", "bubo", job_name, role, rank)
}

/// Name of the headless service for pod DNS discovery.
pub fn headless_service_name(job_name: &str) -> (r: String)
    ensures
        r@ == job_name@ + "-workers"@,
{
    concat(job_name, "-workers")
}

/// Name of the ConfigMap holding the hostfile.
pub fn hostfile_configmap_name(job_name: &str) -> (r: String)
    ensures
        r@ == job_name@ + "-hostfile"@,
{
    concat(job_name, "-hostfile")
}

/// Name of the Secret holding SSH keys for MPI bootstrap.
pub fn ssh_secret_name(job_name: &str) -> (r: String)
    ensures
        r@ == job_name@ + "-ssh"@,
{
    concat(job_name, "-ssh")
}

/// Pod name for a worker at a given rank.
pub fn worker_pod_name(job_name: &str, rank: u32) -> (r: String)
    ensures
        r@ == job_name@ + "-worker-"@ + dec(rank as nat),
{
    let mut name = concat(job_name, "-worker-");
    name.append(decimal(rank as u64).as_str());
    name
}

/// Pod name for the launcher.
pub fn launcher_pod_name(job_name: &str) -> (r: String)
    ensures
        r@ == job_name@ + "-launcher"@,
{
    concat(job_name, "-launcher")
}

} // verus!
