//! MPI bootstrap of Wren jobs: hostfiles, command lines, environments, labels and names.

use vstd::prelude::*;
use vstd::slice::*;
use vstd::string::*;
use crate::controller::launch::{
    bare_metal_environment, bare_metal_launcher, bare_metal_variables, bare_metal_words, concat,
    hostfile, hostfile_text, implementation, labels_under, mpirun, mpirun_words, srun, srun_words,
    standard_labels,
};
use crate::scheduler::gang::Placement;
use crate::string_map::StringMap;
use crate::text::{dec, decimal};
use crate::wren::crd::WrenJobSpec;

verus! {

/// Whether the number of ranks of a job fits in 32 bits.
pub open spec fn ranks_fit(spec: WrenJobSpec) -> bool {
    spec.nodes * spec.tasks_per_node <= u32::MAX
}

/// Generates an MPI hostfile from a placement, in the format of Open MPI and MPICH:
/// ```text
/// node-0 slots=4
/// node-1 slots=4
/// ```
pub fn generate_hostfile(placement: &Placement, tasks_per_node: u32) -> (r: String)
    ensures
        r@ == hostfile(placement.nodes.deep_view(), tasks_per_node as nat),
{
    let nodes = placement.nodes.as_slice();
    proof {
        assert(nodes.deep_view() =~= placement.nodes.deep_view());
    }
    hostfile_text(nodes, tasks_per_node)
}

/// Total number of MPI ranks of a job.
pub fn total_ranks(spec: &WrenJobSpec) -> (r: u32)
    requires
        ranks_fit(*spec),
    ensures
        r == spec.nodes * spec.tasks_per_node,
{
    spec.nodes * spec.tasks_per_node
}

/// The mpirun command prefix of a job in containers.
pub fn mpirun_args(spec: &WrenJobSpec, hostfile_path: &str) -> (r: Vec<String>)
    requires
        ranks_fit(*spec),
    ensures
        r.deep_view() == mpirun_words(
            (spec.nodes * spec.tasks_per_node) as nat,
            hostfile_path@,
            spec.mpi,
        ),
{
    mpirun(total_ranks(spec), hostfile_path, &spec.mpi)
}

/// Standard labels of a job.
pub fn job_labels(job_name: &str, role: &str, rank: Option<u32>) -> (r: StringMap<String>)
    ensures
        r@ == labels_under("wren.io"@, "wren"@, job_name@, role@, rank),
{
    standard_labels("wren.io", "wren", job_name, role, rank)
}

/// Name of the headless service for pod DNS discovery.
pub fn headless_service_name(job_name: &str) -> (r: String)
    ensures
        r@ == job_name@ + "-workers"@,
{
    concat(job_name, "-workers")
}

/// Name of the ConfigMap holding the hostfile.
pub fn hostfile_configmap_name(job_name: &str) -> (r: String)
    ensures
        r@ == job_name@ + "-hostfile"@,
{
    concat(job_name, "-hostfile")
}

/// Name of the Secret holding SSH keys for MPI bootstrap.
pub fn ssh_secret_name(job_name: &str) -> (r: String)
    ensures
        r@ == job_name@ + "-ssh"@,
{
    concat(job_name, "-ssh")
}

/// Pod name for a worker at a given rank.
pub fn worker_pod_name(job_name: &str, rank: u32) -> (r: String)
    ensures
        r@ == job_name@ + "-worker-"@ + dec(rank as nat),
{
    let mut name = concat(job_name, "-worker-");
    name.append(decimal(rank as u64).as_str());
    name
}

/// Pod name for the launcher.
pub fn launcher_pod_name(job_name: &str) -> (r: String)
    ensures
        r@ == job_name@ + "-launcher"@,
{
    concat(job_name, "-launcher")
}

/// Generates an MPI hostfile from the names of nodes, for execution on bare metal:
/// ```text
/// compute-01 slots=4
/// compute-02 slots=4
/// ```
pub fn generate_bare_metal_hostfile(nodes: &[String], tasks_per_node: u32) -> (r: String)
    ensures
        r@ == hostfile(nodes.deep_view(), tasks_per_node as nat),
{
    hostfile_text(nodes, tasks_per_node)
}

/// The command prefix of a job on bare metal: `srun` for `cray-mpich`,
/// `mpiexec.hydra` for `intel-mpi`, and else `mpirun`, which is not told to run as
/// root there.
pub fn bare_metal_mpirun_args(spec: &WrenJobSpec, hostfile_path: &str) -> (r: Vec<String>)
    requires
        implementation(spec.mpi) != "cray-mpich"@ ==> ranks_fit(*spec),
    ensures
        r.deep_view() == bare_metal_words(
            spec.nodes as nat,
            spec.tasks_per_node as nat,
            hostfile_path@,
            spec.mpi,
        ),
{
    bare_metal_launcher(spec.nodes, spec.tasks_per_node, hostfile_path, &spec.mpi)
}

/// The environment of MPI on bare metal: name of the job, number of nodes and ranks,
/// hostfile, and what the implementation needs to know of the network.
pub fn bare_metal_env_vars(
    job_name: &str,
    spec: &WrenJobSpec,
    nodes: &[String],
    hostfile_path: &str,
) -> (r: StringMap<String>)
    requires
        ranks_fit(*spec),
    ensures
        r@ == bare_metal_variables(
            job_name@,
            nodes@.len(),
            (spec.nodes * spec.tasks_per_node) as nat,
            hostfile_path@,
            spec.mpi,
        ),
{
    bare_metal_environment(job_name, nodes.len(), total_ranks(spec), hostfile_path, &spec.mpi)
}

/// `srun` with the nodes and tasks of a job.
pub fn srun_args(spec: &WrenJobSpec, hostfile_path: &str) -> (r: Vec<String>)
    ensures
        r.deep_view() == srun_words(
            spec.nodes as nat,
            spec.tasks_per_node as nat,
            hostfile_path@,
            spec.mpi,
        ),
{
    srun(spec.nodes, spec.tasks_per_node, hostfile_path, &spec.mpi)
}

} // verus!
