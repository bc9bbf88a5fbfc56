//! The resources that users write: jobs, queues and their parts.

use vstd::prelude::*;
use vstd::string::*;
use crate::model::types::{ExecutionBackendType, JobState};
use crate::string_map::StringMap;

verus! {

/// What a user asks of a multi-node MPI job.
#[derive(Clone, Debug)]
pub struct MPIJobSpec {
    /// Queue to submit this job to.
    pub queue: String,
    /// Job priority; higher is more important.
    pub priority: i32,
    /// Maximum wall time (such as "4h", "30m", "1d").
    pub walltime: Option<String>,
    /// Number of nodes required.
    pub nodes: u32,
    /// MPI ranks per node.
    pub tasks_per_node: u32,
    /// Execution backend.
    pub backend: ExecutionBackendType,
    /// Container backend configuration.
    pub container: Option<ContainerSpec>,
    /// Reaper backend configuration (bare-metal execution).
    pub reaper: Option<ReaperSpec>,
    /// MPI configuration.
    pub mpi: Option<MPISpec>,
    /// Topology placement preferences.
    pub topology: Option<TopologySpec>,
    /// Job dependencies.
    pub dependencies: Vec<JobDependency>,
}

/// Container to run.
#[derive(Clone, Debug)]
pub struct ContainerSpec {
    pub image: String,
    pub command: Vec<String>,
    pub args: Vec<String>,
    pub resources: Option<ResourceRequirements>,
    /// Use the network of the host (required for Slingshot and RDMA).
    pub host_network: bool,
    pub volume_mounts: Vec<VolumeMount>,
    pub env: Vec<EnvVar>,
}

/// Script to run on bare metal.
#[derive(Clone, Debug)]
pub struct ReaperSpec {
    /// Job script to execute on bare metal.
    pub script: String,
    pub environment: StringMap<String>,
    pub working_dir: Option<String>,
}

/// How MPI is launched.
#[derive(Clone, Debug)]
pub struct MPISpec {
    /// MPI implementation: cray-mpich, openmpi, intel-mpi.
    pub implementation: String,
    /// Use SSH-based MPI bootstrap.
    pub ssh_auth: bool,
    /// Network interface for MPI traffic (such as hsn0).
    pub fabric_interface: Option<String>,
}

/// Placement preferences.
#[derive(Clone, Debug)]
pub struct TopologySpec {
    /// Place all pods on nodes that share a network switch.
    pub prefer_same_switch: bool,
    /// Maximum number of network hops between any two nodes of the placement.
    pub max_hops: Option<u32>,
    /// Label key for topology grouping.
    pub topology_key: Option<String>,
}

/// A job that has to end before another starts.
#[derive(Clone, Debug)]
pub struct JobDependency {
    pub dep_type: DependencyType,
    /// Name of the job that this depends on.
    pub job: String,
}

/// Content of a [`JobDependency`].
pub ghost struct DependencyView {
    pub dep_type: DependencyType,
    pub job: Seq<char>,
}

impl DeepView for JobDependency {
    type V = DependencyView;

    open spec fn deep_view(&self) -> DependencyView {
        DependencyView { dep_type: self.dep_type, job: self.job@ }
    }
}

/// How the other job has to end.
#[derive(Clone, Copy, Debug, PartialEq, Eq, Structural)]
pub enum DependencyType {
    AfterOk,
    AfterAny,
    AfterNotOk,
}

/// What the controller reports of a job.
#[derive(Clone, Debug)]
pub struct MPIJobStatus {
    /// Current state of the job.
    pub state: JobState,
    /// Human-readable message.
    pub message: Option<String>,
    /// Nodes assigned to this job.
    pub assigned_nodes: Vec<String>,
    /// Time the job started running.
    pub start_time: Option<String>,
    /// Time the job completed.
    pub completion_time: Option<String>,
    /// Number of ready workers.
    pub ready_workers: u32,
    /// Total workers expected.
    pub total_workers: u32,
}

impl Default for MPIJobStatus {
    /// A pending job of which nothing is known.
    fn default() -> (r: Self)
        ensures
            r.state == JobState::Pending,
            r.message is None,
            r.assigned_nodes@.len() == 0,
            r.start_time is None,
            r.completion_time is None,
            r.ready_workers == 0,
            r.total_workers == 0,
    {
        MPIJobStatus {
            state: JobState::default(),
            message: None,
            assigned_nodes: Vec::new(),
            start_time: None,
            completion_time: None,
            ready_workers: 0,
            total_workers: 0,
        }
    }
}

/// A scheduling queue and its policies.
#[derive(Clone, Debug)]
pub struct BuboQueueSpec {
    /// Maximum total nodes this queue can consume.
    pub max_nodes: u32,
    /// Maximum walltime allowed for jobs in this queue.
    pub max_walltime: Option<String>,
    /// Maximum concurrent jobs per user.
    pub max_jobs_per_user: Option<u32>,
    /// Default priority for jobs without explicit priority.
    pub default_priority: i32,
    pub backfill: Option<BackfillConfig>,
    pub fair_share: Option<FairShareConfig>,
}

/// Backfill configuration.
#[derive(Clone, Debug)]
pub struct BackfillConfig {
    pub enabled: bool,
    /// How far ahead to project resource availability.
    pub look_ahead: Option<String>,
}

/// Fair-share configuration.
#[derive(Clone, Debug)]
pub struct FairShareConfig {
    pub enabled: bool,
    /// Half-life of the usage history (such as "7d").
    pub decay_half_life: Option<String>,
}

/// Resources of a container.
#[derive(Clone, Debug)]
pub struct ResourceRequirements {
    pub limits: StringMap<String>,
    pub requests: StringMap<String>,
}

/// A volume in a container.
#[derive(Clone, Debug)]
pub struct VolumeMount {
    pub name: String,
    pub mount_path: String,
    pub read_only: bool,
}

/// An environment variable.
#[derive(Clone, Debug)]
pub struct EnvVar {
    pub name: String,
    pub value: String,
}

impl DeepView for EnvVar {
    type V = (Seq<char>, Seq<char>);

    open spec fn deep_view(&self) -> (Seq<char>, Seq<char>) {
        (self.name@, self.value@)
    }
}

/// Queue of a job that names none.
pub fn default_queue() -> (r: String)
    ensures
        r@ == "default"@,
{
    "default".to_owned()
}

/// Priority of a job that states none.
pub fn default_priority() -> (r: i32)
    ensures
        r == 50,
{
    50
}

/// Ranks per node of a job that states none.
pub fn default_tasks_per_node() -> (r: u32)
    ensures
        r == 1,
{
    1
}

/// MPI implementation of a job that names none.
pub fn default_mpi_impl() -> (r: String)
    ensures
        r@ == "openmpi"@,
{
    "openmpi".to_owned()
}

/// Switches that are on unless they are set.
pub fn default_true() -> (r: bool)
    ensures
        r,
{
    true
}

impl MPIJobSpec {
    /// The placement preferences, if there are any.
    pub open spec fn topology_ref(&self) -> Option<&TopologySpec> {
        match &self.topology {
            Some(topology) => Some(topology),
            None => None,
        }
    }

    /// A job on `nodes` nodes with everything else at its default.
    pub fn with_nodes(nodes: u32) -> (r: Self)
        ensures
            r.nodes == nodes,
            r.queue@ == "default"@,
            r.priority == 50,
            r.tasks_per_node == 1,
            r.backend == ExecutionBackendType::Container,
            r.walltime is None,
            r.container is None,
            r.reaper is None,
            r.mpi is None,
            r.topology is None,
            r.dependencies@.len() == 0,
    {
        MPIJobSpec {
            queue: default_queue(),
            priority: default_priority(),
            walltime: None,
            nodes,
            tasks_per_node: default_tasks_per_node(),
            backend: ExecutionBackendType::default(),
            container: None,
            reaper: None,
            mpi: None,
            topology: None,
            dependencies: Vec::new(),
        }
    }
}

} // verus!
