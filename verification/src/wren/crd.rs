//! The resources that users of the Wren controller write: jobs, queues and users.

use vstd::prelude::*;
use vstd::string::*;
use crate::model::crd::{
    default_priority, default_queue, default_tasks_per_node, BackfillConfig, ContainerSpec,
    FairShareConfig, JobDependency, MPISpec, TopologySpec,
};
use crate::model::types::{ExecutionBackendType, JobState};
use crate::string_map::StringMap;

verus! {

/// What a user asks of a job.
#[derive(Clone, Debug)]
pub struct WrenJobSpec {
    /// Queue to submit this job to.
    pub queue: String,
    /// Job priority; higher is more important.
    pub priority: i32,
    /// Maximum wall time (such as "4h", "30m", "1d").
    pub walltime: Option<String>,
    /// Number of nodes required.
    pub nodes: u32,
    /// MPI ranks per node.
    pub tasks_per_node: u32,
    /// Execution backend.
    pub backend: ExecutionBackendType,
    /// Container backend configuration.
    pub container: Option<ContainerSpec>,
    /// Reaper backend configuration (bare-metal execution).
    pub reaper: Option<ReaperSpec>,
    /// MPI configuration.
    pub mpi: Option<MPISpec>,
    /// Topology placement preferences.
    pub topology: Option<TopologySpec>,
    /// Job dependencies.
    pub dependencies: Vec<JobDependency>,
    /// Project that the job's use is charged to.
    pub project: Option<String>,
}

impl WrenJobSpec {
    /// The placement preferences, if there are any.
    pub open spec fn topology_ref(&self) -> Option<&TopologySpec> {
        match &self.topology {
            Some(topology) => Some(topology),
            None => None,
        }
    }

    /// A job on `nodes` nodes with everything else at its default.
    pub fn with_nodes(nodes: u32) -> (r: Self)
        ensures
            r.nodes == nodes,
            r.queue@ == "default"@,
            r.priority == 50,
            r.tasks_per_node == 1,
            r.backend == ExecutionBackendType::Container,
            r.walltime is None,
            r.container is None,
            r.reaper is None,
            r.mpi is None,
            r.topology is None,
            r.dependencies@.len() == 0,
            r.project is None,
    {
        WrenJobSpec {
            queue: default_queue(),
            priority: default_priority(),
            walltime: None,
            nodes,
            tasks_per_node: default_tasks_per_node(),
            backend: ExecutionBackendType::default(),
            container: None,
            reaper: None,
            mpi: None,
            topology: None,
            dependencies: Vec::new(),
            project: None,
        }
    }
}

/// What to run on bare metal: a script, or a command with its arguments.
#[derive(Clone, Debug)]
pub struct ReaperSpec {
    /// Script to run with a shell.
    pub script: Option<String>,
    pub command: Vec<String>,
    pub args: Vec<String>,
    pub environment: StringMap<String>,
    pub working_dir: Option<String>,
    pub volumes: Vec<ReaperVolumeSpec>,
    pub dns_mode: Option<String>,
    pub overlay_name: Option<String>,
}

impl Default for ReaperSpec {
    /// Nothing to run.
    fn default() -> (r: Self)
        ensures
            r.script is None,
            r.command@.len() == 0,
            r.args@.len() == 0,
            r.environment@ == Map::<Seq<char>, Seq<char>>::empty(),
            r.working_dir is None,
            r.volumes@.len() == 0,
            r.dns_mode is None,
            r.overlay_name is None,
    {
        ReaperSpec {
            script: None,
            command: Vec::new(),
            args: Vec::new(),
            environment: StringMap::new(),
            working_dir: None,
            volumes: Vec::new(),
            dns_mode: None,
            overlay_name: None,
        }
    }
}

/// A volume for a bare-metal job, from one of several sources.
#[derive(Clone, Debug)]
pub struct ReaperVolumeSpec {
    pub name: String,
    pub mount_path: String,
    pub read_only: bool,
    /// Name of a config map.
    pub config_map: Option<String>,
    /// Name of a secret.
    pub secret: Option<String>,
    /// Path on the host.
    pub host_path: Option<String>,
    /// Whether the volume starts empty.
    pub empty_dir: bool,
}

/// Content of a [`ReaperVolumeSpec`].
pub ghost struct VolumeView {
    pub name: Seq<char>,
    pub mount_path: Seq<char>,
    pub read_only: bool,
    pub config_map: Option<Seq<char>>,
    pub secret: Option<Seq<char>>,
    pub host_path: Option<Seq<char>>,
    pub empty_dir: bool,
}

impl DeepView for ReaperVolumeSpec {
    type V = VolumeView;

    open spec fn deep_view(&self) -> VolumeView {
        VolumeView {
            name: self.name@,
            mount_path: self.mount_path@,
            read_only: self.read_only,
            config_map: self.config_map.deep_view(),
            secret: self.secret.deep_view(),
            host_path: self.host_path.deep_view(),
            empty_dir: self.empty_dir,
        }
    }
}

/// What the controller reports of a job.
#[derive(Clone, Debug)]
pub struct WrenJobStatus {
    /// Sequential identifier of the job.
    pub job_id: Option<u64>,
    /// Current state of the job.
    pub state: JobState,
    /// Human-readable message.
    pub message: Option<String>,
    /// Nodes assigned to this job.
    pub assigned_nodes: Vec<String>,
    /// Time the job started running.
    pub start_time: Option<String>,
    /// Time the job completed.
    pub completion_time: Option<String>,
    /// Number of ready workers.
    pub ready_workers: u32,
    /// Total workers expected.
    pub total_workers: u32,
}

impl Default for WrenJobStatus {
    /// A pending job of which nothing is known.
    fn default() -> (r: Self)
        ensures
            r.job_id is None,
            r.state == JobState::Pending,
            r.message is None,
            r.assigned_nodes@.len() == 0,
            r.start_time is None,
            r.completion_time is None,
            r.ready_workers == 0,
            r.total_workers == 0,
    {
        WrenJobStatus {
            job_id: None,
            state: JobState::default(),
            message: None,
            assigned_nodes: Vec::new(),
            start_time: None,
            completion_time: None,
            ready_workers: 0,
            total_workers: 0,
        }
    }
}

/// A scheduling queue and its policies.
#[derive(Clone, Debug)]
pub struct WrenQueueSpec {
    /// Maximum total nodes this queue can consume.
    pub max_nodes: u32,
    /// Maximum walltime allowed for jobs in this queue.
    pub max_walltime: Option<String>,
    /// Maximum concurrent jobs per user.
    pub max_jobs_per_user: Option<u32>,
    /// Default priority for jobs without explicit priority.
    pub default_priority: i32,
    pub backfill: Option<BackfillConfig>,
    pub fair_share: Option<FairShareConfig>,
}

/// A user of the cluster.
#[derive(Clone, Debug)]
pub struct WrenUserSpec {
    pub uid: u32,
    pub gid: u32,
    pub supplemental_groups: Vec<u32>,
    pub home_dir: Option<String>,
    pub default_project: Option<String>,
}

/// Whom a job runs as.
#[derive(Clone, Debug, PartialEq, Eq)]
pub struct UserIdentity {
    pub username: String,
    pub uid: u32,
    pub gid: u32,
    pub supplemental_groups: Vec<u32>,
    pub home_dir: Option<String>,
    pub default_project: Option<String>,
}

/// Content of a [`UserIdentity`].
pub ghost struct UserView {
    pub username: Seq<char>,
    pub uid: u32,
    pub gid: u32,
    pub supplemental_groups: Seq<u32>,
    pub home_dir: Option<Seq<char>>,
    pub default_project: Option<Seq<char>>,
}

impl DeepView for UserIdentity {
    type V = UserView;

    open spec fn deep_view(&self) -> UserView {
        UserView {
            username: self.username@,
            uid: self.uid,
            gid: self.gid,
            supplemental_groups: self.supplemental_groups@,
            home_dir: self.home_dir.deep_view(),
            default_project: self.default_project.deep_view(),
        }
    }
}

} // verus!
