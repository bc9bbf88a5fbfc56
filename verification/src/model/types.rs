//! Jobs, nodes and the state of the cluster.

use vstd::prelude::*;
use vstd::string::*;
use crate::string_map::StringMap;

verus! {

/// How a job is executed.
#[derive(Clone, Copy, Debug, PartialEq, Eq, Structural)]
pub enum ExecutionBackendType {
    Container,
    Reaper,
}

impl Default for ExecutionBackendType {
    fn default() -> (r: Self)
        ensures
            r == ExecutionBackendType::Container,
    {
        ExecutionBackendType::Container
    }
}

/// State of a job in its lifecycle.
#[derive(Clone, Copy, Debug, PartialEq, Eq, Structural)]
pub enum JobState {
    Pending,
    Scheduling,
    Running,
    Succeeded,
    Failed,
    Cancelled,
    WalltimeExceeded,
}

impl Default for JobState {
    fn default() -> (r: Self)
        ensures
            r == JobState::Pending,
    {
        JobState::Pending
    }
}

impl DeepView for JobState {
    type V = JobState;

    open spec fn deep_view(&self) -> JobState {
        *self
    }
}

impl JobState {
    /// Name of the state.
    pub open spec fn name(self) -> Seq<char> {
        match self {
            JobState::Pending => "Pending"@,
            JobState::Scheduling => "Scheduling"@,
            JobState::Running => "Running"@,
            JobState::Succeeded => "Succeeded"@,
            JobState::Failed => "Failed"@,
            JobState::Cancelled => "Cancelled"@,
            JobState::WalltimeExceeded => "WalltimeExceeded"@,
        }
    }

    /// Whether the job has ended in this state.
    pub open spec fn terminal(self) -> bool {
        self is Succeeded || self.unsuccessful()
    }

    /// Whether the job has ended without success in this state.
    pub open spec fn unsuccessful(self) -> bool {
        self is Failed || self is Cancelled || self is WalltimeExceeded
    }

    /// The name of the state.
    pub fn as_str(&self) -> (r: &'static str)
        ensures
            r@ == self.name(),
    {
        match self {
            JobState::Pending => "Pending",
            JobState::Scheduling => "Scheduling",
            JobState::Running => "Running",
            JobState::Succeeded => "Succeeded",
            JobState::Failed => "Failed",
            JobState::Cancelled => "Cancelled",
            JobState::WalltimeExceeded => "WalltimeExceeded",
        }
    }

    /// The name of the state, as a string of its own.
    pub fn to_string(&self) -> (r: String)
        ensures
            r@ == self.name(),
    {
        self.as_str().to_owned()
    }
}

/// What a single node offers.
#[derive(Clone, Debug)]
pub struct NodeResources {
    pub name: String,
    pub allocatable_cpu_millis: u64,
    pub allocatable_memory_bytes: u64,
    pub allocatable_gpus: u32,
    pub labels: StringMap<String>,
    /// Network switch group that the node belongs to.
    pub switch_group: Option<String>,
    /// Rack that the node stands in.
    pub rack: Option<String>,
}

/// Content of a [`NodeResources`].
pub ghost struct NodeView {
    pub name: Seq<char>,
    pub cpu: nat,
    pub memory: nat,
    pub gpus: nat,
    pub labels: Map<Seq<char>, Seq<char>>,
    pub switch_group: Option<Seq<char>>,
    pub rack: Option<Seq<char>>,
}

impl DeepView for NodeResources {
    type V = NodeView;

    open spec fn deep_view(&self) -> NodeView {
        NodeView {
            name: self.name@,
            cpu: self.allocatable_cpu_millis as nat,
            memory: self.allocatable_memory_bytes as nat,
            gpus: self.allocatable_gpus as nat,
            labels: self.labels@,
            switch_group: self.switch_group.deep_view(),
            rack: self.rack.deep_view(),
        }
    }
}

/// How much of a node is in use, and by which jobs.
#[derive(Clone, Debug)]
pub struct NodeAllocation {
    pub used_cpu_millis: u64,
    pub used_memory_bytes: u64,
    pub used_gpus: u32,
    /// Names of the jobs on the node, one entry for each allocation.
    pub jobs: Vec<String>,
}

/// Content of a [`NodeAllocation`].
pub ghost struct AllocationView {
    pub cpu: nat,
    pub memory: nat,
    pub gpus: nat,
    pub jobs: Seq<Seq<char>>,
}

impl DeepView for NodeAllocation {
    type V = AllocationView;

    open spec fn deep_view(&self) -> AllocationView {
        AllocationView {
            cpu: self.used_cpu_millis as nat,
            memory: self.used_memory_bytes as nat,
            gpus: self.used_gpus as nat,
            jobs: self.jobs.deep_view(),
        }
    }
}

impl AllocationView {
    /// Nothing in use.
    pub open spec fn empty() -> AllocationView {
        AllocationView { cpu: 0, memory: 0, gpus: 0, jobs: Seq::empty() }
    }
}

impl Default for NodeAllocation {
    fn default() -> (r: Self)
        ensures
            r.deep_view() == AllocationView::empty(),
    {
        let r = NodeAllocation {
            used_cpu_millis: 0,
            used_memory_bytes: 0,
            used_gpus: 0,
            jobs: Vec::new(),
        };
        proof {
            assert(r.deep_view().jobs =~= Seq::<Seq<char>>::empty());
        }
        r
    }
}

} // verus!
