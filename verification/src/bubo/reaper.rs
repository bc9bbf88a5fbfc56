//! MPI jobs on bare metal: what is asked of the agents on the nodes, and what is
//! kept of the jobs that they run.

use vstd::prelude::*;
use vstd::slice::*;
use vstd::string::*;
use crate::bubo::mpi;
use crate::controller::launch::{copy_words, hostfile, put, Variables};
use crate::controller::pods::{failure_message, failure_text};
use crate::model::backend::{BackendJobStatus, BackendView, LaunchResult};
use crate::model::crd::MPIJobSpec;
use crate::model::error::{BuboError, ErrorView};
use crate::scheduler::gang::Placement;
use crate::string_map::StringMap;
use crate::text::{bounded_value, dec, decimal, parse_bounded, str_eq};

verus! {

/// Default port on which Reaper agents listen.
pub const DEFAULT_REAPER_AGENT_PORT: u16 = 8443;

/// Request body sent to a Reaper agent when submitting a job.
#[derive(Debug, Clone)]
pub struct ReaperJobRequest {
    /// Shell script to execute on bare metal.
    pub script: String,
    /// Environment variables for the job process.
    pub environment: StringMap<String>,
    /// Working directory for the job process.
    pub working_dir: Option<String>,
}

/// Response returned by a Reaper agent after submitting a job.
#[derive(Debug, Clone, PartialEq, Eq)]
pub struct ReaperJobResponse {
    /// Job identifier assigned by the Reaper agent.
    pub job_id: String,
    /// Initial status reported at submission time.
    pub status: ReaperJobState,
}

/// Status of a job as reported by a Reaper agent.
#[derive(Debug, Clone, PartialEq, Eq)]
pub struct ReaperJobStatus {
    pub job_id: String,
    pub status: ReaperJobState,
    /// Exit code, where the job has finished.
    pub exit_code: Option<i32>,
    /// Human-readable message.
    pub message: Option<String>,
}

/// States that a Reaper-managed job can be in.
#[derive(Debug, Clone, Copy, PartialEq, Eq, Structural)]
pub enum ReaperJobState {
    /// Job is waiting to start.
    Pending,
    /// Job process is running.
    Running,
    /// Job completed successfully.
    Succeeded,
    /// Job exited with a non-zero exit code or was killed.
    Failed,
    /// Status could not be determined.
    Unknown,
}

/// How a job is doing by what its agent reports.
pub open spec fn reaper_status(
    state: ReaperJobState,
    message: Option<Seq<char>>,
    exit_code: Option<i32>,
) -> BackendView {
    match state {
        ReaperJobState::Pending => BackendView::Launching { ready: 0, total: 1 },
        ReaperJobState::Running => BackendView::Running,
        ReaperJobState::Succeeded => BackendView::Succeeded,
        ReaperJobState::Failed => BackendView::Failed {
            message: failure_text(message, exit_code),
        },
        ReaperJobState::Unknown => BackendView::NotFound,
    }
}

/// Maps the status of a job on its agent to the status of the job.
pub fn map_reaper_state(status: &ReaperJobStatus) -> (r: BackendJobStatus)
    ensures
        r@ == reaper_status(status.status, status.message.deep_view(), status.exit_code),
{
    match status.status {
        ReaperJobState::Pending => BackendJobStatus::Launching { ready: 0, total: 1 },
        ReaperJobState::Running => BackendJobStatus::Running,
        ReaperJobState::Succeeded => BackendJobStatus::Succeeded,
        ReaperJobState::Failed => BackendJobStatus::Failed {
            message: failure_message(&status.message, status.exit_code),
        },
        ReaperJobState::Unknown => BackendJobStatus::NotFound,
    }
}

/// What a reply to a status request comes to.
pub enum PollReply {
    /// The status, where the agent knows no such job.
    Known(ReaperJobStatus),
    /// The error, where the agent refused.
    Refused(BuboError),
    /// The body of the reply holds the status.
    Body,
}

/// Environment of a rank: that of the job, its place and size, the hostfile, and
/// what the job says of MPI.
pub open spec fn rank_variables(
    own: Variables,
    rank: nat,
    spec: MPIJobSpec,
    hosts: Seq<char>,
) -> Variables {
    let base = own.insert("BUBO_MPI_RANK"@, dec(rank)).insert(
        "BUBO_TOTAL_RANKS"@,
        dec((spec.nodes * spec.tasks_per_node) as nat),
    ).insert("BUBO_NUM_NODES"@, dec(spec.nodes as nat)).insert("BUBO_HOSTFILE"@, hosts);
    match spec.mpi {
        Some(m) => {
            let named = base.insert("BUBO_MPI_IMPL"@, m.implementation@);
            match m.fabric_interface {
                Some(iface) => named.insert("BUBO_FABRIC_INTERFACE"@, iface@),
                None => named,
            }
        },
        None => base,
    }
}

/// Content of a [`ReaperBackend`].
pub ghost struct AgentsView {
    /// For each job, the node of its first rank and the identifier that its agent
    /// gave it.
    pub active: Map<Seq<char>, (Seq<char>, Seq<char>)>,
    /// For each job, its nodes.
    pub nodes: Map<Seq<char>, Seq<Seq<char>>>,
}

/// Where Reaper agents are reached, and which jobs they run.
pub struct ReaperBackend {
    /// Port that the agents listen on.
    pub agent_port: u16,
    /// URL scheme: "http" or "https".
    pub agent_scheme: String,
    /// Node of the first rank of each job, and the identifier of the job there.
    pub active_jobs: StringMap<(String, String)>,
    /// Nodes of each job.
    pub job_nodes: StringMap<Vec<String>>,
}

impl View for ReaperBackend {
    type V = AgentsView;

    open spec fn view(&self) -> AgentsView {
        AgentsView { active: self.active_jobs@, nodes: self.job_nodes@ }
    }
}

fn node_says(before: &str, node: &str) -> (r: String)
    ensures
        r@ == before@ + node@,
{
    let mut text = before.to_owned();
    text.append(node);
    text
}

impl ReaperBackend {
    /// A backend without jobs. `port` and `scheme` are settings, where they are set; a
    /// port that is no 16-bit number counts as not set. The scheme is `http` unless it
    /// is set to `https`.
    pub fn new(port: Option<&str>, scheme: Option<&str>) -> (r: Self)
        ensures
            r.agent_port == (match port {
                Some(text) => match bounded_value(text@, u16::MAX as nat) {
                    Some(n) => n as u16,
                    None => DEFAULT_REAPER_AGENT_PORT,
                },
                None => DEFAULT_REAPER_AGENT_PORT,
            }),
            r.agent_scheme@ == (if scheme is Some && scheme->0@ == "https"@ {
                "https"@
            } else {
                "http"@
            }),
            r@.active == Map::<Seq<char>, (Seq<char>, Seq<char>)>::empty(),
            r@.nodes == Map::<Seq<char>, Seq<Seq<char>>>::empty(),
    {
        let agent_port: u16 = match port {
            Some(text) => match parse_bounded(text, u16::MAX as u64) {
                Some(n) => n as u16,
                None => DEFAULT_REAPER_AGENT_PORT,
            },
            None => DEFAULT_REAPER_AGENT_PORT,
        };
        let agent_scheme = match scheme {
            Some(text) => if str_eq(text, "https") {
                "https".to_owned()
            } else {
                "http".to_owned()
            },
            None => "http".to_owned(),
        };
        ReaperBackend {
            agent_port,
            agent_scheme,
            active_jobs: StringMap::new(),
            job_nodes: StringMap::new(),
        }
    }

    /// Base URL of the agent on a node.
    pub open spec fn url(self, node: Seq<char>) -> Seq<char> {
        self.agent_scheme@ + "://"@ + node + ":"@ + dec(self.agent_port as nat)
    }

    /// Base URL of the agent on `node_name`.
    pub fn agent_url(&self, node_name: &str) -> (r: String)
        ensures
            r@ == self.url(node_name@),
    {
        let mut url = self.agent_scheme.clone();
        url.append("://");
        url.append(node_name);
        url.append(":");
        url.append(decimal(self.agent_port as u64).as_str());
        url
    }

    /// URL that jobs are submitted to.
    pub fn jobs_url(&self, node_name: &str) -> (r: String)
        ensures
            r@ == self.url(node_name@) + "/api/v1/jobs"@,
    {
        let mut url = self.agent_url(node_name);
        url.append("/api/v1/jobs");
        url
    }

    /// URL of a job.
    pub fn job_url(&self, node_name: &str, job_id: &str) -> (r: String)
        ensures
            r@ == self.url(node_name@) + "/api/v1/jobs/"@ + job_id@,
    {
        let mut url = self.agent_url(node_name);
        url.append("/api/v1/jobs/");
        url.append(job_id);
        url
    }

    /// The job request for a rank, with the MPI environment variables.
    pub fn build_job_request(
        &self,
        spec: &MPIJobSpec,
        placement: &Placement,
        rank: u32,
    ) -> (r: Result<ReaperJobRequest, BuboError>)
        requires
            spec.reaper is Some ==> mpi::ranks_fit(*spec),
        ensures
            match r {
                Ok(request) => spec.reaper is Some && request.script@ == spec.reaper->0.script@
                    && request.environment@ == rank_variables(
                    spec.reaper->0.environment@,
                    rank as nat,
                    *spec,
                    hostfile(placement.nodes.deep_view(), spec.tasks_per_node as nat),
                ) && request.working_dir.deep_view() == spec.reaper->0.working_dir.deep_view(),
                Err(e) => spec.reaper is None && e@ == (ErrorView::ValidationError {
                    reason: "reaper spec required for reaper backend"@,
                }),
            },
    {
        let reaper = match &spec.reaper {
            Some(reaper) => reaper,
            None => {
                return Err(
                    BuboError::ValidationError {
                        reason: "reaper spec required for reaper backend".to_owned(),
                    },
                );
            },
        };
        let hosts = mpi::generate_hostfile(placement, spec.tasks_per_node);
        let total = mpi::total_ranks(spec);
        let mut environment = reaper.environment.duplicate();
        put(&mut environment, "BUBO_MPI_RANK", decimal(rank as u64).as_str());
        put(&mut environment, "BUBO_TOTAL_RANKS", decimal(total as u64).as_str());
        put(&mut environment, "BUBO_NUM_NODES", decimal(spec.nodes as u64).as_str());
        put(&mut environment, "BUBO_HOSTFILE", hosts.as_str());
        match &spec.mpi {
            Some(m) => {
                put(&mut environment, "BUBO_MPI_IMPL", m.implementation.as_str());
                match &m.fabric_interface {
                    Some(iface) => {
                        put(&mut environment, "BUBO_FABRIC_INTERFACE", iface.as_str());
                    },
                    None => {},
                }
            },
            None => {},
        }
        Ok(
            ReaperJobRequest {
                script: reaper.script.clone(),
                environment,
                working_dir: reaper.working_dir.clone(),
            },
        )
    }

    /// Whether an agent's reply to a submission holds a job; where it does not, the
    /// error. `status` is the reply's status line, and `code` its number.
    pub fn check_submission(node: &str, code: u16, status: &str, body: &str) -> (r: Result<
        (),
        BuboError,
    >)
        ensures
            match r {
                Ok(_) => 200 <= code < 300,
                Err(e) => !(200 <= code < 300) && e@ == (ErrorView::BackendError {
                    message: "Reaper agent on "@ + node@ + " returned "@ + status@ + ": "@ + body@,
                }),
            },
    {
        if 200 <= code && code < 300 {
            return Ok(());
        }
        let mut message = node_says("Reaper agent on ", node);
        message.append(" returned ");
        message.append(status);
        message.append(": ");
        message.append(body);
        Err(BuboError::BackendError { message })
    }

    /// What an agent's reply to a status request comes to.
    pub fn check_poll(node: &str, job_id: &str, code: u16, status: &str, body: &str) -> (r:
        PollReply)
        ensures
            match r {
                PollReply::Known(s) => code == 404 && s.job_id@ == job_id@ && s.status
                    == ReaperJobState::Unknown && s.exit_code is None && s.message.deep_view()
                    == Some("job not found on agent"@),
                PollReply::Refused(e) => code != 404 && !(200 <= code < 300) && e@ == (
                ErrorView::BackendError {
                    message: "Reaper agent on "@ + node@ + " returned "@ + status@
                        + " for status poll: "@ + body@,
                }),
                PollReply::Body => 200 <= code < 300,
            },
    {
        if code == 404 {
            return PollReply::Known(
                ReaperJobStatus {
                    job_id: job_id.to_owned(),
                    status: ReaperJobState::Unknown,
                    exit_code: None,
                    message: Some("job not found on agent".to_owned()),
                },
            );
        }
        if 200 <= code && code < 300 {
            return PollReply::Body;
        }
        let mut message = node_says("Reaper agent on ", node);
        message.append(" returned ");
        message.append(status);
        message.append(" for status poll: ");
        message.append(body);
        PollReply::Refused(BuboError::BackendError { message })
    }

    /// The node that the first rank of a job goes to.
    pub fn launcher_node(placement: &Placement) -> (r: Result<String, BuboError>)
        ensures
            match r {
                Ok(node) => placement.nodes@.len() > 0 && node@ == placement.nodes@[0]@,
                Err(e) => placement.nodes@.len() == 0 && e@ == (ErrorView::ValidationError {
                    reason: "placement must contain at least one node"@,
                }),
            },
    {
        if placement.nodes.len() == 0 {
            return Err(
                BuboError::ValidationError {
                    reason: "placement must contain at least one node".to_owned(),
                },
            );
        }
        Ok(placement.nodes[0].clone())
    }

    /// Records a job that the agents on its nodes have taken, under the identifiers
    /// that they gave it, one for each node.
    pub fn record_launch(
        &mut self,
        job_name: &str,
        placement: &Placement,
        job_ids: &Vec<String>,
    ) -> (r: LaunchResult)
        requires
            placement.nodes@.len() > 0,
            job_ids@.len() == placement.nodes@.len(),
        ensures
            final(self).agent_port == old(self).agent_port,
            final(self).agent_scheme == old(self).agent_scheme,
            final(self)@.active == old(self)@.active.insert(
                job_name@,
                (placement.nodes@[0]@, job_ids@[0]@),
            ),
            final(self)@.nodes == old(self)@.nodes.insert(job_name@, placement.nodes.deep_view()),
            r.resource_ids.deep_view() == Seq::new(
                placement.nodes@.len(),
                |k: int| placement.nodes@[k]@ + ":"@ + job_ids@[k]@,
            ),
            r.message@ == "submitted job to "@ + dec(placement.nodes@.len())
                + " Reaper agents; launcher on "@ + placement.nodes@[0]@,
    {
        let n = placement.nodes.len();
        let mut resource_ids: Vec<String> = Vec::new();
        let mut k: usize = 0;
        while k < n
            invariant
                k <= n,
                n == placement.nodes@.len(),
                job_ids@.len() == n,
                resource_ids.len() == k,
                forall|i: int|
                    0 <= i < k ==> #[trigger] resource_ids@[i]@ == placement.nodes@[i]@ + ":"@
                        + job_ids@[i]@,
            decreases n - k,
        {
            let mut label = placement.nodes[k].clone();
            label.append(":");
            label.append(job_ids[k].as_str());
            resource_ids.push(label);
            k += 1;
        }
        proof {
            assert(resource_ids.deep_view() =~= Seq::new(
                placement.nodes@.len(),
                |k: int| placement.nodes@[k]@ + ":"@ + job_ids@[k]@,
            ));
        }
        self.active_jobs.insert(
            job_name.to_owned(),
            (placement.nodes[0].clone(), job_ids[0].clone()),
        );
        self.job_nodes.insert(job_name.to_owned(), copy_words(&placement.nodes));
        let mut message = "submitted job to ".to_owned();
        message.append(decimal(n as u64).as_str());
        message.append(" Reaper agents; launcher on ");
        message.append(placement.nodes[0].as_str());
        LaunchResult { resource_ids, message }
    }

    /// Where a job's status is asked for: node and identifier. A job of which
    /// nothing is kept has none, and counts as not found.
    pub fn status_source(&self, job_name: &str) -> (r: Option<(String, String)>)
        ensures
            r.deep_view() == (if self@.active.dom().contains(job_name@) {
                Some(self@.active[job_name@])
            } else {
                None
            }),
    {
        match self.active_jobs.get(job_name) {
            Some(entry) => Some((entry.0.clone(), entry.1.clone())),
            None => None,
        }
    }

    /// Where a job is terminated, and under which identifier: on all its nodes, under
    /// that of its first rank, or under its name where that is not known.
    pub fn termination(&self, job_name: &str) -> (r: (Vec<String>, String))
        ensures
            r.0.deep_view() == (if self@.nodes.dom().contains(job_name@) {
                self@.nodes[job_name@]
            } else {
                Seq::empty()
            }),
            r.1@ == (if self@.active.dom().contains(job_name@) {
                self@.active[job_name@].1
            } else {
                job_name@
            }),
    {
        let nodes = match self.job_nodes.get(job_name) {
            Some(nodes) => copy_words(nodes),
            None => {
                let none: Vec<String> = Vec::new();
                proof {
                    assert(none.deep_view() =~= Seq::<Seq<char>>::empty());
                }
                none
            },
        };
        let job_id = match self.active_jobs.get(job_name) {
            Some(entry) => entry.1.clone(),
            None => job_name.to_owned(),
        };
        (nodes, job_id)
    }

    /// Drops what is kept of a job.
    pub fn forget(&mut self, job_name: &str)
        ensures
            final(self).agent_port == old(self).agent_port,
            final(self).agent_scheme == old(self).agent_scheme,
            final(self)@.active == old(self)@.active.remove(job_name@),
            final(self)@.nodes == old(self)@.nodes.remove(job_name@),
    {
        self.active_jobs.remove(job_name);
        self.job_nodes.remove(job_name);
    }
}

impl Default for ReaperBackend {
    fn default() -> (r: Self)
        ensures
            r.agent_port == DEFAULT_REAPER_AGENT_PORT,
            r.agent_scheme@ == "http"@,
            r@.active == Map::<Seq<char>, (Seq<char>, Seq<char>)>::empty(),
            r@.nodes == Map::<Seq<char>, Seq<Seq<char>>>::empty(),
    {
        ReaperBackend::new(None, None)
    }
}

} // verus!
