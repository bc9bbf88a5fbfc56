//! What execution backends report.

use vstd::prelude::*;
use vstd::string::*;

verus! {

/// Result of launching a job via an execution backend.
#[derive(Clone, Debug)]
pub struct LaunchResult {
    /// Identifiers of the running workload, such as pod names.
    pub resource_ids: Vec<String>,
    /// Human-readable message about the launch.
    pub message: String,
}

/// Status of a job as reported by the execution backend.
#[derive(Clone, Debug, PartialEq, Eq)]
pub enum BackendJobStatus {
    /// Workers are still starting up.
    Launching { ready: u32, total: u32 },
    /// All workers are running.
    Running,
    /// The job completed successfully.
    Succeeded,
    /// The job failed.
    Failed { message: String },
    /// The job's resources were not found.
    NotFound,
}

/// Content of a [`BackendJobStatus`].
pub ghost enum BackendView {
    Launching { ready: u32, total: u32 },
    Running,
    Succeeded,
    Failed { message: Seq<char> },
    NotFound,
}

impl View for BackendJobStatus {
    type V = BackendView;

    open spec fn view(&self) -> BackendView {
        match self {
            BackendJobStatus::Launching { ready, total } => BackendView::Launching {
                ready: *ready,
                total: *total,
            },
            BackendJobStatus::Running => BackendView::Running,
            BackendJobStatus::Succeeded => BackendView::Succeeded,
            BackendJobStatus::Failed { message } => BackendView::Failed { message: message@ },
            BackendJobStatus::NotFound => BackendView::NotFound,
        }
    }
}

} // verus!
