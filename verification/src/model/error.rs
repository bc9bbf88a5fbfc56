//! Errors.

use vstd::prelude::*;

verus! {

/// What can go wrong in scheduling and in running a job.
#[derive(Clone, Debug, PartialEq, Eq)]
pub enum BuboError {
    /// A walltime text that denotes no duration.
    InvalidWalltime { input: String },
    /// Input that breaks a rule.
    ValidationError { reason: String },
    /// No set of nodes can take the job now.
    NoFeasiblePlacement { job_name: String, reason: String },
    /// No queue has that name.
    QueueNotFound { queue_name: String },
    /// An execution backend refused or failed.
    BackendError { message: String },
    /// A call to the cluster's API failed.
    KubeError { message: String },
}

/// The same errors under the name that the job controller uses.
pub type WrenError = BuboError;

/// Content of a [`BuboError`].
pub ghost enum ErrorView {
    InvalidWalltime { input: Seq<char> },
    ValidationError { reason: Seq<char> },
    NoFeasiblePlacement { job_name: Seq<char>, reason: Seq<char> },
    QueueNotFound { queue_name: Seq<char> },
    BackendError { message: Seq<char> },
    KubeError { message: Seq<char> },
}

impl View for BuboError {
    type V = ErrorView;

    open spec fn view(&self) -> ErrorView {
        match self {
            BuboError::InvalidWalltime { input } => ErrorView::InvalidWalltime { input: input@ },
            BuboError::ValidationError { reason } => ErrorView::ValidationError { reason: reason@ },
            BuboError::NoFeasiblePlacement { job_name, reason } => ErrorView::NoFeasiblePlacement {
                job_name: job_name@,
                reason: reason@,
            },
            BuboError::QueueNotFound { queue_name } => ErrorView::QueueNotFound {
                queue_name: queue_name@,
            },
            BuboError::BackendError { message } => ErrorView::BackendError { message: message@ },
            BuboError::KubeError { message } => ErrorView::KubeError { message: message@ },
        }
    }
}

} // verus!
