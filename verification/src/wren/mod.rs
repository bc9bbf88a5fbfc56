//! The controller of Wren jobs.

pub mod container;
pub mod crd;
pub mod job_id;
pub mod leader_election;
pub mod mpi;
pub mod reaper;
pub mod reconciler;
pub mod user_identity;
pub mod webhook;
