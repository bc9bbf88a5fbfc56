//! The controller of MPI jobs.

pub mod container;
pub mod mpi;
pub mod node_watcher;
pub mod reaper;
pub mod reconciler;
