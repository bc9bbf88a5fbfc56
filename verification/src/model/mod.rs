//! The data that schedulers, controllers and the command line share.

pub mod backend;
pub mod cluster;
pub mod crd;
pub mod error;
pub mod time;
pub mod types;
pub mod walltime;
