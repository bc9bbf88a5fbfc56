//! What holds of the library, in terms of what its callers hand in and get back.

pub mod admission;
pub mod arrays;
pub mod bare_metal;
pub mod cluster;
pub mod containers;
pub mod defaults;
pub mod dependencies;
pub mod displays;
pub mod identity;
pub mod leadership;
pub mod lifecycle;
pub mod maps;
pub mod metrics;
pub mod mpi;
pub mod nodes;
pub mod placement;
pub mod pods;
pub mod queues;
pub mod reservations;
pub mod texts;
pub mod topology;
pub mod walltimes;
