//! Scheduling: dependencies, job arrays, placements and queues.

pub mod dependencies;
pub mod gang;
pub mod job_array;
pub mod queue;
pub mod queue_history;
pub mod queue_manager;
pub mod topology;
