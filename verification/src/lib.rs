//! Job scheduling for HPC clusters: queues, dependencies, gang placement and
//! the decisions of the job controllers, with their contracts proved.

pub mod bubo;
pub mod cli;
pub mod controller;
pub mod laws;
pub mod model;
pub mod scheduler;
pub mod string_map;
pub mod text;
pub mod wren;
