//! What the job controllers have in common.

pub mod booking;
pub mod launch;
pub mod manifest;
pub mod metrics;
pub mod pods;
pub mod reconcile;
pub mod reservation;
pub mod walltime;
