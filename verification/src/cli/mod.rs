//! What the command-line tools print and change.

pub mod logs;
pub mod queue;
pub mod status;
pub mod submit;
