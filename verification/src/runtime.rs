//! What the host prepares for the tiles to run.

pub mod firmware;
pub mod workload;
