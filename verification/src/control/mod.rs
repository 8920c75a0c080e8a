//! The control plane: pipeline specifications, the catalog, and the rules by
//! which running jobs follow what is wanted.

pub mod aligned;
pub mod job_laws;
pub mod kernel;
pub mod laws;
pub mod plan;
pub mod secrets;
pub mod spec;
pub mod start;
pub mod start_laws;
pub mod status;
pub mod store;
pub mod supervisor;
pub mod validate;
pub mod write_laws;
