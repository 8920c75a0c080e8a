//! The benchmark: its options, the trials it makes, what it writes, and how it
//! checks what comes out.

pub mod body;
pub mod check;
pub mod laws;
pub mod options;
pub mod plan;
pub mod proc;
pub mod run_laws;
pub mod summary;
pub mod trial;
