//! Verified core of a small streaming runtime: expressions, connectors,
//! catalog and supervisor rules.

pub mod bench;
pub mod capabilities;
pub mod connector_laws;
pub mod control;
pub mod demo;
pub mod diag;
pub mod error;
pub mod expr;
pub mod file_laws;
pub mod file_lines;
pub mod file_poll;
pub mod file_replay;
pub mod http;
pub mod ip;
pub mod log;
pub mod model;
pub mod mqtt;
pub mod policy;
pub mod policy_laws;
pub mod secret;
pub mod socket;
pub mod table;
pub mod text;
pub mod text_laws;
pub mod tls;
pub mod view_laws;
