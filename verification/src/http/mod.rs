//! HTTP: request framing, the sink and the push source.

pub mod laws;
pub mod push;
pub mod sink;
pub mod wire;
