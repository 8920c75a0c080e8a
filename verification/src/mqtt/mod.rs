//! MQTT 3.1.1, quality of service 0.

pub mod broker;
pub mod client;
pub mod codec;
pub mod io;
pub mod laws;
pub mod session;
pub mod sink;
pub mod source;
