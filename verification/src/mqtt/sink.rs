//! The MQTT sink: one message per row, sent once.

use super::client::{connect_packet, keepalive_secs, publish_packet};
use super::codec::Packet;
use crate::capabilities::{
    durable_fault, qos_fault, refuse_dirty_session, refuse_durable_recovery, refuse_qos_durable,
    session_fault, ConnectorCapabilities, RestoreClaim,
};
use crate::error::{refuse, ConnectorError};
use crate::model::{fault, ErrorCode, Fault};
use crate::policy::{target_fault, TargetPolicy};
use crate::text::{cat4, dec, decimal};
use crate::tls::{skip_verify_fault, TlsConfig};
use vstd::prelude::*;

verus! {

/// The largest outbox, in batches.
pub const MAX_OUTBOX: usize = 1024;

/// The pause before a lost session is opened again, in milliseconds.
pub const SINK_RECONNECT_MS: u64 = 50;

/// Settings of the MQTT sink. Durations are in milliseconds.
#[derive(Debug)]
pub struct MqttSinkConfig {
    pub host: String,
    pub port: u16,
    pub client_id: String,
    pub topic: String,
    pub qos: u8,
    pub clean_session: bool,
    pub tls: TlsConfig,
    pub connect_timeout_ms: u64,
    pub keepalive_ms: u64,
    pub outbox_capacity: usize,
    pub restore: RestoreClaim,
}

impl MqttSinkConfig {
    /// What the sink declares.
    pub fn capabilities() -> (r: ConnectorCapabilities)
        ensures
            r.live("mqtt_sink"@),
    {
        ConnectorCapabilities::mqtt_sink()
    }

    /// Settings for a demonstration.
    pub fn demo(host: &str, port: u16) -> (r: Self)
        ensures
            r.host@ == host@,
            r.port == port,
            r.client_id@ == "sparrow-mqtt-sink"@,
            r.topic@ == "sparrow/out"@,
            r.qos == 0,
            r.clean_session,
            !r.tls.enabled,
            !r.tls.skip_verify,
            r.connect_timeout_ms == 2000,
            r.keepalive_ms == 30000,
            r.outbox_capacity == 32,
            r.restore is Absent,
    {
        MqttSinkConfig {
            host: host.to_owned(),
            port,
            client_id: "sparrow-mqtt-sink".to_owned(),
            topic: "sparrow/out".to_owned(),
            qos: 0,
            clean_session: true,
            tls: TlsConfig::disabled(),
            connect_timeout_ms: 2000,
            keepalive_ms: 30000,
            outbox_capacity: 32,
            restore: RestoreClaim::Absent,
        }
    }

    /// Why the settings are refused.
    pub open spec fn fault(self, policy: TargetPolicy) -> Option<Fault> {
        if self.qos != 0 {
            Some(qos_fault(self.qos))
        } else if !self.clean_session {
            Some(session_fault())
        } else if !(self.restore is Absent) {
            Some(durable_fault())
        } else if self.tls.skip_verify {
            Some(skip_verify_fault())
        } else if self.host@.len() == 0 || self.client_id@.len() == 0 || self.topic@.len() == 0 {
            Some(
                fault(
                    ErrorCode::InvalidArgument,
                    "MQTT sink host, client_id, and topic are required"@,
                ),
            )
        } else if self.outbox_capacity == 0 || self.outbox_capacity > MAX_OUTBOX {
            Some(
                fault(
                    ErrorCode::BoundExceeded,
                    "MQTT sink outbox_capacity "@ + decimal(self.outbox_capacity as nat)
                        + " is outside 1..="@ + decimal(MAX_OUTBOX as nat),
                ),
            )
        } else {
            target_fault(policy.allowed@, self.host@, self.port)
        }
    }

    /// Checks the settings.
    pub fn validate(&self, policy: &TargetPolicy) -> (r: Result<(), ConnectorError>)
        ensures
            match r {
                Ok(()) => self.fault(*policy) is None,
                Err(e) => self.fault(*policy) == Some(e@),
            },
    {
        match refuse_qos_durable(self.qos) {
            Ok(()) => {},
            Err(e) => {
                return Err(e);
            },
        }
        match refuse_dirty_session(self.clean_session) {
            Ok(()) => {},
            Err(e) => {
                return Err(e);
            },
        }
        match refuse_durable_recovery(&self.restore) {
            Ok(()) => {},
            Err(e) => {
                return Err(e);
            },
        }
        match self.tls.validate() {
            Ok(()) => {},
            Err(e) => {
                return Err(e);
            },
        }
        if self.host.as_str().is_empty() || self.client_id.as_str().is_empty()
            || self.topic.as_str().is_empty() {
            return Err(
                refuse(
                    ErrorCode::InvalidArgument,
                    "MQTT sink host, client_id, and topic are required",
                ),
            );
        }
        if self.outbox_capacity == 0 || self.outbox_capacity > MAX_OUTBOX {
            return Err(
                ConnectorError::new(
                    ErrorCode::BoundExceeded,
                    cat4(
                        "MQTT sink outbox_capacity ",
                        dec(self.outbox_capacity as u64).as_str(),
                        " is outside 1..=",
                        dec(MAX_OUTBOX as u64).as_str(),
                    ),
                ),
            );
        }
        policy.check_host_port(self.host.as_str(), self.port)
    }
}

/// A sink whose settings were checked.
#[derive(Debug)]
pub struct MqttSink {
    pub config: MqttSinkConfig,
}

impl MqttSink {
    /// Checks the settings.
    pub fn bind(config: MqttSinkConfig, policy: &TargetPolicy) -> (r: Result<
        Self,
        ConnectorError,
    >)
        ensures
            match r {
                Ok(s) => config.fault(*policy) is None && s.config == config,
                Err(e) => config.fault(*policy) == Some(e@),
            },
    {
        match config.validate(policy) {
            Ok(()) => Ok(MqttSink { config }),
            Err(e) => Err(e),
        }
    }

    /// The packet that opens a session; a sink has no credentials.
    pub fn hello(&self) -> (r: Packet)
        ensures
            r is Connect,
            r->Connect_0.client_id@ == self.config.client_id@,
            r->Connect_0.clean_session == self.config.clean_session,
            r->Connect_0.keepalive == keepalive_secs(self.config.keepalive_ms),
            r->Connect_0.username is None,
            r->Connect_0.password is None,
    {
        connect_packet(
            self.config.client_id.as_str(),
            self.config.clean_session,
            self.config.keepalive_ms,
            None,
            None,
        )
    }

    /// The message for a row, given its encoding. A row that could not be
    /// encoded, or whose encoding is too long, is dropped.
    pub fn row_packet(&self, body: Option<Vec<u8>>, max_bytes: usize) -> (r: Option<Packet>)
        ensures
            match body {
                Some(b) if b@.len() <= max_bytes => {
                    &&& r is Some
                    &&& r->0 is Publish
                    &&& r->0->Publish_0.payload == b
                    &&& r->0->Publish_0.topic@ == self.config.topic@
                    &&& r->0->Publish_0.qos == 0
                    &&& r->0->Publish_0.packet_id is None
                    &&& !r->0->Publish_0.dup
                    &&& !r->0->Publish_0.retain
                },
                _ => r is None,
            },
    {
        match body {
            Some(b) => if b.len() <= max_bytes {
                Some(publish_packet(self.config.topic.as_str(), b))
            } else {
                None
            },
            None => None,
        }
    }
}

} // verus!
