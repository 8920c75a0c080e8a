//! What every MQTT client sends and expects when a session opens.

use super::codec::{Connect, Packet, Publish};
use crate::error::{refuse, ConnectorError};
use crate::model::{fault, ErrorCode, Fault};
use crate::text::{cat2, dec, decimal};
use vstd::prelude::*;

verus! {

/// A keepalive in whole seconds, as far as the packet's field holds them.
pub open spec fn keepalive_secs(ms: u64) -> u16 {
    (ms / 1000 % 65536) as u16
}

/// The packet that opens a session.
pub fn connect_packet(
    client_id: &str,
    clean_session: bool,
    keepalive_ms: u64,
    username: Option<String>,
    password: Option<Vec<u8>>,
) -> (r: Packet)
    ensures
        r is Connect,
        r->Connect_0.client_id@ == client_id@,
        r->Connect_0.clean_session == clean_session,
        r->Connect_0.keepalive == keepalive_secs(keepalive_ms),
        r->Connect_0.username == username,
        r->Connect_0.password == password,
{
    Packet::Connect(
        Connect {
            client_id: client_id.to_owned(),
            clean_session,
            keepalive: (keepalive_ms / 1000 % 65536) as u16,
            username,
            password,
        },
    )
}

/// A message with quality of service 0.
pub fn publish_packet(topic: &str, payload: Vec<u8>) -> (r: Packet)
    ensures
        r is Publish,
        !r->Publish_0.dup,
        r->Publish_0.qos == 0,
        !r->Publish_0.retain,
        r->Publish_0.topic@ == topic@,
        r->Publish_0.packet_id is None,
        r->Publish_0.payload == payload,
{
    Packet::Publish(
        Publish {
            dup: false,
            qos: 0,
            retain: false,
            topic: topic.to_owned(),
            packet_id: None,
            payload,
        },
    )
}

/// The packet that asks for one topic filter.
pub fn subscribe_packet(topic: &str) -> (r: Packet)
    ensures
        r is Subscribe,
        r->Subscribe_packet_id == 1,
        r->topics@.len() == 1,
        r->topics@[0].0@ == topic@,
        r->topics@[0].1 == 0,
{
    let mut topics: Vec<(String, u8)> = Vec::new();
    topics.push((topic.to_owned(), 0));
    Packet::Subscribe { packet_id: 1, topics }
}

/// Whether the broker granted the session.
pub open spec fn granted(p: Packet) -> bool {
    p matches Packet::ConnAck { return_code, .. } && return_code == 0
}

/// Expects that the broker grants the session. The error begins with `label`
/// and shows the packet, whose text is `shown`.
pub fn expect_session(packet: &Packet, label: &str, shown: &str) -> (r: Result<(), ConnectorError>)
    ensures
        match r {
            Ok(()) => granted(*packet),
            Err(e) => !granted(*packet) && e@ == fault(ErrorCode::Internal, label@ + shown@),
        },
{
    match packet {
        Packet::ConnAck { return_code: 0, .. } => Ok(()),
        _ => Err(ConnectorError::new(ErrorCode::Internal, cat2(label, shown))),
    }
}

/// Why a source does not take the reply to its CONNECT.
pub open spec fn connack_fault(p: Packet, shown: Seq<char>) -> Option<Fault> {
    match p {
        Packet::ConnAck { return_code, .. } => if return_code == 0 {
            None
        } else {
            Some(fault(ErrorCode::Internal, "MQTT CONNACK "@ + decimal(return_code as nat)))
        },
        _ => Some(fault(ErrorCode::CodecViolation, "expected CONNACK, got "@ + shown)),
    }
}

/// Checks the reply to a source's CONNECT; `shown` is the packet's text.
pub fn expect_connack(packet: &Packet, shown: &str) -> (r: Result<(), ConnectorError>)
    ensures
        match r {
            Ok(()) => connack_fault(*packet, shown@) is None,
            Err(e) => connack_fault(*packet, shown@) == Some(e@),
        },
{
    match packet {
        Packet::ConnAck { return_code, .. } => {
            let code: u8 = *return_code;
            if code == 0 {
                Ok(())
            } else {
                Err(
                    ConnectorError::new(
                        ErrorCode::Internal,
                        cat2("MQTT CONNACK ", dec(code as u64).as_str()),
                    ),
                )
            }
        },
        _ => Err(
            ConnectorError::new(ErrorCode::CodecViolation, cat2("expected CONNACK, got ", shown)),
        ),
    }
}

/// Checks the reply to a source's SUBSCRIBE; `shown` is the packet's text.
pub fn expect_suback(packet: &Packet, shown: &str) -> (r: Result<(), ConnectorError>)
    ensures
        match r {
            Ok(()) => packet is SubAck,
            Err(e) => !(packet is SubAck) && e@ == fault(
                ErrorCode::CodecViolation,
                "expected SUBACK, got "@ + shown@,
            ),
        },
{
    match packet {
        Packet::SubAck { .. } => Ok(()),
        _ => Err(
            ConnectorError::new(ErrorCode::CodecViolation, cat2("expected SUBACK, got ", shown)),
        ),
    }
}

/// The fault of a handshake that took too long.
pub fn handshake_timeout() -> (r: ConnectorError)
    ensures
        r@ == fault(ErrorCode::Internal, "MQTT handshake timeout"@),
{
    refuse(ErrorCode::Internal, "MQTT handshake timeout")
}

} // verus!
