//! MQTT: packets, framing, the handshake, the source, the sink and the broker.

use sparrow::capabilities::RestoreClaim;
use sparrow::model::{DataType, ErrorCode, Field, Schema, COMPACT_QUEUE_BYTES};
use sparrow::mqtt::broker::{broker_greet, broker_step, BrokerAction, Hub};
use sparrow::mqtt::client::{
    connect_packet, expect_connack, expect_session, expect_suback, handshake_timeout,
    publish_packet, subscribe_packet,
};
use sparrow::mqtt::codec::{decode, decode_remaining_length, encode, Connect, Packet, Publish};
use sparrow::mqtt::io::{try_decode_frame, MqttFramedReader};
use sparrow::mqtt::session::{
    ping_every, Attempt, DecodeStep, Decoded, Held, Offer, PacketStep, RowStep, SourceSession,
    WaitEvent,
};
use sparrow::mqtt::sink::{MqttSink, MqttSinkConfig};
use sparrow::mqtt::source::{after_session, decode_failure, MqttSource, MqttSourceConfig, PumpStep};
use sparrow::policy::TargetPolicy;
use sparrow::secret::MapSecretResolver;
use sparrow::tls::TlsConfig;

fn schema() -> Schema {
    Schema {
        id: 1,
        fields: vec![Field {
            id: 1,
            name: "device_id".to_string(),
            data_type: DataType::Utf8,
            nullable: false,
        }],
    }
}

fn publish(payload: &str) -> Packet {
    Packet::Publish(Publish {
        dup: false,
        qos: 0,
        retain: false,
        topic: "sensors/json".to_string(),
        packet_id: None,
        payload: payload.as_bytes().to_vec(),
    })
}

fn round_trip(p: &Packet) -> Packet {
    let bytes = encode(p).unwrap();
    let (len, hdr) = decode_remaining_length(&bytes[1..]).unwrap();
    decode(bytes[0], &bytes[1 + hdr..1 + hdr + len]).unwrap()
}

#[test]
fn connect_round_trip() {
    let p = Packet::Connect(Connect {
        client_id: "edge-1".to_string(),
        clean_session: true,
        keepalive: 30,
        username: Some("u".to_string()),
        password: Some(b"p".to_vec()),
    });
    assert_eq!(p, round_trip(&p));
}

#[test]
fn publish_qos0_round_trip() {
    let p = publish(r#"{"ok":true}"#);
    assert_eq!(p, round_trip(&p));
}

#[test]
fn every_packet_is_read_back() {
    let packets = [
        Packet::ConnAck { session_present: true, return_code: 5 },
        Packet::Publish(Publish {
            dup: true,
            qos: 1,
            retain: true,
            topic: "é/1".to_string(),
            packet_id: Some(77),
            payload: vec![0; 300],
        }),
        Packet::Subscribe { packet_id: 9, topics: vec![("a/#".to_string(), 0), ("b".to_string(), 1)] },
        Packet::SubAck { packet_id: 9, codes: vec![0, 128] },
        Packet::PingReq,
        Packet::PingResp,
        Packet::Disconnect,
    ];
    for p in &packets {
        assert_eq!(p, &round_trip(p));
    }
    assert_eq!(encode(&Packet::PingReq).unwrap(), vec![0xc0, 0]);
    assert_eq!(
        encode(&publish_packet("t", b"x".to_vec())).unwrap(),
        vec![0x30, 4, 0, 1, b't', b'x']
    );
}

#[test]
fn broken_packets_are_refused() {
    assert_eq!(decode(0xf0, &[]).unwrap_err().code(), ErrorCode::CodecViolation);
    assert_eq!(decode(0x20, &[0]).unwrap_err().code(), ErrorCode::CodecViolation);
    assert_eq!(decode(0x30, &[0, 9, b'x']).unwrap_err().code(), ErrorCode::CodecViolation);
    assert_eq!(
        decode(0x30, &[0, 1, 0xff]).unwrap_err().code(),
        ErrorCode::CodecViolation
    );
    assert!(decode_remaining_length(&[0x80, 0x80, 0x80, 0x80, 1]).is_err());
    let mut bad = publish("x");
    if let Packet::Publish(p) = &mut bad {
        p.qos = 3;
    }
    assert_eq!(encode(&bad).unwrap_err().message, "invalid publish qos");
}

#[test]
fn r19_partial_frame_is_retained() {
    let pkt = Packet::PingResp;
    let bytes = encode(&pkt).unwrap();
    let mut buf = bytes[..1].to_vec();
    assert!(try_decode_frame(&mut buf).unwrap().is_none());
    assert_eq!(buf.len(), 1, "half-frame must stay in the reader buffer");
    buf.extend_from_slice(&bytes[1..]);
    let got = try_decode_frame(&mut buf).unwrap().unwrap();
    assert!(matches!(got, Packet::PingResp));
    assert!(buf.is_empty());
}

#[test]
fn r19_coalesced_publishes_are_not_dropped() {
    let mut reader = MqttFramedReader::new();
    let mut bytes = Vec::new();
    for i in 0..48 {
        bytes.extend(encode(&publish(&format!("{i}"))).unwrap());
    }
    reader.feed(&bytes).unwrap();
    for i in 0..48 {
        let Some(Packet::Publish(p)) = reader.try_next().unwrap() else { panic!("publish {i}") };
        assert_eq!(p.payload, format!("{i}").into_bytes());
        let BrokerAction::Forward(sent) = broker_step(Some(Packet::Publish(p))) else {
            panic!("the broker must take publish {i}")
        };
        assert_eq!(sent.payload, format!("{i}").into_bytes());
    }
    assert!(reader.try_next().unwrap().is_none());
}

#[test]
fn r19_half_frame_survives_ping_select() {
    let bytes = encode(&publish(r#"{"device_id":"d1"}"#)).unwrap();
    let mut reader = MqttFramedReader::new();
    let mut session = SourceSession::new(80, 0);
    reader.feed(&bytes[..1]).unwrap();
    assert!(reader.try_next().unwrap().is_none());
    let mut pings = 0;
    while session.next_ping <= 180_000 {
        session.on_ping(session.next_ping);
        assert!(reader.try_next().unwrap().is_none());
        pings += 1;
    }
    assert!(pings > 0);
    reader.feed(&bytes[1..]).unwrap();
    let packet = reader.try_next().unwrap().unwrap();
    let PacketStep::Decode(payload) = session.on_packet(packet) else { panic!("decode") };
    assert_eq!(payload, br#"{"device_id":"d1"}"#.to_vec());
}

/// What a reader gives of pieces of a stream, and why it ends.
fn hear(pieces: &[&[u8]]) -> (Vec<String>, ErrorCode) {
    let mut reader = MqttFramedReader::new();
    let mut out = Vec::new();
    let mut pieces = pieces.iter();
    loop {
        match reader.try_next() {
            Ok(Some(packet)) => {
                out.push(format!("{packet:?}"));
                continue;
            }
            Ok(None) => {}
            Err(e) => return (out, e.code()),
        }
        let none: &[u8] = &[];
        if let Err(e) = reader.feed(pieces.next().copied().unwrap_or(none)) {
            return (out, e.code());
        }
    }
}

#[test]
fn a_stream_of_packets_may_be_cut_anywhere() {
    let packets = [
        Packet::ConnAck { session_present: false, return_code: 0 },
        publish("{}"),
        Packet::PingResp,
        publish(&"x".repeat(200)),
        Packet::SubAck { packet_id: 7, codes: vec![0] },
        Packet::Disconnect,
    ];
    let shown: Vec<String> = packets.iter().map(|p| format!("{p:?}")).collect();
    let bytes: Vec<u8> = packets.iter().flat_map(|p| encode(p).unwrap()).collect();
    for size in 1..bytes.len() + 1 {
        let pieces: Vec<&[u8]> = bytes.chunks(size).collect();
        assert_eq!(hear(&pieces), (shown.clone(), ErrorCode::Internal), "{size}");
    }
    let large = encode(&publish(&"x".repeat(131_000))).unwrap();
    let two: Vec<u8> = large.iter().chain(large.iter()).copied().collect();
    let pieces: Vec<&[u8]> = two.chunks(65_000).collect();
    let (out, end) = hear(&pieces);
    assert_eq!((out.len(), end), (0, ErrorCode::MaxRecordSize), "the buffer is bounded");
    let pieces: Vec<&[u8]> = two.chunks(64).collect();
    assert_eq!(hear(&pieces).0.len(), 2);
}

#[test]
fn a_reader_reports_the_end_and_what_is_too_long() {
    let mut reader = MqttFramedReader::new();
    assert_eq!(reader.feed(&[]).unwrap_err().message, "MQTT connection closed");
    let e = reader.feed(&vec![0u8; 300_000]).unwrap_err();
    assert_eq!(e.code(), ErrorCode::MaxRecordSize);
}

#[test]
fn inbox_wait_defaults_and_bounds() {
    let mut cfg = MqttSourceConfig::demo("127.0.0.1", 1883, schema());
    assert_eq!(cfg.inbox_wait_ms, 5);
    for ms in [0, 5, 1000, 1001] {
        cfg.inbox_wait_ms = ms;
        let result =
            cfg.validate(&MapSecretResolver::empty(), &TargetPolicy::allow("127.0.0.1", 1883));
        if ms <= 1000 {
            result.unwrap();
        } else {
            assert_eq!(result.unwrap_err().code, ErrorCode::BoundExceeded);
        }
    }
}

#[test]
fn p1_27_inbox_times_max_record_rejects_over_queue_budget() {
    let mut cfg = MqttSourceConfig::demo("127.0.0.1", 1883, schema());
    cfg.inbox_capacity = 40;
    cfg.json_limits.max_bytes = 64 * 1024;
    let worst = cfg.inbox_worst_case_bytes();
    assert!(worst > COMPACT_QUEUE_BYTES);
    assert!(worst <= 4 * 1024 * 1024);
    let err = cfg.check_inbox_budget(COMPACT_QUEUE_BYTES).unwrap_err();
    assert_eq!(err.code, ErrorCode::BoundExceeded);
    assert!(
        err.message.contains("queue budget"),
        "must name the queue budget, not only 4MiB: {}",
        err.message
    );
    cfg.validate(&MapSecretResolver::empty(), &TargetPolicy::allow("127.0.0.1", 1883))
        .unwrap_err();
}

#[test]
fn p1_27_inbox_within_compact_queue_is_ok() {
    let mut cfg = MqttSourceConfig::demo("127.0.0.1", 1883, schema());
    cfg.inbox_capacity = 16;
    cfg.json_limits.max_bytes = 64 * 1024;
    assert!(cfg.inbox_worst_case_bytes() <= COMPACT_QUEUE_BYTES);
    cfg.check_inbox_budget(COMPACT_QUEUE_BYTES).unwrap();
}

#[test]
fn rejects_are_explicit() {
    let secrets = MapSecretResolver::empty();
    let deny = TargetPolicy::deny_all();
    assert_eq!(
        MqttSourceConfig::demo("8.8.8.8", 1883, schema())
            .validate(&secrets, &deny)
            .unwrap_err()
            .code(),
        ErrorCode::PolicyDenied
    );

    let allow = TargetPolicy::allow("127.0.0.1", 1883);
    let mut missing = MqttSourceConfig::demo("127.0.0.1", 1883, schema());
    missing.tls.enabled = true;
    missing.password_secret = Some("does.not.exist".to_string());
    assert_eq!(
        missing.validate(&secrets, &allow).unwrap_err().code(),
        ErrorCode::SecretMissing
    );

    let mut restore = MqttSourceConfig::demo("127.0.0.1", 1883, schema());
    restore.restore = RestoreClaim::Checkpoint { snapshot_id: "snap-1".to_string() };
    assert_eq!(
        restore.validate(&secrets, &allow).unwrap_err().code(),
        ErrorCode::UnsupportedRestore
    );

    assert_eq!(
        TlsConfig { enabled: true, skip_verify: true }.validate().unwrap_err().code(),
        ErrorCode::PolicyDenied
    );
}

#[test]
fn mqtt_declares_unsupported_and_rejects_restore() {
    let cap = MqttSourceConfig::capabilities();
    assert_eq!(cap.replay, sparrow::capabilities::ReplaySupport::Unsupported);
    let claim = RestoreClaim::MqttSession { client_id: "x".to_string() };
    assert!(sparrow::capabilities::refuse_durable_recovery(&claim).is_err());
    assert!(sparrow::capabilities::refuse_unsupported_recovery(
        "mqtt",
        false,
        sparrow::capabilities::RecoveryPolicy::Aligned,
        &RestoreClaim::Checkpoint { snapshot_id: "1".to_string() },
    )
    .is_err());
    let mut cfg = MqttSourceConfig::demo("127.0.0.1", 1883, schema());
    cfg.restore = RestoreClaim::Checkpoint { snapshot_id: "nope".to_string() };
    let secrets = MapSecretResolver::empty();
    let policy = TargetPolicy::deny_all().with_allow("127.0.0.1", 1883);
    assert_eq!(
        cfg.validate(&secrets, &policy).unwrap_err().code(),
        ErrorCode::UnsupportedRestore
    );
}

#[test]
fn source_settings_are_bounded() {
    let secrets = MapSecretResolver::empty();
    let allow = TargetPolicy::allow("h", 1883);
    let base = || MqttSourceConfig::demo("h", 1883, schema());
    let refused = |c: MqttSourceConfig| c.validate(&secrets, &allow).unwrap_err().code();
    base().validate(&secrets, &allow).unwrap();
    let mut c = base();
    c.qos = 1;
    assert_eq!(refused(c), ErrorCode::UnsupportedDelivery);
    let mut c = base();
    c.clean_session = false;
    assert_eq!(refused(c), ErrorCode::UnsupportedRestore);
    let mut c = base();
    c.inbox_capacity = 0;
    assert_eq!(refused(c), ErrorCode::BoundExceeded);
    let mut c = base();
    c.inbox_capacity = 1025;
    assert_eq!(refused(c), ErrorCode::BoundExceeded);
    let mut c = base();
    c.tls.skip_verify = true;
    assert_eq!(refused(c), ErrorCode::PolicyDenied);
    let mut c = base();
    c.tcp_quickack = true;
    c.quickack_available = false;
    assert_eq!(refused(c), ErrorCode::FeatureUnavailable);
}

#[test]
fn a_source_carries_its_secrets_into_the_handshake() {
    let secrets = MapSecretResolver::new(vec![
        ("u".to_string(), "user".to_string()),
        ("p".to_string(), "pass".to_string()),
    ]);
    let mut cfg = MqttSourceConfig::demo("h", 1883, schema());
    cfg.tls.enabled = true;
    cfg.username_secret = Some("u".to_string());
    cfg.password_secret = Some("p".to_string());
    let source = MqttSource::bind(cfg, &secrets, &TargetPolicy::allow("h", 1883)).unwrap();
    let Packet::Connect(c) = source.hello() else { panic!("connect") };
    assert_eq!(c.client_id, "sparrow-mqtt-source");
    assert_eq!(c.username.as_deref(), Some("user"));
    assert_eq!(c.password.as_deref(), Some(&b"pass"[..]));
    assert_eq!(c.keepalive, 30);
    source.check_run().unwrap();
    assert!(source.check_run_budgeted(32, COMPACT_QUEUE_BYTES).is_err());
}

#[test]
fn a_charged_inbox_is_run_with_its_budget() {
    let mut cfg = MqttSourceConfig::demo("h", 1883, schema());
    cfg.inbox_bytes = Some(65536);
    cfg.inbox_capacity = 64;
    let source = MqttSource::bind(cfg, &MapSecretResolver::empty(), &TargetPolicy::allow("h", 1883))
        .unwrap();
    assert_eq!(
        source.check_run().unwrap_err().message,
        "inbox_bytes requires run_budgeted"
    );
    assert_eq!(source.check_run_budgeted(64, COMPACT_QUEUE_BYTES).unwrap(), 65536);
    assert!(source.check_run_budgeted(63, COMPACT_QUEUE_BYTES).is_err());
    assert!(source.check_run_budgeted(64, 1024).is_err());
}

#[test]
fn pauses_grow_to_the_longest() {
    let mut pause = 50;
    let mut seen = Vec::new();
    for _ in 0..8 {
        match after_session(Err(ErrorCode::Internal), false, pause, 2000) {
            PumpStep::Reconnect { sleep_ms, next_ms } => {
                seen.push(sleep_ms);
                pause = next_ms;
            }
            other => panic!("{other:?}"),
        }
    }
    assert_eq!(seen, vec![50, 100, 200, 400, 800, 1600, 2000, 2000]);
    assert!(matches!(after_session(Ok(()), false, 50, 2000), PumpStep::Done));
    assert!(matches!(
        after_session(Err(ErrorCode::CodecViolation), true, 50, 2000),
        PumpStep::Fail
    ));
    assert_eq!(
        decode_failure(ErrorCode::CodecViolation, "bad json").message,
        "MQTT decode failed (fail_on_decode): bad json"
    );
}

/// A session that holds a decoded row.
fn with_row(keepalive_ms: u64) -> SourceSession {
    let mut s = SourceSession::new(keepalive_ms, 0);
    assert!(matches!(s.on_packet(publish("{}")), PacketStep::Decode(_)));
    assert_eq!(s.on_decoded(Decoded::Row, false), DecodeStep::Offer);
    s
}

#[test]
fn byte_budget_wait_times_out_or_recovers_and_releases_working_credit() {
    for recover in [false, true] {
        let mut s = with_row(2000);
        assert!(s.on_size(100, 200, 4096));
        assert!(s.on_reservation(true, 100, 5000, 0));
        assert_eq!(s.on_attempt(Attempt::NoCredit, 0), RowStep::WaitForCredit);
        if recover {
            assert_eq!(s.on_charged_wait(WaitEvent::Room), RowStep::Retry);
            assert_eq!(s.on_attempt(Attempt::Taken, 2000), RowStep::Read);
        } else {
            assert_eq!(s.on_charged_wait(WaitEvent::Deadline), RowStep::Read);
        }
        assert_eq!(s.counts.waits, 1);
        assert_eq!(s.counts.recovered, u64::from(recover));
        assert_eq!(s.counts.dropped_budget, u64::from(!recover));
        assert_eq!(s.held, Held::Nothing);
    }
}

#[test]
fn byte_budget_rejects_oversized_row_without_poisoning_next_row() {
    let mut s = with_row(2000);
    assert!(!s.on_size(8192, 2097152, 4096));
    assert_eq!(s.counts.dropped_oversize, 1);
    s.on_packet(publish("ok"));
    s.on_decoded(Decoded::Row, false);
    assert!(s.on_size(64, 2097152, 4096));
    assert!(s.on_reservation(true, 64, 5000, 0));
    assert_eq!(s.on_attempt(Attempt::Taken, 0), RowStep::Read);
    assert_eq!(s.counts.delivered, 1);
    assert_eq!(s.counts.recovered, 0);
}

#[test]
fn backpressure_recovers_without_reordering_or_duplicating() {
    let mut s = with_row(2000);
    assert_eq!(s.on_offer(Offer::Full, 5000, 0), RowStep::Wait);
    assert_eq!(s.counts.waits, 1);
    assert_eq!(s.on_wait(WaitEvent::Room), RowStep::Send);
    assert_eq!(s.counts.recovered, 1);
    assert_eq!(s.counts.delivered, 1);
    assert_eq!(s.counts.dropped_full, 0);
    assert_eq!(s.held, Held::Nothing);
}

#[test]
fn backpressure_timeout_is_not_reset_by_heartbeats() {
    let mut s = with_row(20);
    assert_eq!(s.ping_every, 10_000);
    assert_eq!(s.on_offer(Offer::Full, 50_000, 0), RowStep::Wait);
    let mut pings = Vec::new();
    for now in [10_000, 20_000, 30_000, 40_000] {
        assert_eq!(s.next_ping, now);
        assert_eq!(s.on_wait(WaitEvent::PingDue(now)), RowStep::PingThenWait);
        pings.extend(encode(&Packet::PingReq).unwrap());
        assert_eq!(s.held, Held::Waiting { deadline: 50_000 });
    }
    assert_eq!(s.on_wait(WaitEvent::Deadline), RowStep::Read);
    assert_eq!(pings, [0xc0, 0, 0xc0, 0, 0xc0, 0, 0xc0, 0]);
    assert_eq!(s.counts.waits, 1);
    assert_eq!(s.counts.recovered, 0);
    assert_eq!(s.counts.dropped_full, 1);
}

#[test]
fn backpressure_stop_and_closed_receiver_interrupt_wait() {
    for close_receiver in [false, true] {
        let mut s = with_row(2000);
        assert_eq!(s.on_offer(Offer::Full, 1_000_000, 0), RowStep::Wait);
        let event = if close_receiver { WaitEvent::Closed } else { WaitEvent::Cancelled };
        assert_eq!(s.on_wait(event), RowStep::Close);
        assert_eq!(s.counts.dropped_full, 0);
        assert_eq!(s.counts.recovered, 0);
        assert_eq!(s.counts.abandoned, 1);
    }
}

#[test]
fn backpressure_burst_pump_preserves_all_rows() {
    let mut s = SourceSession::new(30_000, 0);
    for n in 0..512 {
        s.on_packet(publish(&format!(r#"{{"device_id":"{n}"}}"#)));
        s.on_decoded(Decoded::Row, false);
        if n % 2 == 0 {
            assert_eq!(s.on_offer(Offer::Taken, 1_000_000, n), RowStep::Read);
        } else {
            assert_eq!(s.on_offer(Offer::Full, 1_000_000, n), RowStep::Wait);
            assert_eq!(s.on_wait(WaitEvent::Room), RowStep::Send);
        }
    }
    assert_eq!(s.counts.received, 512);
    assert_eq!(s.counts.decoded, 512);
    assert_eq!(s.counts.dropped_full, 0);
    assert_eq!(s.counts.waits, s.counts.recovered);
    assert_eq!(s.counts.delivered, 512);
}

#[test]
fn backpressure_zero_wait_preserves_immediate_drop() {
    let mut s = with_row(2000);
    assert_eq!(s.on_offer(Offer::Taken, 0, 0), RowStep::Read);
    assert_eq!(s.counts.dropped_full, 0);
    assert!(matches!(s.on_packet(publish("{}")), PacketStep::Decode(_)));
    assert_eq!(s.on_decoded(Decoded::Row, false), DecodeStep::Offer);
    assert_eq!(s.on_offer(Offer::Full, 0, 0), RowStep::Read);
    assert_eq!(s.counts.dropped_full, 1);
    assert_eq!(s.counts.waits, 0);
    assert_eq!(s.counts.recovered, 0);
}

#[test]
fn keepalive_pings_during_continuous_inbound_traffic() {
    let mut s = SourceSession::new(1000, 0);
    let due = s.next_ping;
    assert_eq!(due, 500_000);
    for now in 0..100 {
        s.on_packet(publish("{}"));
        s.on_decoded(Decoded::Row, false);
        s.on_offer(Offer::Taken, 5000, now);
        assert_eq!(s.next_ping, due, "what arrives does not move the next ping");
    }
    s.on_ping(due);
    assert_eq!(s.next_ping, 2 * due);
}

#[test]
fn keepalive_pings_while_idle() {
    let mut s = SourceSession::new(1000, 0);
    for n in 1..4 {
        assert_eq!(s.next_ping, n * 500_000);
        s.on_ping(s.next_ping);
    }
    assert_eq!(ping_every(0), 15_000_000);
    assert_eq!(ping_every(u64::MAX), u64::MAX);
}

#[test]
fn every_message_is_accounted_for() {
    let mut s = SourceSession::new(1000, 0);
    assert!(matches!(s.on_packet(Packet::PingResp), PacketStep::Ignore));
    let decoded = [Decoded::Row, Decoded::Dropped, Decoded::Failed, Decoded::Row, Decoded::Row];
    for (i, d) in decoded.into_iter().enumerate() {
        s.on_packet(publish("{}"));
        let step = s.on_decoded(d, false);
        if d == Decoded::Row {
            assert_eq!(step, DecodeStep::Offer);
            let offer = if i == 0 { Offer::Taken } else { Offer::Full };
            s.on_offer(offer, 0, 0);
        } else {
            assert_eq!(step, DecodeStep::Read);
        }
    }
    let c = s.counts;
    assert_eq!((c.received, c.decoded, c.dropped_bad), (5, 3, 2));
    assert_eq!(c.decoded, c.delivered + c.dropped_full);
    s.on_packet(publish("{}"));
    assert_eq!(s.on_decoded(Decoded::Failed, true), DecodeStep::Fail);
    assert!(matches!(s.on_packet(Packet::Disconnect), PacketStep::Close));
}

#[test]
fn a_charged_row_without_memory_is_dropped() {
    let mut s = with_row(2000);
    assert!(!s.on_reservation(false, 10, 5, 0));
    assert_eq!(s.counts.unreserved, 1);
    assert_eq!(s.counts.dropped_budget, 1);
    let mut s = with_row(2000);
    s.on_reservation(true, 10, 5, 0);
    assert_eq!(s.on_attempt(Attempt::Full, 9), RowStep::Read);
    assert_eq!(s.counts.dropped_full, 1);
    let mut s = with_row(2000);
    s.on_reservation(true, 10, 5, 0);
    assert_eq!(s.on_attempt(Attempt::Full, 0), RowStep::Wait);
    assert_eq!(s.on_charged_wait(WaitEvent::PingDue(3)), RowStep::PingThenRetry);
    assert_eq!(s.on_charged_wait(WaitEvent::Cancelled), RowStep::Close);
    assert_eq!(s.counts.abandoned, 1);
}

#[test]
fn the_handshake_is_checked() {
    assert!(expect_connack(&Packet::ConnAck { session_present: false, return_code: 0 }, "").is_ok());
    assert!(expect_connack(&Packet::ConnAck { session_present: false, return_code: 5 }, "").is_err());
    assert!(expect_connack(&Packet::PingResp, "PingResp").is_err());
    assert!(expect_suback(&Packet::SubAck { packet_id: 1, codes: vec![0] }, "").is_ok());
    assert_eq!(
        expect_suback(&Packet::PingResp, "PingResp").unwrap_err().message,
        "expected SUBACK, got PingResp"
    );
    assert_eq!(
        expect_session(&Packet::PingResp, "pub: ", "PingResp").unwrap_err().message,
        "pub: PingResp"
    );
    assert_eq!(handshake_timeout().message, "MQTT handshake timeout");
    let Packet::Connect(c) = connect_packet("c", true, 65_536_000, None, None) else { panic!() };
    assert_eq!(c.keepalive, 0);
    assert_eq!(
        subscribe_packet("a"),
        Packet::Subscribe { packet_id: 1, topics: vec![("a".to_string(), 0)] }
    );
}

#[test]
fn a_sink_publishes_rows_that_fit() {
    let allow = TargetPolicy::allow("h", 1883);
    let sink = MqttSink::bind(MqttSinkConfig::demo("h", 1883), &allow).unwrap();
    let Packet::Connect(c) = sink.hello() else { panic!("connect") };
    assert_eq!(c.client_id, "sparrow-mqtt-sink");
    let Some(Packet::Publish(p)) = sink.row_packet(Some(b"{}".to_vec()), 2) else { panic!("row") };
    assert_eq!(p.topic, "sparrow/out");
    assert!(sink.row_packet(Some(b"{} ".to_vec()), 2).is_none());
    assert!(sink.row_packet(None, 2).is_none());
    let mut bad = MqttSinkConfig::demo("h", 1883);
    bad.qos = 1;
    assert_eq!(bad.validate(&allow).unwrap_err().code(), ErrorCode::UnsupportedDelivery);
    assert!(MqttSinkConfig::demo("x", 1883).validate(&allow).is_err());
}

#[test]
fn a_subscription_adds_one_copy() {
    let mut hub = Hub::new();
    hub.subscribe("sensors/#".to_string(), 1);
    hub.subscribe("sensors/json".to_string(), 2);
    hub.subscribe("other".to_string(), 3);
    let mut got = hub.publish("sensors/json");
    got.sort();
    assert_eq!(got, vec![1, 2]);
    hub.subscribe("#".to_string(), 1);
    let got = hub.publish("sensors/json");
    assert_eq!(got.iter().filter(|id| **id == 1).count(), 2);
    assert_eq!(hub.publish("nothing"), vec![1]);
}

#[test]
fn the_broker_answers_packets() {
    let hello = connect_packet("c", true, 1000, None, None);
    assert_eq!(
        broker_greet(&hello).unwrap(),
        Packet::ConnAck { session_present: false, return_code: 0 }
    );
    assert_eq!(broker_greet(&Packet::PingReq).unwrap_err().code(), ErrorCode::CodecViolation);
    let BrokerAction::Subscribe { filters, reply } = broker_step(Some(subscribe_packet("a/#")))
    else {
        panic!("subscribe")
    };
    assert_eq!(filters, vec!["a/#"]);
    assert_eq!(reply, Packet::SubAck { packet_id: 1, codes: vec![0] });
    assert!(matches!(broker_step(Some(Packet::PingReq)), BrokerAction::Reply(Packet::PingResp)));
    assert!(matches!(broker_step(Some(publish("x"))), BrokerAction::Forward(_)));
    assert!(matches!(broker_step(Some(Packet::Disconnect)), BrokerAction::Close));
    assert!(matches!(broker_step(None), BrokerAction::Close));
}
