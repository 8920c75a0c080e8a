//! HTTP: the sink, the push source, the capture server, the log and the counters.

use sparrow::capabilities::{ReplaySupport, RestoreClaim};
use sparrow::diag::IoSnapshot;
use sparrow::http::push::{
    push_dropped, push_reply, push_url, Handoff, HttpPushSourceConfig, PushAction, PushConn,
};
use sparrow::http::sink::{
    after_post, drain_reply, encode_drop, encoded_delivery, Delivery, EncodeDrop, Growth, HttpSinkConfig, MergePlan,
    PostResult, PostStep, SinkAction, SinkLoop,
};
use sparrow::http::wire::{
    capture_reply, capture_status, find_header_end, read_lines, wants_close, CaptureBuffer,
    CaptureConn, CapturedRequest, RequestStep,
};
use sparrow::log::{LogSink, LogSinkConfig};
use sparrow::model::{DataType, ErrorCode, Field, Schema};
use sparrow::policy::TargetPolicy;
use sparrow::secret::MapSecretResolver;

fn schema() -> Schema {
    Schema {
        id: 1,
        fields: vec![Field {
            id: 1,
            name: "device_id".to_string(),
            data_type: DataType::Utf8,
            nullable: false,
        }],
    }
}

fn batch(n: u64, at: u64) -> Delivery {
    Delivery {
        bytes: format!("[{{\"n\":{n}}}]").into_bytes(),
        schema: 1,
        owner: 1,
        rows: 1,
        batches: 1,
        first_ms: at,
    }
}

/// Feeds batches one after another and replies at once; gives back the bodies
/// that were sent and how many batches were acknowledged and failed.
fn run(cfg: &HttpSinkConfig, mut queue: Vec<Delivery>, status: u16) -> (Vec<Vec<u8>>, usize, usize) {
    let mut sink = SinkLoop::new();
    let mut bodies = Vec::new();
    let (mut acked, mut failed) = (0, 0);
    queue.reverse();
    loop {
        match sink.next_action(cfg, false, false, 0) {
            SinkAction::Stop => return (bodies, acked, failed),
            SinkAction::Post(d) => {
                if after_post(PostResult::Status(status), 0, cfg.max_retries) == PostStep::Accepted {
                    acked += d.batches;
                } else {
                    failed += d.batches;
                }
                bodies.push(d.bytes);
                sink.on_joined();
            }
            SinkAction::Wait { receive, linger_until, .. } => {
                if receive {
                    match queue.pop() {
                        Some(d) => {
                            let made =
                                encoded_delivery(Ok(d.bytes), d.schema, d.owner, d.rows, 0, cfg);
                            let Ok(next) = made else {
                                failed += d.batches;
                                continue;
                            };
                            let plan = match &sink.group {
                                Some(g) => g.plan_merge(
                                    &next,
                                    g.bytes.capacity(),
                                    cfg.batch_bytes,
                                    cfg.batch_rows,
                                ),
                                None => MergePlan::Separate,
                            };
                            assert!(sink.on_batch(next, plan, Growth::Granted, cfg).is_none());
                        }
                        None => sink.on_closed(),
                    }
                } else {
                    assert!(linger_until.is_some() || sink.flush);
                    sink.on_linger();
                }
            }
        }
    }
}

#[test]
fn coalescing_preserves_rows_and_settles_every_input_receipt() {
    for status in [204, 400] {
        let mut cfg = HttpSinkConfig::demo("http://127.0.0.1:1/ingest");
        cfg.batch_rows = 4;
        cfg.batch_bytes = 1024;
        cfg.linger_ms = 1000;
        let (bodies, acked, failed) = run(&cfg, (0..4).map(|n| batch(n, 0)).collect(), status);
        assert_eq!(bodies.len(), 1);
        assert_eq!(bodies[0], br#"[{"n":0},{"n":1},{"n":2},{"n":3}]"#.to_vec());
        assert_eq!(acked, if status == 204 { 4 } else { 0 });
        assert_eq!(failed, if status == 400 { 4 } else { 0 });
    }
}

#[test]
fn byte_cap_splits_groups_and_rejects_oversized_single_batch() {
    for cap in [2, 16] {
        let mut cfg = HttpSinkConfig::demo("http://127.0.0.1:1/ingest");
        cfg.batch_rows = 10;
        cfg.batch_bytes = cap;
        cfg.linger_ms = 50;
        let (bodies, _, failed) = run(&cfg, (0..3).map(|n| batch(n, 0)).collect(), 200);
        assert_eq!(bodies.len(), if cap == 2 { 0 } else { 3 });
        assert!(bodies.iter().all(|b| b.len() <= cap));
        assert_eq!(failed, if cap == 2 { 3 } else { 0 });
    }
}

#[test]
fn only_a_body_within_the_bound_is_taken() {
    let mut cfg = HttpSinkConfig::demo("http://127.0.0.1:1/ingest");
    cfg.batch_bytes = 4;
    let made = |body| encoded_delivery(body, 3, 5, 7, 11, &cfg);
    let d = made(Ok(b"[12]".to_vec())).unwrap();
    assert_eq!(d.bytes, b"[12]".to_vec());
    assert_eq!((d.schema, d.owner, d.rows, d.batches, d.first_ms), (3, 5, 7, 1, 11));
    assert_eq!(made(Ok(b"[]".to_vec())).unwrap().bytes.len(), 2);
    for body in [&b""[..], b"[", b"[123]"] {
        assert_eq!(made(Ok(body.to_vec())).unwrap_err(), EncodeDrop::Encoding);
    }
    assert_eq!(made(Err(ErrorCode::ResourceExhausted)).unwrap_err(), EncodeDrop::Budget);
    assert_eq!(made(Err(ErrorCode::CodecViolation)).unwrap_err(), EncodeDrop::Encoding);
}

#[test]
fn checkpoint_flush_interrupts_linger_without_waiting_for_eof() {
    let mut cfg = HttpSinkConfig::demo("http://127.0.0.1:1/ingest");
    cfg.batch_rows = 256;
    cfg.batch_bytes = 1024;
    cfg.linger_ms = 1000;
    let mut sink = SinkLoop::new();
    assert!(sink.on_batch(batch(7, 0), MergePlan::Separate, Growth::Granted, &cfg).is_none());
    assert!(matches!(
        sink.next_action(&cfg, false, false, 1),
        SinkAction::Wait { linger_until: Some(1000), receive: true, join: false }
    ));
    sink.on_flush_request();
    let SinkAction::Post(d) = sink.next_action(&cfg, false, false, 1) else { panic!("post") };
    assert_eq!(d.batches, 1);
    sink.on_joined();
    assert!(matches!(sink.next_action(&cfg, false, true, 2), SinkAction::Wait { .. }));
    assert!(!sink.force_flush);

    let mut early = SinkLoop::new();
    early.on_flush_request();
    assert!(matches!(
        early.next_action(&cfg, false, false, 0),
        SinkAction::Wait { receive: true, .. }
    ));
    assert!(early.on_batch(batch(7, 0), MergePlan::Separate, Growth::Granted, &cfg).is_none());
    let SinkAction::Post(d) = early.next_action(&cfg, false, false, 1) else { panic!("kept") };
    assert_eq!(d.batches, 1);
}

#[test]
fn concurrent_requests_are_bounded_and_stop_fails_unresolved_receipts() {
    let mut cfg = HttpSinkConfig::demo("http://127.0.0.1:1/ingest");
    cfg.max_inflight = 3;
    cfg.batch_bytes = 1024;
    for stop in [false, true] {
        let mut sink = SinkLoop::new();
        let mut queue: Vec<Delivery> = (0..6).rev().map(|n| batch(n, 0)).collect();
        let (mut acked, mut most, mut inflight) = (0, 0, Vec::new());
        loop {
            match sink.next_action(&cfg, stop && most == 3, false, 0) {
                SinkAction::Post(d) => inflight.push(d.batches),
                SinkAction::Wait { receive: true, .. } => match queue.pop() {
                    Some(d) => {
                        let taken = sink.on_batch(d, MergePlan::Separate, Growth::Granted, &cfg);
                        assert!(taken.is_none());
                    }
                    None => sink.on_closed(),
                },
                SinkAction::Wait { join, .. } => {
                    assert!(join && (inflight.len() == 3 || sink.closed));
                    acked += inflight.remove(0);
                    sink.on_joined();
                }
                SinkAction::Stop => break,
            }
            most = most.max(inflight.len());
        }
        assert_eq!(most, 3);
        if stop {
            assert_eq!((sink.tasks, acked), (3, 0));
            assert_eq!(sink.unsent(3), 3);
        } else {
            assert_eq!((inflight.len(), sink.unsent(0)), (0, 0));
            assert_eq!(acked, 6);
        }
    }
}

#[test]
fn merge_growth_is_incremental_and_pressure_keeps_both_receipts() {
    let mut cfg = HttpSinkConfig::demo("http://127.0.0.1:1/ingest");
    cfg.batch_rows = 256;
    cfg.linger_ms = 1000;
    let text = "x".repeat(180);
    let one = || Delivery {
        bytes: format!("[{{\"text\":\"{text}\"}}]").into_bytes(),
        schema: 1,
        owner: 1,
        rows: 1,
        batches: 1,
        first_ms: 0,
    };
    let size = one().bytes.len();
    assert_eq!(one().plan_merge(&one(), size, cfg.batch_bytes, 256), MergePlan::Grow(512));
    assert_eq!(one().plan_merge(&one(), 512, cfg.batch_bytes, 256), MergePlan::InPlace);
    let mut sink = SinkLoop::new();
    assert!(sink.on_batch(one(), MergePlan::Separate, Growth::Granted, &cfg).is_none());
    assert!(sink.on_batch(one(), MergePlan::Grow(512), Growth::Refused, &cfg).is_none());
    assert_eq!(sink.unsent(0), 2);
    assert_eq!(sink.group.as_ref().unwrap().bytes, one().bytes);
    let mut left = sink.group.take().unwrap();
    let right = sink.carry.take().unwrap();
    assert_eq!(right.bytes, one().bytes);
    let capacity = left.bytes.len();
    assert_eq!(left.plan_merge(&right, capacity, cfg.batch_bytes, 256), MergePlan::Grow(512));
    left.merge(right);
    assert_eq!(left.batches, 2);
    assert_eq!(
        String::from_utf8(left.bytes).unwrap(),
        format!("[{{\"text\":\"{text}\"}},{{\"text\":\"{text}\"}}]")
    );
    let mut sink = SinkLoop::new();
    sink.on_batch(one(), MergePlan::Separate, Growth::Granted, &cfg);
    assert!(sink.on_batch(one(), MergePlan::Grow(512), Growth::Granted, &cfg).is_none());
    let group = sink.group.as_ref().unwrap();
    assert_eq!(group.batches, 2);
    assert_eq!(
        String::from_utf8(group.bytes.clone()).unwrap(),
        format!("[{{\"text\":\"{text}\"}},{{\"text\":\"{text}\"}}]")
    );
    let mut sink = SinkLoop::new();
    sink.on_batch(one(), MergePlan::Separate, Growth::Granted, &cfg);
    let dropped = sink.on_batch(one(), MergePlan::Grow(512), Growth::Unpaid, &cfg);
    assert_eq!(dropped.unwrap().batches, 1);
    assert_eq!(sink.unsent(0), 1);
}

#[test]
fn merging_keeps_every_row() {
    let mut a = batch(1, 5);
    a.merge(batch(2, 6));
    assert_eq!(a.bytes, br#"[{"n":1},{"n":2}]"#.to_vec());
    assert_eq!((a.rows, a.batches, a.first_ms), (2, 2, 5));
    let mut none = Delivery { bytes: b"[]".to_vec(), schema: 1, owner: 1, rows: 0, batches: 1, first_ms: 0 };
    none.merge(batch(3, 0));
    assert_eq!(none.bytes, br#"[{"n":3}]"#.to_vec());
    let mut other = batch(4, 0);
    other.schema = 2;
    assert_eq!(batch(1, 0).plan_merge(&other, 1024, 1024, 10), MergePlan::Separate);
    assert_eq!(batch(1, 0).plan_merge(&batch(2, 0), 1024, 1024, 1), MergePlan::Separate);
}

#[test]
fn retries_replay_identical_owned_body() {
    let body = br#"[{"seq":1,"text":"a\"b"}]"#.to_vec();
    let cfg = HttpSinkConfig::demo("http://127.0.0.1:1/ingest");
    let mut bodies = Vec::new();
    let mut retries = 0;
    let mut attempt = 0;
    let accepted = loop {
        bodies.push(body.clone());
        match after_post(PostResult::Status(503), attempt, cfg.max_retries) {
            PostStep::Accepted => break true,
            PostStep::Failed => break false,
            PostStep::Retry => {
                retries += 1;
                attempt += 1;
            }
        }
    };
    assert!(!accepted);
    assert_eq!(bodies, vec![body; 3]);
    assert_eq!(retries, 2);
}

#[test]
fn accepted_post_with_truncated_response_is_not_retried() {
    assert_eq!(after_post(PostResult::Status(200), 0, 2), PostStep::Accepted);
    assert_eq!(drain_reply(0, 2), (2, true));
    assert_eq!(drain_reply(65536, 1), (65537, false));
}

#[test]
fn http_sink_4xx_fails_outbox_not_success_ack() {
    let cfg = HttpSinkConfig::demo("http://127.0.0.1:1/ingest");
    let (bodies, acked, failed) = run(&cfg, vec![batch(1, 0)], 400);
    assert_eq!(bodies.len(), 1);
    assert_eq!(acked, 0, "4xx must not count as a successful flush ack");
    assert_eq!(failed, 1);
}

#[test]
fn requests_are_bounded() {
    assert_eq!(after_post(PostResult::NoReply, 0, 2), PostStep::Retry);
    assert_eq!(after_post(PostResult::NoReply, 2, 2), PostStep::Failed);
    assert_eq!(after_post(PostResult::Unbuildable, 0, 2), PostStep::Failed);
    assert_eq!(after_post(PostResult::Status(404), 0, 2), PostStep::Failed);
    assert_eq!(after_post(PostResult::Status(302), 2, 2), PostStep::Failed);
    assert_eq!(encode_drop(ErrorCode::ResourceExhausted), EncodeDrop::Budget);
    assert_eq!(encode_drop(ErrorCode::TypeMismatch), EncodeDrop::Encoding);
}

#[test]
fn http_n16_http_header_secret_requires_https() {
    let secrets = MapSecretResolver::new(vec![("tok".to_string(), "secret".to_string())]);
    let mut http = HttpSinkConfig::demo("http://127.0.0.1:1/ingest");
    http.header_secret = Some("tok".to_string());
    let err = http.validate(&secrets, &TargetPolicy::allow("127.0.0.1", 1)).unwrap_err();
    assert_eq!(err.code(), ErrorCode::PolicyDenied);
    assert!(err.message.contains("https"), "{}", err.message);

    let mut https = HttpSinkConfig::demo("https://127.0.0.1:443/ingest");
    https.header_secret = Some("tok".to_string());
    https
        .validate(&secrets, &TargetPolicy::allow("127.0.0.1", 443))
        .expect("https + header_secret must be accepted");
}

#[test]
fn sink_settings_are_checked() {
    let secrets = MapSecretResolver::empty();
    let allow = TargetPolicy::allow("127.0.0.1", 1);
    let base = || HttpSinkConfig::demo("http://127.0.0.1:1/ingest");
    base().validate(&secrets, &allow).unwrap();
    assert_eq!(
        base().validate(&secrets, &TargetPolicy::deny_all()).unwrap_err().code(),
        ErrorCode::PolicyDenied
    );
    let mut c = base();
    c.batch_rows = 0;
    assert_eq!(c.validate(&secrets, &allow).unwrap_err().code(), ErrorCode::BoundExceeded);
    let mut c = base();
    c.restore = RestoreClaim::Checkpoint { snapshot_id: "1".to_string() };
    assert_eq!(c.validate(&secrets, &allow).unwrap_err().code(), ErrorCode::UnsupportedRestore);
    let mut c = HttpSinkConfig::demo("https://127.0.0.1:1/ingest");
    c.header_secret = Some("absent".to_string());
    assert_eq!(c.validate(&secrets, &allow).unwrap_err().code(), ErrorCode::SecretMissing);
}

#[test]
fn benchmark_capture_uses_receive_time_and_reuses_http_connection() {
    let mut conn = CaptureConn::new();
    let first = b"POST / HTTP/1.1\r\nContent-Length: 21\r\n\r\n[{\"seq\":1},{\"seq\":2}]";
    let second = b"POST / HTTP/1.1\r\ncontent-length: 9\r\n\r\n{\"seq\":3}";
    conn.feed_head(&first[..20]).unwrap();
    assert!(matches!(conn.step().unwrap(), RequestStep::ReadHead));
    conn.feed_head(&first[20..45]).unwrap();
    assert!(matches!(conn.step().unwrap(), RequestStep::ReadBody));
    conn.feed_body(&first[45..]);
    conn.feed_body(second);
    let mut kept = CaptureBuffer::new();
    for (received_at, sent) in [(5, &br#"[{"seq":1},{"seq":2}]"#[..]), (6, br#"{"seq":3}"#)] {
        let RequestStep::Request { body, close, .. } = conn.step().unwrap() else { panic!("post") };
        assert_eq!(body, sent.to_vec());
        assert!(!close, "replies leave the connection open");
        assert_eq!(capture_status(kept.keep(CapturedRequest { body, received_at }), 200), 200);
    }
    assert!(conn.buf.is_empty());
    let records = kept.drain_requests();
    assert_eq!(records.len(), 2);
    assert_eq!((records[0].received_at, records[1].received_at), (5, 6));
    assert_eq!(records[0].body, br#"[{"seq":1},{"seq":2}]"#.to_vec());
    assert!(kept.drain_requests().is_empty());
    for sent in [&br#"{"seq":4}"#[..], br#"{"seq":5}"#] {
        conn.feed_head(b"POST / HTTP/1.1\r\ncontent-length: 9\r\n\r\n").unwrap();
        conn.feed_body(sent);
        let RequestStep::Request { body, close, .. } = conn.step().unwrap() else { panic!("post") };
        assert_eq!(body, sent.to_vec());
        let code = capture_status(kept.keep(CapturedRequest { body, received_at: 7 }), 204);
        assert!(capture_reply(code, close).contains("connection: keep-alive"));
    }
    assert_eq!(kept.drain_requests().len(), 2);
    conn.feed_head(b"POST / HTTP/1.1\r\ncontent-length: 2\r\nConnection: close\r\n\r\n[]").unwrap();
    let RequestStep::Request { close, .. } = conn.step().unwrap() else { panic!("last") };
    assert!(close);
}

#[test]
fn a_request_is_read_alone() {
    let one = b"POST / HTTP/1.1\r\ncontent-length: 1\r\n\r\nx".to_vec();
    let mut two = one.clone();
    two.extend_from_slice(b"POST");
    let too_large = "big";
    let a = sparrow::http::wire::next_request(&one, too_large).unwrap();
    let b = sparrow::http::wire::next_request(&two, too_large).unwrap();
    let (RequestStep::Request { body: x, taken: n, .. }, RequestStep::Request { body: y, taken: m, .. }) = (a, b)
    else {
        panic!("requests")
    };
    assert_eq!((x, n), (y, m));
    let large = b"POST / HTTP/1.1\r\ncontent-length: 65537\r\n\r\n";
    let e = sparrow::http::wire::next_request(large, too_large).unwrap_err();
    assert_eq!((e.code(), e.message.as_str()), (ErrorCode::MaxRecordSize, "big"));
}

#[test]
fn bytes_that_are_no_text_still_make_a_head() {
    let mut conn = CaptureConn::new();
    conn.feed_head(b"POST /\xff HTTP/1.1\r\ncontent-length: 1\r\n\r\nz").unwrap();
    let RequestStep::Request { body, .. } = conn.step().unwrap() else { panic!("request") };
    assert_eq!(body, b"z".to_vec());
    assert_eq!(find_header_end(b"ab\r\n\r\n"), Some(2));
    assert_eq!(find_header_end(b"ab\r\n\r"), None);
    assert_eq!(read_lines("a\r\nb\n"), vec!["a", "b"]);
    assert!(wants_close(&vec!["CONNECTION: Close".to_string()]));
    assert!(!wants_close(&vec!["connection: keep-alive".to_string()]));
}

#[test]
fn the_capture_server_replies() {
    assert_eq!(
        capture_reply(204, false),
        "HTTP/1.1 204 No Content\r\nconnection: keep-alive\r\n\r\n"
    );
    assert!(capture_reply(503, true).starts_with("HTTP/1.1 503 ERR\r\n"));
    assert_eq!(capture_status(true, 200), 200);
    assert_eq!(capture_status(false, 200), 503);
    let mut kept = CaptureBuffer::new();
    assert!(!kept.keep(CapturedRequest { body: vec![0; 33_554_433], received_at: 0 }));
    let mut conn = CaptureConn::new();
    assert_eq!(
        conn.feed_head(&vec![b'a'; 200_000]).unwrap_err().message,
        "HTTP request exceeded 128KiB"
    );
}

#[test]
fn a_push_is_read_and_answered() {
    let mut conn = PushConn::new();
    conn.feed_head(b"POST /push HTTP/1.1\r\ncontent-length: 4\r\n\r\n{}").unwrap();
    assert!(matches!(conn.step(false).unwrap(), PushAction::ReadBody));
    let PushAction::Body(b) = conn.step(true).unwrap() else { panic!("short body") };
    assert_eq!(b, b"{}".to_vec());
    conn.feed_body(b"  ");
    let PushAction::Body(b) = conn.step(false).unwrap() else { panic!("body") };
    assert_eq!(b, b"{}  ".to_vec());
    assert!(push_reply().starts_with("HTTP/1.1 202 Accepted"));
    assert!(push_dropped(false, Handoff::Sent));
    assert!(push_dropped(true, Handoff::Full));
    assert!(!push_dropped(true, Handoff::Sent));
    assert_eq!(push_url(8080, "/push"), "http://127.0.0.1:8080/push");
    let mut big = PushConn::new();
    big.feed_head(b"POST / HTTP/1.1\r\ncontent-length: 65537\r\n\r\n").unwrap();
    assert_eq!(big.step(false).unwrap_err().message, "HTTP push body exceeds 64KiB");
    assert!(PushConn::new().feed_head(&vec![b'a'; 200_000]).is_err());
}

#[test]
fn push_settings_are_checked() {
    let none = TargetPolicy::deny_all();
    HttpPushSourceConfig::demo(schema()).validate(&none).unwrap();
    let mut c = HttpPushSourceConfig::demo(schema());
    c.inbox_capacity = 0;
    assert_eq!(c.validate(&none).unwrap_err().code(), ErrorCode::BoundExceeded);
    let mut c = HttpPushSourceConfig::demo(schema());
    c.restore = RestoreClaim::MqttSession { client_id: "x".to_string() };
    assert_eq!(c.validate(&none).unwrap_err().code(), ErrorCode::UnsupportedRestore);
    let mut c = HttpPushSourceConfig::demo(schema());
    c.bind = "0.0.0.0:80".to_string();
    assert_eq!(c.validate(&none).unwrap_err().code(), ErrorCode::PolicyDenied);
    c.bind = "10.1.1.1:80".to_string();
    assert_eq!(c.validate(&none).unwrap_err().code(), ErrorCode::PolicyDenied);
    c.validate(&TargetPolicy::allow("10.1.1.1", 80)).unwrap();
    c.path = String::new();
    assert_eq!(c.validate(&none).unwrap_err().message, "HTTP push path is required");
    assert_eq!(HttpPushSourceConfig::capabilities().kind, "http_push");
}

#[test]
fn sink_flush_is_part_of_sdk() {
    let mut sink = LogSink::new(8);
    sink.flush().unwrap();
    assert_eq!(LogSinkConfig::capabilities().replay, ReplaySupport::Unsupported);
    sink.write_batch(&vec![Some(b"{\"device_id\":\"d1\",\"v\":1}".to_vec())]);
    sink.flush().unwrap();
    assert_eq!(sink.written(), 1);
    assert_eq!(sink.lines().len(), 1);
}

#[test]
fn the_log_keeps_the_last_lines() {
    let mut sink = LogSink::new(2);
    sink.write_batch(&vec![
        Some(b"a".to_vec()),
        None,
        Some(b"b".to_vec()),
        Some(b"c".to_vec()),
    ]);
    assert_eq!(sink.lines(), &vec!["b".to_string(), "c".to_string()]);
    assert_eq!(sink.written(), 3);
    LogSinkConfig::default().validate().unwrap();
}

#[test]
fn counters_add_up() {
    let mut a = IoSnapshot::default();
    a.mqtt_received = 2;
    a.http_posted = 3;
    let mut b = IoSnapshot::default();
    b.mqtt_received = 5;
    b.log_written = 1;
    a.add_assign(&b);
    assert_eq!((a.mqtt_received, a.http_posted, a.log_written), (7, 3, 1));
    assert_eq!(
        a.display(),
        "mqtt recv=7 decoded=0 bad=0 full=0 waits=0 recovered=0 reconnects=0 | http posted=3 failed=0 dropped=0 retries=0 inflight=0 | log=1 decode_err=0"
    );
}
