//! What connectors declare, whom they may talk to and what they keep secret.

use sparrow::capabilities::{
    refuse_delivery_name, refuse_dirty_session, refuse_durable_recovery, refuse_qos_durable,
    refuse_recovery_name, refuse_unsupported_recovery, ConnectorCapabilities, DeliveryGuarantee,
    RecoveryPolicy, ReplaySupport, RestoreClaim,
};
use sparrow::error::{io, refuse};
use sparrow::ip::{read_ipv4, read_ipv6};
use sparrow::log::LogSinkConfig;
use sparrow::model::ErrorCode;
use sparrow::policy::{
    check_bind_addr, check_data_path_in, configured_data_roots, data_roots, is_blocked_host,
    is_loopback_host, parse_bind, resolve_for_policy, TargetPolicy,
};
use sparrow::secret::{lookup, MapSecretResolver, SecretResolver};
use sparrow::socket::read_socket;
use sparrow::tls::TlsConfig;

#[test]
fn deny_by_default() {
    let p = TargetPolicy::deny_all();
    assert_eq!(
        p.check_host_port("127.0.0.1", 1883).unwrap_err().code(),
        ErrorCode::PolicyDenied
    );
}

#[test]
fn allowlist_exact_port() {
    let p = TargetPolicy::allow("127.0.0.1", 1883);
    p.check_host_port("127.0.0.1", 1883).unwrap();
    assert!(p.check_host_port("127.0.0.1", 1884).is_err());
    assert!(p.check_host_port("8.8.8.8", 1883).is_err());
}

#[test]
fn blocks_metadata() {
    let p = TargetPolicy::allow("169.254.169.254", 80);
    assert_eq!(
        p.check_host_port("169.254.169.254", 80).unwrap_err().code(),
        ErrorCode::PolicyDenied
    );
}

#[test]
fn p0_12_http_push_rejects_unspecified_bind() {
    let p = TargetPolicy::deny_all();
    let open = "0.0.0.0:8080";
    assert_eq!(
        check_bind_addr(open, &p).unwrap_err().code(),
        ErrorCode::PolicyDenied
    );
    let local = "127.0.0.1:0";
    check_bind_addr(local, &p).unwrap();
}

#[test]
fn missing_secret_is_explicit() {
    let r = MapSecretResolver::empty();
    let err = r.resolve("mqtt.password").unwrap_err();
    assert_eq!(err.code(), ErrorCode::SecretMissing);
}

#[test]
fn skip_verify_is_rejected() {
    let err = TlsConfig { enabled: true, skip_verify: true }.validate().unwrap_err();
    assert_eq!(err.code(), ErrorCode::PolicyDenied);
}

#[test]
fn mqtt_declares_replay_unsupported() {
    assert_eq!(ConnectorCapabilities::mqtt_source().replay, ReplaySupport::Unsupported);
    assert!(refuse_qos_durable(1).is_err());
    assert!(refuse_dirty_session(false).is_err());
    assert_eq!(
        refuse_durable_recovery(&RestoreClaim::MqttSession { client_id: "edge".to_string() })
            .unwrap_err()
            .code(),
        ErrorCode::UnsupportedRestore
    );
}

#[test]
fn capability_matrix_rejects_unsupported_recovery() {
    assert!(refuse_unsupported_recovery(
        "http_push",
        false,
        RecoveryPolicy::Aligned,
        &RestoreClaim::Absent,
    )
    .is_err());
    assert!(refuse_unsupported_recovery(
        "file",
        true,
        RecoveryPolicy::RestartFresh,
        &RestoreClaim::Checkpoint { snapshot_id: "1".to_string() },
    )
    .is_err());
}

#[test]
fn live_sources_only_start_fresh() {
    let snapshot = RestoreClaim::Checkpoint { snapshot_id: "1".to_string() };
    for recovery in [RecoveryPolicy::Aligned, RecoveryPolicy::RestartFresh] {
        let kept = refuse_unsupported_recovery("mqtt", false, recovery, &RestoreClaim::Absent);
        assert_eq!(kept.is_ok(), recovery == RecoveryPolicy::RestartFresh);
        assert_eq!(
            refuse_unsupported_recovery("mqtt", false, recovery, &snapshot).unwrap_err().code(),
            ErrorCode::UnsupportedRestore
        );
    }
    refuse_unsupported_recovery("file", true, RecoveryPolicy::Aligned, &snapshot).unwrap();
    assert!(refuse_durable_recovery(&RestoreClaim::Absent).is_ok());
}

#[test]
fn every_connector_says_what_it_is() {
    let live = [
        (ConnectorCapabilities::mqtt_source(), "mqtt"),
        (ConnectorCapabilities::mqtt_sink(), "mqtt_sink"),
        (ConnectorCapabilities::http_sink(), "http"),
        (ConnectorCapabilities::http_push(), "http_push"),
        (ConnectorCapabilities::log_sink(), "log"),
        (LogSinkConfig::capabilities(), "log"),
    ];
    for (c, kind) in live {
        assert_eq!(c.kind, kind);
        assert!(!c.replay.is_replayable());
        assert_eq!(c.replay.as_str(), "unsupported");
        assert_eq!(c.delivery.as_str(), "live_best_effort");
        assert_eq!(c.recovery.as_str(), "restart_fresh");
    }
    let file = ConnectorCapabilities::file_replay();
    assert_eq!(file.kind, "file");
    assert_eq!(file.replay, ReplaySupport::Replayable);
    assert!(file.recovery.is_aligned());
}

#[test]
fn names_are_read_or_refused() {
    assert_eq!(
        refuse_delivery_name("live_best_effort").unwrap(),
        DeliveryGuarantee::LiveBestEffort
    );
    let e = refuse_delivery_name("exactly_once").unwrap_err();
    assert_eq!(e.code(), ErrorCode::UnsupportedDelivery);
    assert!(e.message.contains("exactly_once"));
    assert_eq!(refuse_recovery_name("aligned").unwrap(), RecoveryPolicy::Aligned);
    assert_eq!(refuse_recovery_name("restart_fresh").unwrap(), RecoveryPolicy::RestartFresh);
    assert!(refuse_recovery_name("checkpoint").is_err());
    assert!(refuse_qos_durable(0).is_ok());
    assert!(refuse_qos_durable(2).unwrap_err().message.starts_with("MQTT QoS 2 implies"));
    assert!(refuse_dirty_session(true).is_ok());
}

#[test]
fn listing_more_only_adds() {
    let p = TargetPolicy::allow("broker.local", 1883);
    assert!(p.check_host_port("BROKER.local", 1883).is_ok());
    let p = p.with_allow("0.0.0.0", 1883);
    assert!(p.check_host_port("broker.local", 1883).is_ok());
    assert!(p.check_host_port("0.0.0.0", 1883).is_err());
}

#[test]
fn urls_are_checked_by_their_parts() {
    let p = TargetPolicy::allow("127.0.0.1", 8080).with_allow("example.org", 443);
    p.check_http_url("http://127.0.0.1:8080/ingest").unwrap();
    p.check_http_url("https://example.org/x").unwrap();
    assert!(p.check_http_url("http://example.org/x").is_err());
    let e = p.check_http_url("ftp://127.0.0.1/").unwrap_err();
    assert_eq!(e.message, "unsupported URL scheme `ftp`");
    let e = p.check_http_url("not a url").unwrap_err();
    assert_eq!(e.code(), ErrorCode::InvalidArgument);
    assert!(e.message.starts_with("invalid HTTP url: "));
}

#[test]
fn some_hosts_are_never_talked_to() {
    for host in ["169.254.1.1", "0.0.0.0", "224.0.0.1", "::", "ff02::1", "metadata.google.internal"] {
        assert!(is_blocked_host(host), "{host}");
    }
    for host in ["127.0.0.1", "10.0.0.1", "::1", "example.org"] {
        assert!(!is_blocked_host(host), "{host}");
    }
    assert!(is_loopback_host("[::1]"));
    assert!(is_loopback_host("LocalHost"));
    assert!(is_loopback_host("127.9.9.9"));
    assert!(!is_loopback_host("128.0.0.1"));
}

#[test]
fn addresses_are_read() {
    assert_eq!(read_ipv4("1.2.3.4"), Some((1, 2, 3, 4)));
    assert_eq!(read_ipv4("0.0.0.0"), Some((0, 0, 0, 0)));
    for s in ["01.2.3.4", "1.2.3", "256.0.0.1", "1.2.3.4.5", "1..2.3", ""] {
        assert_eq!(read_ipv4(s), None, "{s}");
    }
    assert_eq!(read_ipv6("::"), Some(vec![0; 8]));
    assert_eq!(read_ipv6("::1"), Some(vec![0, 0, 0, 0, 0, 0, 0, 1]));
    assert_eq!(read_ipv6("1::"), Some(vec![1, 0, 0, 0, 0, 0, 0, 0]));
    assert_eq!(read_ipv6("fe80::1:2"), Some(vec![0xfe80, 0, 0, 0, 0, 0, 1, 2]));
    assert_eq!(read_ipv6("1:2:3:4:5:6:7:8"), Some(vec![1, 2, 3, 4, 5, 6, 7, 8]));
    assert_eq!(
        read_ipv6("::ffff:1.2.3.4"),
        Some(vec![0, 0, 0, 0, 0, 0xffff, 0x0102, 0x0304])
    );
    for s in ["1:2:3:4:5:6:7", "1:2:3:4:5:6:7:8:9", "1::2::3", "12345::", ":1", "g::", ""] {
        assert_eq!(read_ipv6(s), None, "{s}");
    }
}

#[test]
fn binds_are_read() {
    assert_eq!(parse_bind("localhost:80").unwrap(), ("localhost".to_string(), 80));
    assert_eq!(parse_bind("[::1]:9").unwrap(), ("::1".to_string(), 9));
    assert!(parse_bind("nohost").is_err());
    assert!(parse_bind(":80").is_err());
    assert_eq!(
        parse_bind("h:99999").unwrap_err().message,
        "invalid HttpPush bind `h:99999`"
    );
    let listed = TargetPolicy::allow("10.1.1.1", 80);
    check_bind_addr("10.1.1.1:80", &listed).unwrap();
    let blocked = check_bind_addr("169.254.0.1:80", &listed).unwrap_err();
    assert_eq!(blocked.message, "HttpPush bind host `169.254.0.1` is blocked");
}

#[test]
fn socket_addresses_are_read() {
    let read = |s: &str| read_socket(s).map(|(host, port)| format!("{host} {port}"));
    for (text, shown) in [
        ("127.0.0.1:80", "127.0.0.1 80"),
        ("1.2.3.4:0080", "1.2.3.4 80"),
        ("[::1]:9", "::1 9"),
        ("[0:0:0:0:0:0:0:1]:9", "::1 9"),
        ("[0:0::0]:65535", ":: 65535"),
        ("[2001:DB8:0:0:1:0:0:1]:1", "2001:db8::1:0:0:1 1"),
        ("[2001:db8:0:1:1:1:1:1]:1", "2001:db8:0:1:1:1:1:1 1"),
        ("[1:0:0:2:0:0:0:3]:1", "1:0:0:2::3 1"),
        ("[fe80::a0b%7]:443", "fe80::a0b 443"),
        ("[::ffff:10.1.2.3]:1", "::ffff:10.1.2.3 1"),
        ("[::ffff:a01:203]:1", "::ffff:10.1.2.3 1"),
        ("[::10.1.2.3]:1", "::a01:203 1"),
        ("[1::]:1", "1:: 1"),
    ] {
        assert_eq!(read(text).as_deref(), Some(shown), "{text}");
    }
    for text in [
        "", "1.2.3.4", "1.2.3.4:", "1.2.3.4:65536", "1.2.3.4:+1", "01.2.3.4:1", "1.2.3:1",
        "localhost:1", "::1:9", "[::1]", "[::1]9", "[::1:9", "[::1%]:9", "[::1%x]:9",
        "[::1%4294967296]:9", "[1.2.3.4]:9", "[]:9",
    ] {
        assert_eq!(read(text), None, "{text}");
    }
}

#[test]
fn an_open_bind_is_refused_however_it_is_written() {
    let listed = TargetPolicy::allow("::", 80);
    for bind in ["0.0.0.0:80", "[::]:80", "[0:0:0:0:0:0:0:0]:80", "[0::0]:80", "[::%1]:80"] {
        let e = check_bind_addr(bind, &listed).unwrap_err();
        assert_eq!(e.message, format!("HttpPush bind `{bind}` is unspecified; refuse open bind"));
    }
    check_bind_addr("[0::1]:80", &TargetPolicy::deny_all()).unwrap();
    let far = TargetPolicy::allow("2001:db8::1", 80);
    check_bind_addr("[2001:DB8:0::1]:80", &far).unwrap();
    assert!(check_bind_addr("[2001:db8::2]:80", &far).is_err());
}

#[test]
fn data_paths_stay_in_their_roots() {
    assert_eq!(configured_data_roots(" /a : :/b"), vec!["/a", "/b"]);
    assert_eq!(data_roots(None, "/tmp", false), vec!["/tmp/sparrow"]);
    assert!(data_roots(None, "/tmp", true).is_empty());
    assert_eq!(data_roots(Some("/data"), "/tmp", true), vec!["/data"]);
    let roots = vec!["/data".to_string()];
    let ok = |p: &str| check_data_path_in(p, Ok(p.to_string()), &roots);
    ok("/data/x.ndjson").unwrap();
    assert!(ok("/data2/x").is_err());
    assert_eq!(ok("/data/../etc").unwrap_err().message, "path must not contain `..`");
    assert_eq!(ok("").unwrap_err().message, "file path is empty");
    assert!(check_data_path_in("/data/x", Ok("/etc/x".to_string()), &roots).is_err());
    assert!(check_data_path_in("/data/x", Ok("/data/x".to_string()), &vec![]).is_err());
    let broken = refuse(ErrorCode::PolicyDenied, "canonicalize");
    assert_eq!(
        check_data_path_in("/data/x", Err(broken), &roots).unwrap_err().message,
        "canonicalize"
    );
    let missing = vec!["c".to_string(), "b".to_string()];
    assert_eq!(resolve_for_policy("/a", &missing).unwrap(), "/a/b/c");
    assert!(resolve_for_policy("/a", &vec!["..".to_string()]).is_err());
}

#[test]
fn secrets_come_from_the_list_or_the_environment() {
    let r = MapSecretResolver::with_env(
        vec![("tok".to_string(), "t".to_string())],
        vec![("HOME_TOKEN".to_string(), "h".to_string())],
    );
    assert_eq!(r.resolve("tok").unwrap(), "t");
    assert_eq!(r.resolve("env:HOME_TOKEN").unwrap(), "h");
    assert_eq!(
        r.resolve("env:NONE").unwrap_err().message,
        "environment secret `NONE` is not set"
    );
    assert_eq!(r.resolve("x").unwrap_err().message, "secret `x` is not configured");
    assert_eq!(lookup(&r, &None).unwrap(), None);
    assert_eq!(lookup(&r, &Some("tok".to_string())).unwrap(), Some("t".to_string()));
    assert!(lookup(&r, &Some("y".to_string())).is_err());
}

#[test]
fn tls_is_off_or_verified() {
    assert!(TlsConfig::disabled().validate().is_ok());
    assert!(TlsConfig::enabled().validate().is_ok());
    assert!(!TlsConfig::default().enabled);
}

#[test]
fn a_connector_error_becomes_an_error_of_the_runtime() {
    let e = io(refuse(ErrorCode::PolicyDenied, "no"));
    assert_eq!(e.code, ErrorCode::PolicyDenied);
    assert_eq!(e.message, "no");
}
