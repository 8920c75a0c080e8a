//! The control plane: catalog, secrets, specifications, plans and the supervisor.

use std::cell::Cell;

use sparrow::control::kernel::{compact_kernel, host_kernel};
use sparrow::control::aligned::{
    begin, checkpoint_dir, joined, prepare_aligned, AlignedRun, CheckpointReply,
};
use sparrow::control::plan::{
    check_aligned_stages, layout_from_physical, window_from_plan, PlanStage, WindowKind,
};
use sparrow::control::secrets::{
    hex_decode, hex_encode, key_from, parse_secrets_key, random_key, seal_secret, seal_with,
    secrets_key, unseal_secret, KeySources, SecretsKey,
};
use sparrow::control::spec::{PipelineSpec, RestoreSpec, SinkSpec, SourceSpec, SpecDefaults, StreamSpec};
use sparrow::control::status::PipelineStatus;
use sparrow::control::start::{
    channels, prepare_start, wire_sink, wire_source, SinkWiring, SourceWiring, StartPlan,
};
use sparrow::control::store::{check_catalog_version, check_name, Store};
use sparrow::control::supervisor::{
    capacity_backoff, note_of, parse_max_jobs, request_start, request_start_at, request_stop,
    retry_backoff, Decision, Supervisor, MAX_PIPELINE_ATTEMPTS,
};
use sparrow::control::validate::{
    bind_plan, binder_catalog, capabilities_json, effective_guarantees, honesty_json, honesty_text,
    http_config,
    http_push_config, mqtt_config, mqtt_sink_config, name_id, reject_named_delivery,
    replay_label_for_source, resolve_file_contract, store_policy, stream_to_schema, validate_aligned_plan,
    validate_io, Bound, DemoEndpoints, FileFacts, Query, StoreSecrets,
};
use sparrow::file_poll::{apply_file_poll, FilePoll};
use sparrow::file_replay::{FileContract, SourceIdentity, SourcePosition};
use sparrow::model::{DataType, ErrorCode, Field, Schema, SparrowError};
use sparrow::policy::TargetPolicy;
use sparrow::secret::{MapSecretResolver, SecretResolver};

const STREAM: &str = r#"{"fields":[{"name":"device_id","type":"utf8","nullable":false}]}"#;

fn text(s: &str) -> Option<String> {
    Some(s.to_string())
}

fn schema() -> Schema {
    Schema {
        id: 1,
        fields: vec![Field {
            id: 1,
            name: "device_id".to_string(),
            data_type: DataType::Utf8,
            nullable: false,
        }],
    }
}

fn mqtt_source() -> SourceSpec {
    SourceSpec {
        kind: "mqtt".to_string(),
        host: text("127.0.0.1"),
        port: Some(1883),
        topic: "t".to_string(),
        client_id: None,
        qos: 0,
        clean_session: true,
        username_secret: None,
        password_secret: None,
        skip_verify: false,
        inbox_capacity: 8,
        use_demo_io: false,
        bind: None,
        path: None,
        tls: false,
        file_contract: None,
    }
}

fn http_sink(url: &str) -> SinkSpec {
    SinkSpec {
        kind: "http".to_string(),
        url: text(url),
        skip_verify: false,
        outbox_capacity: 8,
        use_demo_io: false,
        header_secret: None,
        host: None,
        port: None,
        topic: None,
        client_id: None,
        qos: 0,
        clean_session: true,
        tls: false,
    }
}

fn spec() -> PipelineSpec {
    PipelineSpec {
        version: 1,
        stream: "sensors".to_string(),
        sql: text("SELECT device_id FROM sensors"),
        graph: None,
        source: mqtt_source(),
        sink: http_sink("http://127.0.0.1:9/ingest"),
        delivery: "live_best_effort".to_string(),
        recovery: "restart_fresh".to_string(),
        restore: None,
        checkpoint_dir: None,
        fail_on_decode: false,
    }
}

fn file_spec(path: &str, sql: &str, recovery: &str, chk: Option<&str>) -> PipelineSpec {
    let mut s = spec();
    s.sql = text(sql);
    s.source.kind = "file".to_string();
    s.source.path = text(path);
    s.sink = http_sink("");
    s.sink.kind = "log".to_string();
    s.sink.url = None;
    s.recovery = recovery.to_string();
    s.checkpoint_dir = chk.map(|c| c.to_string());
    s
}

fn facts() -> FileFacts {
    FileFacts {
        roots: vec!["/data".to_string()],
        path: Ok("/data/p.ndjson".to_string()),
        checkpoint_dir: Ok("/data/p-chk".to_string()),
    }
}

/// One round over every pipeline; `start` says how a start ends.
fn converge<F: Fn(&str) -> Result<(), String>>(
    sup: &mut Supervisor,
    store: &mut Store,
    now: u64,
    start: &F,
) {
    for d in store.list_desired() {
        match sup.decide(store, &d, now).unwrap() {
            Decision::Leave => {}
            Decision::Start(rev) => {
                sup.begin_start(store, &d.name, rev, "restart_fresh").unwrap();
                match start(&d.name) {
                    Ok(()) => sup.on_started(store, &d.name, rev, "restart_fresh").unwrap(),
                    Err(e) => sup.on_start_failed(store, &d.name, rev, &e, now),
                }
            }
            Decision::Stop | Decision::ShowStopped => {
                sup.on_stopped(store, &d.name, d.revision, None);
            }
        }
    }
}

fn ok(_: &str) -> Result<(), String> {
    Ok(())
}

#[test]
fn a8_pipeline_status_rejects_unknown() {
    assert_eq!(PipelineStatus::parse("running").unwrap(), PipelineStatus::Running);
    assert_eq!(
        PipelineStatus::parse("bogus").unwrap_err().code,
        ErrorCode::InvalidArgument
    );
    assert_eq!(PipelineStatus::Failed.as_str(), "failed");
    assert!(PipelineStatus::Running.is_desired());
    assert!(!PipelineStatus::Starting.is_desired());
}

#[test]
fn a_status_name_is_read_back() {
    for s in [
        PipelineStatus::Stopped,
        PipelineStatus::Starting,
        PipelineStatus::Running,
        PipelineStatus::Failed,
        PipelineStatus::Completed,
        PipelineStatus::Waiting,
    ] {
        assert_eq!(PipelineStatus::parse(s.as_str()).unwrap(), s);
    }
}

#[test]
fn r22_put_pipeline_is_one_transaction() {
    let mut s = Store::open_memory();
    s.put_pipeline("hot", &spec(), None).unwrap();
    assert!(s.get_pipeline_revision("hot", 1).is_ok());
    s.put_pipeline("hot", &spec(), Some("rev-1")).unwrap();
    assert_eq!(s.get_pipeline("hot").unwrap().latest_revision, 2);
    assert!(s.get_pipeline_revision("hot", 1).is_ok());
    assert!(s.get_pipeline_revision("hot", 2).is_ok());
}

#[test]
fn r23_desired_revision_spec_is_not_latest() {
    let mut s = Store::open_memory();
    let mut a = spec();
    a.sql = text("SELECT device_id FROM sensors");
    s.put_pipeline("hot", &a, None).unwrap();
    let mut b = spec();
    b.sql = text("SELECT temperature FROM sensors");
    s.put_pipeline("hot", &b, Some("rev-1")).unwrap();
    let desired = s.get_pipeline_revision("hot", 1).unwrap();
    assert_eq!(desired.spec.sql.as_deref(), Some("SELECT device_id FROM sensors"));
    let latest = s.get_pipeline("hot").unwrap();
    assert_eq!(latest.spec.sql.as_deref(), Some("SELECT temperature FROM sensors"));
    assert_ne!(desired.spec.sql, latest.spec.sql);
}

#[test]
fn r27_secrets_are_sealed_and_not_plaintext() {
    let mut s = Store::open_memory();
    s.put_secret("pw", "super-secret-value").unwrap();
    let raw = s.debug_raw_secret("pw").unwrap().clone();
    assert!(raw.starts_with("enc:v2:"), "stored secret must be AEAD-sealed: {raw}");
    assert!(!raw.contains("super-secret-value"));
    assert_eq!(s.get_secret("pw").unwrap().as_deref(), Some("super-secret-value"));
    let err = unseal_secret("super-secret-value", &Ok(random_key())).unwrap_err();
    assert_eq!(err.code, ErrorCode::PolicyDenied);
    let too_big = "x".repeat(4097);
    assert_eq!(s.put_secret("big", &too_big).unwrap_err().code, ErrorCode::MaxRecordSize);
}

#[test]
fn r22_crash_before_commit_keeps_old_revision() {
    let mut s = Store::open_memory();
    s.put_pipeline("hot", &spec(), None).unwrap();
    assert_eq!(s.get_pipeline("hot").unwrap().latest_revision, 1);
    s.debug_fail_next_commit();
    let err = s.put_pipeline("hot", &spec(), Some("rev-1")).unwrap_err();
    assert!(err.message.contains("injected") || err.message.contains("crash"));
    let row = s.get_pipeline("hot").unwrap();
    assert_eq!(row.latest_revision, 1, "partial write must roll back");
    assert!(s.get_pipeline_revision("hot", 2).is_err());
    s.put_pipeline("hot", &spec(), Some("rev-1")).unwrap();
    assert_eq!(s.get_pipeline("hot").unwrap().latest_revision, 2);
    assert!(s.get_pipeline_revision("hot", 1).is_ok());
    assert!(s.get_pipeline_revision("hot", 2).is_ok());
}

#[test]
fn put_get_and_if_match() {
    let mut s = Store::open_memory();
    assert_eq!(s.schema_version(), 1);
    let row = s.put_pipeline("hot", &spec(), None).unwrap();
    assert_eq!(row.etag, "rev-1");
    let err = s.put_pipeline("hot", &spec(), None).unwrap_err();
    assert!(err.message.contains("If-Match"));
    let row2 = s.put_pipeline("hot", &spec(), Some("rev-1")).unwrap();
    assert_eq!(row2.etag, "rev-2");
    s.set_desired("hot", "running", Some(2)).unwrap();
    assert_eq!(s.desired("hot").unwrap().status.as_str(), "running");
    s.reset_actual_after_process_restart().unwrap();
    assert_eq!(s.actual("hot").unwrap().status.as_str(), "stopped");
}

#[test]
fn no_update_is_lost() {
    let mut s = Store::open_memory();
    s.put_pipeline("p", &spec(), None).unwrap();
    s.put_pipeline("p", &spec(), Some("rev-1")).unwrap();
    assert!(s.put_pipeline("p", &spec(), Some("rev-1")).is_err());
    assert_eq!(s.get_pipeline("p").unwrap().latest_revision, 2);
    assert_eq!(s.list_pipeline_names(), vec!["p"]);
}

#[test]
fn names_are_bounded() {
    assert!(check_name("ok-name_1").is_ok());
    assert_eq!(check_name("").unwrap_err().code, ErrorCode::InvalidArgument);
    assert!(check_name(&"x".repeat(65)).is_err());
    assert!(check_name("no/slash").is_err());
    let mut s = Store::open_memory();
    assert!(s.put_stream("", STREAM).is_err());
    assert!(s.put_pipeline("a b", &spec(), None).is_err());
}

#[test]
fn streams_are_kept_by_name() {
    let mut s = Store::open_memory();
    s.put_stream("b", STREAM).unwrap();
    s.put_stream("a", "{}").unwrap();
    s.put_stream("a", STREAM).unwrap();
    assert_eq!(s.get_stream("a").unwrap().schema_json, STREAM);
    let names: Vec<String> = s.list_streams().into_iter().map(|r| r.name).collect();
    assert_eq!(names, vec!["a", "b"]);
    assert_eq!(s.get_stream("c").unwrap_err().code, ErrorCode::InvalidArgument);
}

#[test]
fn wishes_are_running_or_stopped() {
    let mut s = Store::open_memory();
    s.put_pipeline("p", &spec(), None).unwrap();
    assert!(s.set_desired("p", "starting", None).is_err());
    assert!(s.set_desired("absent", "running", None).is_err());
    s.set_desired("p", "stopped", None).unwrap();
    assert_eq!(s.desired("p").unwrap().status, PipelineStatus::Stopped);
    assert_eq!(s.list_desired().len(), 1);
    assert!(s.desired("q").is_err());
    assert!(s.actual("q").is_err());
}

#[test]
fn activity_counts_failures_in_a_row() {
    let mut s = Store::open_memory();
    s.put_pipeline("p", &spec(), None).unwrap();
    s.set_actual("p", "failed", Some(1), 1, Some("boom")).unwrap();
    s.set_actual("p", "failed", Some(1), 2, Some("boom")).unwrap();
    assert_eq!(s.actual("p").unwrap().consecutive_failures, 2);
    assert!(s.actual("p").unwrap().restart_blocked);
    s.set_last_error("p", Some("held: x")).unwrap();
    assert_eq!(s.actual("p").unwrap().last_error.as_deref(), Some("held: x"));
    s.reset_consecutive_failures("p").unwrap();
    assert_eq!(s.actual("p").unwrap().consecutive_failures, 0);
    assert!(s.set_actual("p", "odd", None, 3, None).is_err());
}

#[test]
fn history_is_bounded() {
    let mut s = Store::open_memory();
    let first = s.insert_attempt("p", 1, "failed", Some("x")).unwrap();
    assert_eq!(first, 1);
    for _ in 0..100 {
        s.insert_attempt("noise", 1, "waiting", None).unwrap();
    }
    assert!(s.last_attempt("p").is_none());
    assert_eq!(s.last_attempt("noise").unwrap().id, 101);
    s.audit("me", "start", Some("p"), None, "ok").unwrap();
    s.audit("me", "stop", Some("p"), Some("why"), "ok").unwrap();
    let shown = s.list_audit(1);
    assert_eq!(shown.len(), 1);
    assert_eq!(shown[0].action, "stop");
    s.put_allow("h", 80).unwrap();
    s.put_allow("h", 80).unwrap();
    assert_eq!(s.allowlist(), &vec![("h".to_string(), 80)]);
}

#[test]
fn hexadecimal_text_is_read_back() {
    assert_eq!(hex_encode(&[0, 1, 0xab, 0xff]), "0001abff");
    assert_eq!(hex_decode("0001ABff"), Some(vec![0, 1, 0xab, 0xff]));
    assert_eq!(hex_decode("abc"), None);
    assert_eq!(hex_decode("zz"), None);
    let all: Vec<u8> = (0..=255).collect();
    assert_eq!(hex_decode(&hex_encode(&all)), Some(all));
}

#[test]
fn keys_come_from_their_sources() {
    let hex = "00".repeat(31) + "07";
    let key = parse_secrets_key(&hex.clone().into_bytes()).unwrap();
    assert_eq!(key.bytes[31], 7);
    assert_eq!(parse_secrets_key(&vec![9u8; 32]).unwrap().bytes, vec![9u8; 32]);
    assert!(parse_secrets_key(&b"short".to_vec()).is_err());
    let of = |file: Option<Result<Vec<u8>, String>>, env: Option<Vec<u8>>, required: bool| {
        secrets_key(&KeySources { file, env, required }, SecretsKey { bytes: vec![1u8; 32] })
    };
    assert_eq!(of(None, None, false).unwrap().bytes, vec![1u8; 32]);
    assert!(of(None, None, true).is_err());
    assert_eq!(of(None, Some(vec![2u8; 32]), true).unwrap().bytes, vec![2u8; 32]);
    assert_eq!(of(Some(Ok(vec![3u8; 32])), Some(vec![2u8; 32]), true).unwrap().bytes, vec![3u8; 32]);
    assert!(of(Some(Err("gone".to_string())), Some(vec![2u8; 32]), false).is_err());
}

#[test]
fn a_sealed_secret_opens_only_with_its_key() {
    let key = random_key();
    let sealed = seal_secret("s3cret", &key).unwrap();
    assert_ne!(sealed, seal_secret("s3cret", &key).unwrap());
    assert_eq!(unseal_secret(&sealed, &Ok(key)).unwrap(), "s3cret");
    assert!(unseal_secret(&sealed, &Ok(SecretsKey { bytes: vec![0u8; 32] })).is_err());
    assert!(unseal_secret("enc:v2:00", &Ok(SecretsKey { bytes: vec![0u8; 32] })).is_err());
    let broken = SparrowError::new(ErrorCode::PolicyDenied, "no key".to_string());
    assert_eq!(unseal_secret(&sealed, &Err(broken)).unwrap_err().message, "no key");
}

#[test]
fn what_was_drawn_decides_keys_and_seals() {
    let key = key_from(Some((0u8..32).collect()));
    assert_eq!(key.bytes, (0u8..32).collect::<Vec<u8>>());
    assert_eq!(key_from(None).bytes, vec![0u8; 32]);
    let sealed = seal_with("s3cret", &key, Some(vec![1u8; 12])).unwrap();
    assert_eq!(sealed, seal_with("s3cret", &key, Some(vec![1u8; 12])).unwrap());
    assert_ne!(sealed, seal_with("s3cret", &key, Some(vec![2u8; 12])).unwrap());
    assert!(sealed.starts_with("enc:v2:010101010101010101010101"));
    let e = seal_with("s3cret", &key, None).unwrap_err();
    assert_eq!((e.code, e.message.as_str()), (ErrorCode::Internal, "secrets nonce failed"));
    let mut store = Store::open_memory();
    store.key = Ok(key);
    store.put_sealed("pw", Ok(sealed.clone())).unwrap();
    assert_eq!(store.debug_raw_secret("pw").unwrap(), &sealed);
    assert_eq!(store.get_secret("pw").unwrap().as_deref(), Some("s3cret"));
    let failed = || SparrowError::new(ErrorCode::Internal, "secrets nonce failed".to_string());
    assert_eq!(store.put_sealed("pw", Err(failed())).unwrap_err().message, "secrets nonce failed");
    assert_eq!(store.put_sealed("a b", Err(failed())).unwrap_err().code, ErrorCode::InvalidArgument);
    assert_eq!(store.get_secret("pw").unwrap().as_deref(), Some("s3cret"));
}

#[test]
fn rejects_checkpoint_and_at_least_once() {
    let mut spec = spec();
    spec.delivery = "at_least_once".to_string();
    assert_eq!(
        spec.check_delivery().unwrap_err().code,
        ErrorCode::UnsupportedDelivery
    );
    spec.delivery = "live_best_effort".to_string();
    spec.restore = Some(RestoreSpec {
        kind: "checkpoint".to_string(),
        snapshot_id: text("snap"),
        client_id: None,
    });
    assert_eq!(spec.check_delivery().unwrap_err().code, ErrorCode::UnsupportedRestore);
    spec.recovery = "aligned".to_string();
    assert_eq!(
        spec.check_delivery().unwrap_err().code,
        ErrorCode::UnsupportedRestore,
        "MQTT + aligned checkpoint must still reject"
    );
    spec.source.kind = "file".to_string();
    spec.source.path = text("/tmp/events.ndjson");
    assert!(spec.check_delivery().is_ok());
    let g = effective_guarantees(&spec);
    assert_eq!(g.recovery, "aligned");
    assert_eq!(g.recovery_risk, "committed_checkpoint_only");
}

#[test]
fn only_files_are_restored() {
    for kind in ["mqtt", "http_push", "http", "other"] {
        let mut s = spec();
        s.source.kind = kind.to_string();
        s.recovery = "aligned".to_string();
        assert!(s.check_delivery().is_err(), "{kind}");
    }
    let g = effective_guarantees(&spec());
    assert!(!g.aligned_eligible);
    assert!(!g.exactly_once);
    assert_eq!(g.delivery, "live_best_effort");
    assert_eq!(g.replay, "unsupported");
    assert_eq!(g.recovery_risk, "no_durable_restore; live_best_effort_drops_ok");
}

#[test]
fn v02_default_mqtt_client_id_is_unique_per_instance() {
    let src = mqtt_source();
    let a = mqtt_config(&src, schema(), None, "pipe-a", 7, 1).unwrap();
    let b = mqtt_config(&src, schema(), None, "pipe-b", 7, 2).unwrap();
    assert_ne!(a.client_id, b.client_id);
    assert!(a.client_id.contains("pipe-a"));
    assert!(b.client_id.contains("pipe-b"));
    assert!(!a.client_id.eq("sparrow-source"));
}

#[test]
fn p0_11_mqtt_credentials_require_tls() {
    let mut src = mqtt_source();
    src.username_secret = text("user");
    src.password_secret = text("pw");
    let err = mqtt_config(&src, schema(), None, "cred", 7, 1).unwrap_err();
    assert_eq!(err.code, ErrorCode::PolicyDenied);
    src.tls = true;
    let cfg = mqtt_config(&src, schema(), None, "cred", 7, 1).unwrap();
    assert!(cfg.tls.enabled, "tls:true must be wired into MQTT config");
}

#[test]
fn validate_n16_http_header_secret_requires_https() {
    let mut sink = http_sink("http://127.0.0.1:8443/ingest");
    sink.header_secret = text("tok");
    let err = http_config(&sink, None).unwrap_err();
    assert_eq!(err.code, ErrorCode::PolicyDenied);
    sink.url = text("https://127.0.0.1:8443/ingest");
    let cfg = http_config(&sink, None).unwrap();
    assert!(cfg.tls.enabled, "header_secret must imply TLS");
    assert_eq!(cfg.header_secret.as_deref(), Some("tok"));
}

#[test]
fn mqtt_aligned_still_rejected() {
    let mut spec = spec();
    spec.source.client_id = text("x");
    spec.sink.kind = "log".to_string();
    spec.sink.url = None;
    spec.recovery = "aligned".to_string();
    assert_eq!(spec.check_delivery().unwrap_err().code, ErrorCode::UnsupportedRestore);
}

#[test]
fn n2_empty_sql_is_invalid_argument() {
    let mut spec =
        file_spec("/tmp/n2.ndjson", "SELECT device_id FROM sensors", "restart_fresh", None);
    spec.sql = text("");
    let err = spec.validate().unwrap_err();
    assert_eq!(err.code, ErrorCode::InvalidArgument);
    spec.sql = text("   \n");
    assert_eq!(spec.validate().unwrap_err().code, ErrorCode::InvalidArgument);
}

fn count_window() -> PlanStage {
    filtered_window(0)
}

fn filtered_window(filter: u64) -> PlanStage {
    PlanStage::Window { operator: 2, kind: WindowKind::Count { size: 2 }, fingerprint: 77, filter }
}

#[test]
fn p0_1_aligned_rejects_or_honors_where_projection() {
    let plan = vec![PlanStage::Transform, filtered_window(41)];
    let spec = file_spec(
        "/data/p.ndjson",
        "SELECT COUNT(*) AS n, device_id FROM sensors WHERE v > 1 GROUP BY device_id, COUNT_WINDOW(2)",
        "aligned",
        Some("/data/p-chk"),
    );
    validate_aligned_plan(&spec, &plan, &facts())
        .expect("aligned+WHERE must be honored (not stripped/rejected)");
    assert_eq!(layout_from_physical(&plan).unwrap().where_fingerprint, 41);
}

#[test]
fn p0_2_pt_aligned_rejected() {
    let plan = vec![PlanStage::Window {
        operator: 2,
        kind: WindowKind::TumblingProcessingTime { micros: 1_000_000 },
        fingerprint: 1,
        filter: 0,
    }];
    let spec = file_spec("/data/p.ndjson", "SELECT 1", "aligned", Some("/data/p-chk"));
    let err = validate_aligned_plan(&spec, &plan, &facts()).unwrap_err();
    assert_eq!(err.code, ErrorCode::UnsupportedRestore);
    assert!(
        err.message.to_ascii_lowercase().contains("processing-time") || err.message.contains("PT"),
        "{}",
        err.message
    );
}

#[test]
fn n16_layout_from_physical_uses_filter_before_window() {
    let mut plan = vec![PlanStage::Transform, filtered_window(41)];
    let before = layout_from_physical(&plan).unwrap();
    assert_ne!(before.where_fingerprint, 0, "WHERE before window must be fingerprinted");
    plan.push(PlanStage::Transform);
    plan.push(filtered_window(99));
    let layout = layout_from_physical(&plan).unwrap();
    assert_eq!(
        layout.where_fingerprint, before.where_fingerprint,
        "trailing Filter after the window must not change the layout fingerprint"
    );
    assert_ne!(layout.where_fingerprint, 99);
    assert_eq!(layout, before);
}

#[test]
fn plans_without_windows_are_not_checkpointed() {
    let e = layout_from_physical(&vec![PlanStage::Other]).unwrap_err();
    assert_eq!(e.code, ErrorCode::FeatureUnavailable);
    assert_eq!(window_from_plan(&vec![PlanStage::Other, count_window()]).unwrap(), 1);
    assert!(check_aligned_stages(&vec![count_window()]).is_ok());
    for bad in [PlanStage::Deduplicate, PlanStage::Lookup] {
        let e = check_aligned_stages(&vec![count_window(), bad]).unwrap_err();
        assert_eq!(e.code, ErrorCode::FeatureUnavailable);
    }
}

#[test]
fn r24_start_failure_is_actual_failed() {
    let mut store = Store::open_memory();
    store.put_stream("sensors", STREAM).unwrap();
    let spec = file_spec("/data/p.ndjson", "SELECT device_id FROM sensors", "aligned", None);
    store.put_pipeline("broken", &spec, None).unwrap();
    request_start(&mut store, "broken", "test").unwrap();
    let mut sup = Supervisor::new(&mut store, false).unwrap();
    // Aligned without a window operator: the start path must fail closed.
    let start = |_: &str| {
        prepare_aligned(&spec, &vec![PlanStage::Other], "/data/p.ndjson", &facts())
            .map(|_| ())
            .map_err(|e| e.message)
    };
    converge(&mut sup, &mut store, 0, &start);
    let actual = store.actual("broken").unwrap();
    assert_eq!(actual.status.as_str(), "failed", "{actual:?}");
    assert!(actual.last_error.is_some());
}

#[test]
fn r10_file_aligned_start_checkpoint_via_supervisor() {
    let mut store = Store::open_memory();
    store.put_stream("sensors", STREAM).unwrap();
    let spec = file_spec(
        "/data/p.ndjson",
        "SELECT COUNT(*) AS n, device_id FROM sensors GROUP BY device_id, COUNT_WINDOW(2)",
        "aligned",
        Some("/data/p-chk"),
    );
    store.put_pipeline("filehot", &spec, None).unwrap();
    request_start(&mut store, "filehot", "test").unwrap();
    let mut sup = Supervisor::new(&mut store, false).unwrap();
    let plan = vec![count_window()];
    let start = |_: &str| {
        prepare_aligned(&spec, &plan, "/data/p.ndjson", &facts()).map(|_| ()).map_err(|e| e.message)
    };
    converge(&mut sup, &mut store, 0, &start);
    let actual = store.actual("filehot").unwrap();
    assert_eq!(actual.status.as_str(), "running", "file+aligned must start: {:?}", actual.last_error);
    sup.check_checkpoint("filehot", true).unwrap();
    let setup = prepare_aligned(&spec, &plan, "/data/p.ndjson", &facts()).unwrap();
    assert_eq!(setup.checkpoint_dir, "/data/p-chk");
    let mut run = AlignedRun::fresh(position(0, 0));
    run.on_batch(position(75, 3), 3);
    let cut = run.cut();
    let snapshot = run.snapshot(&cut, &setup.layout);
    let CheckpointReply::Committed(id) = run.on_committed(Ok(snapshot.checkpoint_id)) else {
        panic!("checkpoint")
    };
    assert!(id >= 1);
}

fn position(offset: u64, index: u64) -> SourcePosition {
    SourcePosition {
        offset_bytes: offset,
        record_index: index,
        identity: SourceIdentity { path: "/data/p.ndjson".to_string(), size: 75, fingerprint: 5 },
    }
}

#[test]
fn n4_stale_barrier_ack_not_used_for_next_checkpoint() {
    let layout = layout_from_physical(&vec![count_window()]).unwrap();
    let mut run = AlignedRun::fresh(position(0, 0));
    run.on_batch(position(50, 2), 2);
    let first = run.cut();
    let timeout = SparrowError::new(ErrorCode::Cancelled, "barrier timed out".to_string());
    assert!(matches!(run.on_abandoned(&first, timeout), CheckpointReply::Failed(_)));
    assert_eq!((run.commits, run.aborts), (0, 1));
    run.on_batch(position(125, 5), 3);
    let second = run.cut();
    assert!(second.checkpoint_id > first.checkpoint_id);
    let snapshot = run.snapshot(&second, &layout);
    let CheckpointReply::Committed(id) = run.on_committed(Ok(snapshot.checkpoint_id)) else {
        panic!("second checkpoint after sink recovers")
    };
    assert!(id >= 2, "timed-out barrier #1 must not be reused, got {id}");
    assert_eq!(snapshot.checkpoint_id, id);
    assert_eq!(snapshot.ingested_rows, 5);
    assert_eq!(snapshot.source.record_index, 5);
    assert_eq!((run.commits, run.aborts), (1, 1));
}

#[test]
fn r4_checkpoint_bound_failure_keeps_job_running_and_retry_can_commit() {
    let mut store = Store::open_memory();
    let sql = "SELECT COUNT(*) AS n, device_id FROM sensors GROUP BY device_id, COUNT_WINDOW(2)";
    let aligned = file_spec("/data/p.ndjson", sql, "aligned", Some("/data/p-chk"));
    store.put_pipeline("small", &aligned, None).unwrap();
    request_start(&mut store, "small", "test").unwrap();
    let mut sup = Supervisor::new(&mut store, false).unwrap();
    converge(&mut sup, &mut store, 0, &ok);
    let layout = layout_from_physical(&vec![count_window()]).unwrap();
    let mut run = AlignedRun::fresh(position(0, 0));
    run.on_batch(position(155, 1), 1);
    for now in 1..3 {
        let cut = run.cut();
        let bound = SparrowError::new(ErrorCode::BoundExceeded, "snapshot too large".to_string());
        let CheckpointReply::Failed(e) = run.on_abandoned(&cut, bound) else { panic!("reply") };
        assert_eq!(e.code, ErrorCode::BoundExceeded);
        converge(&mut sup, &mut store, now, &ok);
        let actual = store.actual("small").unwrap();
        assert_eq!(actual.status.as_str(), "running");
        assert_eq!(actual.consecutive_failures, 0);
    }
    run.on_batch(position(310, 2), 1);
    let cut = run.cut();
    let snapshot = run.snapshot(&cut, &layout);
    let reply = run.on_committed(Ok(snapshot.checkpoint_id));
    assert!(matches!(reply, CheckpointReply::Committed(3)));
    assert_eq!(run.aborts, 2);
    assert_eq!(run.commits, 1);
}

#[test]
fn what_cannot_be_written_or_sent_is_no_checkpoint() {
    let mut run = AlignedRun::fresh(position(0, 0));
    run.on_batch(position(25, 1), 1);
    let full = SparrowError::new(ErrorCode::Internal, "disk full".to_string());
    assert!(matches!(run.on_committed(Err(full)), CheckpointReply::Failed(_)));
    assert_eq!((run.ingested, run.next_id, run.commits, run.aborts), (1, 1, 0, 1));
    assert!(matches!(run.on_no_barrier(), CheckpointReply::Failed(_)));
    let cut = run.cut();
    assert!(matches!(run.on_committed(Ok(cut.checkpoint_id)), CheckpointReply::Committed(1)));
    assert_eq!((run.commits, run.aborts, run.next_id), (1, 1, 2));
}

#[test]
fn a_restore_returns_to_the_cut() {
    let layout = layout_from_physical(&vec![count_window()]).unwrap();
    let mut run = AlignedRun::fresh(position(0, 0));
    run.on_batch(position(50, 2), 2);
    let cut = run.cut();
    let snapshot = run.snapshot(&cut, &layout);
    run.on_committed(Ok(cut.checkpoint_id));
    run.on_batch(position(75, 3), 1);
    let again = AlignedRun::restored(&snapshot, &layout).unwrap();
    assert_eq!((again.position.offset_bytes, again.position.record_index), (50, 2));
    assert_eq!((again.ingested, again.next_id), (2, 2));
    let mut other = layout;
    other.fingerprint += 1;
    assert_eq!(
        AlignedRun::restored(&snapshot, &other).unwrap_err().code,
        ErrorCode::UnsupportedRestore
    );
    let e = || SparrowError::new(ErrorCode::JobFailed, "job".to_string());
    assert_eq!(joined(Err(e()), Ok(())).unwrap_err().message, "job");
    assert!(joined(Ok(()), Err(e())).is_err());
    assert!(joined(Ok(()), Ok(())).is_ok());
}

#[test]
fn a_restore_needs_its_checkpoint() {
    let mut spec = file_spec("/data/p.ndjson", "SELECT 1", "aligned", Some("/data/p-chk"));
    let mut setup =
        prepare_aligned(&spec, &vec![count_window()], "/data/p.ndjson", &facts()).unwrap();
    assert!(!setup.restore);
    let fresh = begin(&setup, None, position(0, 0)).unwrap();
    assert_eq!((fresh.next_id, fresh.ingested, fresh.position.offset_bytes), (1, 0, 0));
    let kind = "checkpoint".to_string();
    spec.restore = Some(RestoreSpec { kind, snapshot_id: None, client_id: None });
    setup = prepare_aligned(&spec, &vec![count_window()], "/data/p.ndjson", &facts()).unwrap();
    assert!(setup.restore);
    let missing = begin(&setup, None, position(0, 0)).unwrap_err();
    assert_eq!(missing.code, ErrorCode::UnsupportedRestore);
    assert_eq!(missing.message, "there is no checkpoint to start from");
    let corrupt = SparrowError::new(ErrorCode::InvalidSchema, "checksum".to_string());
    let e = begin(&setup, Some(Err(corrupt)), position(0, 0)).unwrap_err();
    assert_eq!((e.code, e.message.as_str()), (ErrorCode::InvalidSchema, "checksum"));
    let mut run = AlignedRun::fresh(position(0, 0));
    run.on_batch(position(50, 2), 2);
    let cut = run.cut();
    let snapshot = run.snapshot(&cut, &setup.layout);
    let again = begin(&setup, Some(Ok(snapshot.clone())), position(0, 0)).unwrap();
    assert_eq!((again.position.offset_bytes, again.ingested, again.next_id), (50, 2, 2));
    setup.layout.fingerprint += 1;
    let e = begin(&setup, Some(Ok(snapshot)), position(0, 0)).unwrap_err();
    assert_eq!(e.message, "checkpoint layout does not match the plan");
}

#[test]
fn a_failed_start_leaves_the_running_job() {
    let mut store = Store::open_memory();
    store.put_pipeline("p", &spec(), None).unwrap();
    request_start(&mut store, "p", "test").unwrap();
    let mut sup = Supervisor::new(&mut store, false).unwrap();
    converge(&mut sup, &mut store, 0, &ok);
    store.put_pipeline("p", &spec(), Some("rev-1")).unwrap();
    request_start(&mut store, "p", "test").unwrap();
    let refused = |_: &str| Err("no broker".to_string());
    converge(&mut sup, &mut store, 1, &refused);
    assert_eq!(store.actual("p").unwrap().status.as_str(), "failed");
    sup.check_checkpoint("p", true).unwrap();
    request_start_at(&mut store, "p", "test", Some(1)).unwrap();
    for d in store.list_desired() {
        assert!(matches!(sup.decide(&mut store, &d, 2).unwrap(), Decision::Leave));
    }
    request_stop(&mut store, "p", "test").unwrap();
    for d in store.list_desired() {
        assert!(matches!(sup.decide(&mut store, &d, 3).unwrap(), Decision::Stop));
    }
    sup.on_failed(&mut store, "p", 1, "job ended", 4);
    assert_eq!(sup.check_checkpoint("p", true).unwrap_err().code, ErrorCode::InvalidArgument);
}

#[test]
fn a_hold_outlives_the_attempts_of_others() {
    let mut store = Store::open_memory();
    store.put_pipeline("p", &spec(), None).unwrap();
    request_start(&mut store, "p", "test").unwrap();
    let sup = Supervisor::new(&mut store, true).unwrap();
    assert!(!sup.should_hold_failed(&mut store, "p").unwrap());
    store.set_actual("p", "failed", Some(1), 1, Some("boom")).unwrap();
    for i in 0..100 {
        store.insert_attempt(&format!("other{i}"), 1, "running", None).unwrap();
    }
    assert!(sup.should_hold_failed(&mut store, "p").unwrap());
    assert_eq!(
        store.actual("p").unwrap().last_error.as_deref(),
        Some("held: safe-mode and last attempt failed: boom")
    );
    request_start(&mut store, "p", "test").unwrap();
    assert!(!sup.should_hold_failed(&mut store, "p").unwrap());
}

#[test]
fn checkpoints_go_next_to_the_file() {
    let mut spec = file_spec("/data/p.ndjson", "SELECT 1", "aligned", None);
    assert_eq!(checkpoint_dir(&spec, "/data/p.ndjson"), "/data/p.ndjson.sparrow-chk");
    spec.checkpoint_dir = text("/data/c");
    assert_eq!(checkpoint_dir(&spec, "/data/p.ndjson"), "/data/c");
    let mut outside = facts();
    outside.checkpoint_dir = Ok("/etc/c".to_string());
    assert_eq!(
        prepare_aligned(&spec, &vec![count_window()], "/data/p.ndjson", &outside).unwrap_err().code,
        ErrorCode::PolicyDenied
    );
}

#[test]
fn r23_start_named_uses_desired_revision_not_latest() {
    let mut store = Store::open_memory();
    store.put_stream("sensors", STREAM).unwrap();
    let mut a = file_spec("/data/p.ndjson", "SELECT device_id FROM sensors", "restart_fresh", None);
    store.put_pipeline("rev", &a, None).unwrap();
    a.sql = text("SELECT v FROM sensors");
    store.put_pipeline("rev", &a, Some("rev-1")).unwrap();
    request_start_at(&mut store, "rev", "test", Some(1)).unwrap();
    let desired = store.desired("rev").unwrap();
    assert_eq!(desired.revision, Some(1));
    let loaded = store.get_pipeline_revision("rev", desired.revision.unwrap()).unwrap();
    assert_eq!(loaded.spec.sql.as_deref(), Some("SELECT device_id FROM sensors"));
    let latest = store.get_pipeline("rev").unwrap();
    assert_eq!(latest.latest_revision, 2);
    assert_ne!(loaded.spec.sql, latest.spec.sql);
}

#[test]
fn n1_healthy_start_stop_cycles_not_held() {
    let mut store = Store::open_memory();
    store.put_pipeline("n1cycles", &spec(), None).unwrap();
    let mut sup = Supervisor::new(&mut store, false).unwrap();
    for i in 0..10 {
        request_start(&mut store, "n1cycles", "test").unwrap();
        converge(&mut sup, &mut store, i, &ok);
        let actual = store.actual("n1cycles").unwrap();
        assert_eq!(actual.status.as_str(), "running", "cycle {i} must start: {actual:?}");
        assert_eq!(actual.consecutive_failures, 0);
        request_stop(&mut store, "n1cycles", "test").unwrap();
        converge(&mut sup, &mut store, i, &ok);
        let actual = store.actual("n1cycles").unwrap();
        assert_eq!(actual.status.as_str(), "stopped", "cycle {i} stop: {actual:?}");
    }
    request_start(&mut store, "n1cycles", "test").unwrap();
    converge(&mut sup, &mut store, 10, &ok);
    let actual = store.actual("n1cycles").unwrap();
    assert_eq!(actual.status.as_str(), "running");
    assert!(
        actual.attempt_id >= 16,
        "lifetime attempt_id should have passed the old cap: {}",
        actual.attempt_id
    );
    assert_eq!(actual.consecutive_failures, 0);
    assert!(
        actual.last_error.is_none()
            || !actual.last_error.as_deref().unwrap().starts_with("held:"),
        "{:?}",
        actual.last_error
    );
}

#[test]
fn n1_consecutive_failure_cap_holds_with_error() {
    let mut store = Store::open_memory();
    store.put_pipeline("n1cap", &spec(), None).unwrap();
    for _ in 0..MAX_PIPELINE_ATTEMPTS {
        let attempt = store.actual("n1cap").map(|a| a.attempt_id.saturating_add(1)).unwrap_or(1);
        store.set_actual("n1cap", "failed", Some(1), attempt, Some("boom")).unwrap();
    }
    let before = store.actual("n1cap").unwrap();
    assert!(before.consecutive_failures >= MAX_PIPELINE_ATTEMPTS, "{before:?}");
    store.set_desired("n1cap", "running", Some(1)).unwrap();
    let mut sup = Supervisor::new(&mut store, false).unwrap();
    converge(&mut sup, &mut store, 0, &ok);
    let held = store.actual("n1cap").unwrap();
    assert_ne!(held.status.as_str(), "running", "cap must skip converge start: {held:?}");
    let err = held.last_error.as_deref().unwrap_or("");
    assert!(
        err.contains("held:") && err.contains("consecutive_failures"),
        "held pipeline must record last_error, got {held:?}"
    );
    request_start(&mut store, "n1cap", "test").unwrap();
    assert_eq!(store.actual("n1cap").unwrap().consecutive_failures, 0);
    converge(&mut sup, &mut store, 0, &ok);
    let after = store.actual("n1cap").unwrap();
    assert_eq!(after.status.as_str(), "running", "request_start must clear the hold: {after:?}");
}

#[test]
fn n8_failed_pipeline_backoff_does_not_block_healthy_converge() {
    let mut store = Store::open_memory();
    let sql = "SELECT device_id FROM sensors";
    let fail_spec = file_spec("/data/n8-fail.ndjson", sql, "aligned", None);
    store.put_pipeline("n8fail", &fail_spec, None).unwrap();
    let ok_spec = file_spec("/data/n8-ok.ndjson", sql, "restart_fresh", None);
    store.put_pipeline("n8ok", &ok_spec, None).unwrap();
    let start = |name: &str| {
        if name == "n8ok" {
            return Ok(());
        }
        let plan = vec![PlanStage::Other];
        match prepare_aligned(&fail_spec, &plan, "/data/n8-fail.ndjson", &facts()) {
            Ok(_) => Ok(()),
            Err(e) => Err(e.message),
        }
    };
    let mut sup = Supervisor::new(&mut store, false).unwrap();
    for _ in 0..6 {
        let attempt = store.actual("n8fail").map(|a| a.attempt_id.saturating_add(1)).unwrap_or(1);
        store.set_actual("n8fail", "failed", Some(1), attempt, Some("boom")).unwrap();
    }
    let failed = store.actual("n8fail").unwrap();
    assert_eq!(failed.consecutive_failures, 6, "{failed:?}");
    assert!(retry_backoff(6) >= 2_000, "{}", retry_backoff(6));
    store.set_desired("n8fail", "running", Some(1)).unwrap();
    request_start(&mut store, "n8ok", "test").unwrap();
    converge(&mut sup, &mut store, 0, &start);
    let started = store.actual("n8ok").unwrap();
    assert_eq!(
        started.status.as_str(), "running",
        "healthy start must not wait on the failed sibling backoff: {started:?}"
    );
    request_stop(&mut store, "n8ok", "test").unwrap();
    converge(&mut sup, &mut store, 800, &start);
    let stopped = store.actual("n8ok").unwrap();
    assert_eq!(stopped.status.as_str(), "stopped", "healthy stop: {stopped:?}");
    let still_failed = store.actual("n8fail").unwrap();
    assert_ne!(
        still_failed.status.as_str(), "running",
        "failed pipeline must stay deferred, not start in the same loop: {still_failed:?}"
    );
    assert_eq!(still_failed.consecutive_failures, 6);
    converge(&mut sup, &mut store, 2_560, &start);
    let again = store.actual("n8fail").unwrap();
    assert_eq!(again.status.as_str(), "failed");
    assert_eq!(again.consecutive_failures, 7);
}

#[test]
fn r5_safe_mode_survives_history_eviction_and_catalog_reopen() {
    let mut store = Store::open_memory();
    let mut pipeline =
        file_spec("/data/a.ndjson", "SELECT device_id FROM sensors", "restart_fresh", None);
    pipeline.source.file_contract = text("append_only");
    pipeline.fail_on_decode = true;
    store.put_pipeline("a", &pipeline, None).unwrap();
    store.put_pipeline("noise", &pipeline, None).unwrap();
    request_start(&mut store, "a", "test").unwrap();
    let mut sup = Supervisor::new(&mut store, true).unwrap();
    let jobs_started = Cell::new(0);
    let start = |_: &str| -> Result<(), String> {
        jobs_started.set(jobs_started.get() + 1);
        Ok(())
    };
    converge(&mut sup, &mut store, 0, &start);
    assert_eq!(store.actual("a").unwrap().status.as_str(), "running");
    let mut terminal = false;
    let bad = FilePoll::DecodeError;
    let e = apply_file_poll(bad, FileContract::AppendOnly, &mut terminal, pipeline.fail_on_decode)
        .unwrap_err();
    sup.on_failed(&mut store, "a", 1, &e.message, 0);
    converge(&mut sup, &mut store, 0, &start);
    let failed = store.actual("a").unwrap();
    assert_eq!(failed.status.as_str(), "failed");
    assert!(failed.restart_blocked);
    assert_eq!(failed.consecutive_failures, 1);
    assert!(failed.last_error.unwrap().contains("held: safe-mode"));
    let starts = jobs_started.get();
    assert_eq!(starts, 1);
    for _ in 0..100 {
        store.insert_attempt("noise", 1, "waiting", Some("capacity")).unwrap();
    }
    assert!(store.last_attempt("a").is_none());
    converge(&mut sup, &mut store, 10_000, &start);
    assert_eq!(store.actual("a").unwrap().status.as_str(), "failed");
    assert_eq!(jobs_started.get(), starts);

    let mut sup = Supervisor::new(&mut store, true).unwrap();
    converge(&mut sup, &mut store, 20_000, &start);
    let held = store.actual("a").unwrap();
    assert_eq!(held.status.as_str(), "stopped");
    assert!(held.restart_blocked);
    assert!(held.last_error.unwrap().contains("fail_on_decode"));
    assert_eq!(jobs_started.get(), starts);

    request_start(&mut store, "a", "test").unwrap();
    assert!(!store.actual("a").unwrap().restart_blocked);
    converge(&mut sup, &mut store, 20_000, &start);
    assert_eq!(store.actual("a").unwrap().status.as_str(), "running");
    assert_eq!(store.actual("a").unwrap().consecutive_failures, 0);
    assert_eq!(jobs_started.get(), starts + 1);
}

#[test]
fn r4_host_capacity_waiting_and_configurable_seventeenth_job() {
    for capacity in [16u64, 32] {
        let mut store = Store::open_memory();
        for i in 0..17 {
            let name = format!("p{i:02}");
            store.put_pipeline(&name, &spec(), None).unwrap();
            request_start(&mut store, &name, "test").unwrap();
        }
        let mut sup = Supervisor::new(&mut store, false).unwrap();
        let round = |sup: &mut Supervisor, store: &mut Store, now: u64| {
            for d in store.list_desired() {
                match sup.decide(store, &d, now).unwrap() {
                    Decision::Leave => {}
                    Decision::Start(rev) => {
                        let admitted = sup.running.len() as u64;
                        if admitted < capacity {
                            sup.begin_start(store, &d.name, rev, "restart_fresh").unwrap();
                            sup.on_started(store, &d.name, rev, "restart_fresh").unwrap();
                        } else {
                            sup.on_no_room(store, &d.name, rev, admitted, capacity, now);
                        }
                    }
                    Decision::Stop | Decision::ShowStopped => {
                        sup.on_stopped(store, &d.name, d.revision, None);
                    }
                }
            }
        };
        round(&mut sup, &mut store, 0);
        let actual = store.actual("p16").unwrap();
        assert_eq!(actual.consecutive_failures, 0);
        assert_eq!(sup.running.len() as u64, capacity.min(17));
        if capacity == 16 {
            assert_eq!(actual.status.as_str(), "waiting");
            assert!(actual.last_error.unwrap().contains("capacity: 16/16 jobs admitted"));
            assert_eq!(store.last_attempt("p16").unwrap().outcome, "waiting");
            round(&mut sup, &mut store, 1);
            assert_eq!(store.actual("p16").unwrap().attempt_id, actual.attempt_id);
            // Stop while waiting must not remain visibly waiting forever.
            request_stop(&mut store, "p16", "test").unwrap();
            round(&mut sup, &mut store, 2);
            assert_eq!(store.actual("p16").unwrap().status.as_str(), "stopped");
            request_stop(&mut store, "p00", "test").unwrap();
            request_start(&mut store, "p16", "test").unwrap();
            round(&mut sup, &mut store, 3);
        }
        assert_eq!(store.actual("p16").unwrap().status.as_str(), "running");
    }
    for invalid in ["", "0", "257", "-1", "abc", "999999999999999999999999"] {
        assert!(parse_max_jobs(invalid).is_err());
    }
    for valid in ["1", "16", "32", "256"] {
        assert!(parse_max_jobs(valid).is_ok());
    }
}

#[test]
fn pauses_never_shrink() {
    let retries: Vec<u64> = (0..9).map(retry_backoff).collect();
    assert_eq!(retries, vec![40, 80, 160, 320, 640, 1280, 2560, 2560, 2560]);
    let waits: Vec<u64> = (0..6).map(capacity_backoff).collect();
    assert_eq!(waits, vec![500, 1000, 2000, 4000, 5000, 5000]);
}

#[test]
fn checkpoints_need_an_aligned_job() {
    let mut store = Store::open_memory();
    store.put_pipeline("p", &spec(), None).unwrap();
    let mut sup = Supervisor::new(&mut store, false).unwrap();
    assert_eq!(
        sup.check_checkpoint("p", true).unwrap_err().message,
        "pipeline `p` is not running"
    );
    request_start(&mut store, "p", "test").unwrap();
    converge(&mut sup, &mut store, 0, &ok);
    assert_eq!(
        sup.check_checkpoint("p", false).unwrap_err().code,
        ErrorCode::FeatureUnavailable
    );
    sup.on_completed(&mut store, "p", 1);
    assert_eq!(store.actual("p").unwrap().status, PipelineStatus::Completed);
    let d = store.desired("p").unwrap();
    assert_eq!(sup.decide(&mut store, &d, 0).unwrap(), Decision::Leave);
    assert_eq!(note_of(&spec()).unwrap(), "restart_fresh");
    let mut aligned = spec();
    aligned.recovery = "aligned".to_string();
    assert_eq!(note_of(&aligned).unwrap(), "aligned; not exactly-once");
    assert!(request_start(&mut store, "absent", "test").is_err());
    assert!(request_stop(&mut store, "absent", "test").is_err());
}

#[test]
fn specifications_are_read_and_checked() {
    let parse = |b: &[u8]| -> Result<PipelineSpec, String> {
        if b == b"{}" { Ok(spec()) } else { Err("bad".to_string()) }
    };
    PipelineSpec::from_json(b"{}", &parse).unwrap();
    assert!(PipelineSpec::from_json(b"x", &parse).unwrap_err().message.contains("bad"));
    assert_eq!(
        PipelineSpec::from_json(&vec![b' '; 65537], &parse).unwrap_err().code,
        ErrorCode::MaxRecordSize
    );
    let streams = |_: &[u8]| -> Result<StreamSpec, String> { Err("no".to_string()) };
    assert_eq!(
        StreamSpec::from_json(b"x", &streams).unwrap_err().message,
        "stream spec JSON: no"
    );
    let mut s = spec();
    s.version = 2;
    assert_eq!(s.basic_check().unwrap_err().code, ErrorCode::FeatureUnavailable);
    let mut s = spec();
    s.graph = text("{}");
    assert_eq!(s.basic_check().unwrap_err().code, ErrorCode::InvalidArgument);
    assert_eq!(SpecDefaults::one(), 1);
    assert_eq!(SpecDefaults::default_inbox(), 16);
    assert_eq!(SpecDefaults::default_topic(), "sensors/json");
    assert_eq!(SpecDefaults::live(), "live_best_effort");
    assert_eq!(SpecDefaults::fresh(), "restart_fresh");
    let bound = bind_plan(&spec(), "a", 3).unwrap();
    assert_eq!((bound.pipeline, bound.revision), (0xe40c292c, 3));
    match bound.query {
        Query::Sql(q) => assert_eq!(q, "SELECT device_id FROM sensors"),
        other => panic!("{other:?}"),
    }
}

#[test]
fn settings_come_from_the_specification() {
    assert_eq!(name_id(""), 0x811c9dc5);
    assert_eq!(name_id("a"), 0xe40c292c);
    assert_eq!(replay_label_for_source("file"), "replayable");
    assert_eq!(replay_label_for_source("mqtt"), "unsupported");
    assert!(reject_named_delivery("exactly_once").is_err());
    assert!(honesty_text().contains("live_best_effort"));
    assert_eq!(honesty_json().honesty, honesty_text());
    assert_eq!(honesty_json().exactly_once, "rejected");
    assert_eq!(honesty_json().replay_mqtt, "unsupported");
    assert_eq!(capabilities_json().recovery_pt_window, "none");
    assert_eq!(capabilities_json().recovery_aligned, "aligned");
    let mut s = spec();
    assert_eq!(resolve_file_contract(&s).unwrap(), FileContract::AppendOnly);
    s.source.file_contract = text(" sealed ");
    assert_eq!(resolve_file_contract(&s).unwrap(), FileContract::Sealed);
    s.source.file_contract = text("poison");
    assert!(resolve_file_contract(&s).is_err());
    let mut src = mqtt_source();
    src.kind = "http_push".to_string();
    src.bind = text("127.0.0.1:8081");
    src.path = text("/in");
    let push = http_push_config(&src, schema());
    assert_eq!((push.bind.as_str(), push.path.as_str()), ("127.0.0.1:8081", "/in"));
    let mut sink = http_sink("");
    sink.kind = "mqtt".to_string();
    sink.host = text("h");
    sink.port = Some(1884);
    sink.topic = text("out");
    let cfg = mqtt_sink_config(&sink, None).unwrap();
    assert_eq!((cfg.host.as_str(), cfg.port, cfg.topic.as_str()), ("h", 1884, "out"));
    sink.host = None;
    assert!(mqtt_sink_config(&sink, None).is_err());
    let kinds: Vec<&str> = capabilities_json().connectors.iter().map(|c| c.kind).collect();
    assert_eq!(kinds, vec!["mqtt", "http", "http_push", "mqtt_sink", "file"]);
}

#[test]
fn connectors_are_checked_before_a_start() {
    let mut store = Store::open_memory();
    store.put_allow("127.0.0.1", 1883).unwrap();
    store.put_allow("127.0.0.1", 9).unwrap();
    let policy = store_policy(&store, None);
    let secrets = MapSecretResolver::empty();
    validate_io(&spec(), &schema(), &secrets, &policy, None, &facts(), 1, 1).unwrap();
    let denied = TargetPolicy::deny_all();
    assert_eq!(
        validate_io(&spec(), &schema(), &secrets, &denied, None, &facts(), 1, 1).unwrap_err().code,
        ErrorCode::PolicyDenied
    );
    let mut odd = spec();
    odd.source.kind = "carrier-pigeon".to_string();
    assert!(validate_io(&odd, &schema(), &secrets, &policy, None, &facts(), 1, 1).is_err());
    let mut odd = spec();
    odd.sink.kind = "void".to_string();
    assert!(validate_io(&odd, &schema(), &secrets, &policy, None, &facts(), 1, 1).is_err());
    let file = file_spec("/data/p.ndjson", "SELECT 1", "restart_fresh", None);
    validate_io(&file, &schema(), &secrets, &policy, None, &facts(), 1, 1).unwrap();
    let demo = DemoEndpoints {
        mqtt_host: "127.0.0.1".to_string(),
        mqtt_port: 5,
        http_url: "http://127.0.0.1:6/ingest".to_string(),
        http_port: 6,
    };
    let with_demo = store_policy(&store, Some(&demo));
    assert!(with_demo.check_host_port("127.0.0.1", 6).is_ok());
    let mut d = spec();
    d.source.use_demo_io = true;
    d.sink.use_demo_io = true;
    validate_io(&d, &schema(), &secrets, &with_demo, Some(&demo), &facts(), 1, 1).unwrap();
    assert!(validate_io(&d, &schema(), &secrets, &with_demo, None, &facts(), 1, 1).is_err());
}

#[test]
fn secrets_of_the_catalog_are_resolved() {
    let mut store = Store::open_memory();
    store.put_secret("pw", "value").unwrap();
    let env = vec![("TOKEN".to_string(), "t".to_string())];
    let secrets = StoreSecrets::new(&store, &env);
    assert_eq!(secrets.resolve("pw").unwrap(), "value");
    assert_eq!(secrets.resolve("env:TOKEN").unwrap(), "t");
    assert_eq!(secrets.resolve("none").unwrap_err().code(), ErrorCode::SecretMissing);
    assert_eq!(secrets.resolve("env:NONE").unwrap_err().code(), ErrorCode::SecretMissing);
}

#[test]
fn stored_streams_become_schemas() {
    let parse = |t: &str| -> Result<Vec<Field>, String> {
        if t == STREAM { Ok(schema().fields) } else { Err("not a stream".to_string()) }
    };
    let mut store = Store::open_memory();
    store.put_stream("sensors", STREAM).unwrap();
    let row = store.get_stream("sensors").unwrap();
    let s = stream_to_schema(&row, &parse).unwrap();
    assert_eq!(s.id, name_id("sensors"));
    assert_eq!(s.fields[0].name, "device_id");
    let all = binder_catalog(&store, &parse).unwrap();
    assert_eq!(all[0].0, "sensors");
    store.put_stream("bad", "{}").unwrap();
    let e = binder_catalog(&store, &parse).unwrap_err();
    assert_eq!((e.code, e.message.as_str()), (ErrorCode::InvalidSchema, "stream schema: not a stream"));
}

#[test]
fn a_catalog_of_another_version_is_refused() {
    assert!(check_catalog_version(0).unwrap());
    assert!(!check_catalog_version(1).unwrap());
    let e = check_catalog_version(7).unwrap_err();
    assert_eq!(e.code, ErrorCode::FeatureUnavailable);
    assert_eq!(e.message, "catalog_schema_version 7 is not supported (want 1)");
}

#[test]
fn kinds_stand_for_connectors() {
    let plan = vec![count_window()];
    let mut s = spec();
    s.fail_on_decode = true;
    s.source.inbox_capacity = 0;
    assert_eq!(channels(&s).inbox, 1);
    assert_eq!(channels(&s).outbox, 8);
    match wire_source(&s, schema(), &plan, None, &facts(), "p", 7, 9).unwrap() {
        SourceWiring::Mqtt(c) => {
            assert_eq!(c.client_id, "sparrow-p-7-9");
            assert!(c.fail_on_decode);
        }
        other => panic!("{other:?}"),
    }
    s.source.kind = "http_push".to_string();
    match wire_source(&s, schema(), &plan, None, &facts(), "p", 7, 9).unwrap() {
        SourceWiring::Push(c) => assert_eq!(c.bind, "127.0.0.1:0"),
        other => panic!("{other:?}"),
    }
    s.source.kind = "kafka".to_string();
    let e = wire_source(&s, schema(), &plan, None, &facts(), "p", 7, 9).unwrap_err();
    assert_eq!(e.code, ErrorCode::FeatureUnavailable);
    assert_eq!(e.message, "source kind `kafka` is not wired on the live path");

    let mut s = file_spec("/data/p.ndjson", "SELECT 1", "aligned", None);
    match wire_source(&s, schema(), &plan, None, &facts(), "p", 7, 9).unwrap() {
        SourceWiring::Aligned(c, a) => {
            assert_eq!(c.contract.as_str(), "append_only");
            assert_eq!(a.checkpoint_dir, "/data/p.ndjson.sparrow-chk");
            assert!(!a.restore);
        }
        other => panic!("{other:?}"),
    }
    s.recovery = "restart_fresh".to_string();
    assert!(matches!(
        wire_source(&s, schema(), &plan, None, &facts(), "p", 7, 9).unwrap(),
        SourceWiring::File(_)
    ));
    s.source.path = None;
    let e = wire_source(&s, schema(), &plan, None, &facts(), "p", 7, 9).unwrap_err();
    assert_eq!(e.message, "file source requires source.path");

    assert!(matches!(wire_sink(&s.sink, None).unwrap(), SinkWiring::Log(64)));
    assert!(matches!(
        wire_sink(&http_sink("http://127.0.0.1:9/x"), None).unwrap(),
        SinkWiring::Http(_)
    ));
    let mut m = http_sink("");
    m.kind = "mqtt".to_string();
    assert_eq!(wire_sink(&m, None).unwrap_err().message, "MQTT sink host is required");
    m.host = text("127.0.0.1");
    m.port = Some(1883);
    assert!(matches!(wire_sink(&m, None).unwrap(), SinkWiring::Mqtt(_)));
}

fn prepared(store: &Store, revision: u64, stages: &[u64]) -> Result<StartPlan, SparrowError> {
    let env = Vec::new();
    let parse = |t: &str| if t == STREAM { Ok(schema().fields) } else { Err("bad".to_string()) };
    let ask = |_: &PipelineSpec| facts();
    let plan = |bound: &Bound, streams: &Vec<(String, Schema)>| {
        assert_eq!((bound.pipeline, bound.revision), (u64::from(name_id("p")), revision));
        assert!(streams.iter().any(|s| s.0 == "sensors"));
        if stages.is_empty() {
            Err(SparrowError::new(ErrorCode::InvalidArgument, "no plan".to_string()))
        } else {
            Ok(vec![count_window()])
        }
    };
    let secrets = StoreSecrets::new(store, &env);
    prepare_start(store, "p", revision, &secrets, None, &parse, &ask, &plan, 1, 2)
}

#[test]
fn a_start_is_prepared_from_the_catalog() {
    let mut store = Store::open_memory();
    let e = prepared(&store, 1, &[1]).unwrap_err();
    assert_eq!(e.message, "unknown pipeline `p`");
    store.put_pipeline("p", &spec(), None).unwrap();
    assert_eq!(prepared(&store, 1, &[1]).unwrap_err().message, "unknown stream `sensors`");
    store.put_stream("sensors", STREAM).unwrap();
    store.put_stream("zzz", "{}").unwrap();
    let e = prepared(&store, 1, &[1]).unwrap_err();
    assert_eq!((e.code, e.message.as_str()), (ErrorCode::InvalidSchema, "stream schema: bad"));
    store.put_stream("zzz", STREAM).unwrap();
    let e = prepared(&store, 1, &[1]).unwrap_err();
    assert_eq!(e.code, ErrorCode::PolicyDenied, "the broker is not on the allowlist");
    store.put_allow("127.0.0.1", 1883).unwrap();
    store.put_allow("127.0.0.1", 9).unwrap();
    assert_eq!(prepared(&store, 1, &[]).unwrap_err().message, "no plan");
    let plan = prepared(&store, 1, &[1]).unwrap();
    assert_eq!(plan.streams.len(), 2);
    assert_eq!(plan.policy.allowed.len(), 2);
    assert_eq!(plan.schema.fields.len(), 1);
    assert!(matches!(plan.bound.query, Query::Sql(_)));
    assert!(prepared(&store, 2, &[1]).unwrap_err().message.contains("has no revision 2"));
}

#[test]
fn a_server_has_four_to_sixteen_threads() {
    assert_eq!(compact_kernel().worker_threads, 2);
    assert_eq!(compact_kernel().mailbox_items, 8);
    for (found, threads) in [(None, 4), (Some(1), 4), (Some(7), 7), (Some(64), 16)] {
        assert_eq!(host_kernel(found).worker_threads, threads);
    }
    assert_eq!(host_kernel(None).mailbox_bytes, 256 * 1024);
}
