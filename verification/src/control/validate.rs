//! From a specification to the settings of its connectors, and whether they may
//! be used.

use super::plan::{aligned_fault, check_aligned_stages, first_window, no_window, PlanStage};
use super::secrets::unsealed;
use super::spec::{copied, file_kind, is_file_kind, PipelineSpec, SinkSpec, SourceSpec};
use super::store::{targets, Catalog, Store, StreamRow};
use crate::capabilities::{
    durable_fault, qos_fault, refuse_delivery_name, refuse_durable_recovery, refuse_qos_durable,
    ConnectorCapabilities, DeliveryGuarantee, RecoveryPolicy, ReplaySupport, RestoreClaim,
};
use crate::error::{io, ConnectorError};
use crate::file_replay::{FileContract, FileReplayConfig};
use crate::http::push::HttpPushSourceConfig;
use crate::http::sink::HttpSinkConfig;
use crate::model::{err, fault, outcome, ErrorCode, Fault, Field, Schema, SparrowError};
use crate::mqtt::sink::MqttSinkConfig;
use crate::mqtt::source::MqttSourceConfig;
use crate::policy::{
    check_data_path_in, path_fault, resolved_seen, url_parts, AllowedTarget, TargetPolicy,
};
use crate::secret::{find, found, SecretResolver};
use crate::text::{
    begins, cat2, cat3, dec, decimal, same, starts_with, strip_prefix, texts, trim, trimmed,
};
use crate::tls::TlsConfig;
use vstd::prelude::*;
use vstd::string::*;
use vstd::utf8::encode_utf8;

verus! {

/// The broker and the receiver that a server runs for demonstrations.
#[derive(Debug)]
pub struct DemoEndpoints {
    pub mqtt_host: String,
    pub mqtt_port: u16,
    pub http_url: String,
    pub http_port: u16,
}

/// What the runtime promises, in words.
pub open spec fn honesty() -> Seq<char> {
    "V1 default is live_best_effort + restart_fresh (recovery=none). aligned is the production ReplayableSource checkpoint path (not exactly-once; recover from verified committed manifests only). MQTT replay remains unsupported; MQTT cannot pretend durable restore."@
}

/// What the runtime promises, in words.
pub fn honesty_text() -> (r: &'static str)
    ensures
        r@ == honesty(),
{
    "V1 default is live_best_effort + restart_fresh (recovery=none). aligned is the production ReplayableSource checkpoint path (not exactly-once; recover from verified committed manifests only). MQTT replay remains unsupported; MQTT cannot pretend durable restore."
}

/// One step of the hash of a name.
pub open spec fn fnv32_step(h: u32, b: u8) -> u32 {
    (h ^ (b as u32)).wrapping_mul(0x01000193)
}

/// The hash of bytes.
pub open spec fn fnv32(b: Seq<u8>) -> u32
    decreases b.len(),
{
    if b.len() == 0 {
        0x811c9dc5
    } else {
        fnv32_step(fnv32(b.drop_last()), b.last())
    }
}

/// The number of a name; never zero.
pub open spec fn name_number(name: Seq<char>) -> u32 {
    let h = fnv32(encode_utf8(name));
    if h == 0 {
        1
    } else {
        h
    }
}

/// The number of a name; never zero.
pub fn name_id(name: &str) -> (r: u32)
    ensures
        r == name_number(name@),
        r != 0,
{
    let b: &[u8] = name.as_bytes();
    let mut h: u32 = 0x811c9dc5;
    let mut i: usize = 0;
    assert(b@.take(0) =~= Seq::<u8>::empty());
    while i < b.len()
        invariant
            i <= b.len(),
            h == fnv32(b@.take(i as int)),
        decreases b.len() - i,
    {
        assert(b@.take(i + 1).drop_last() =~= b@.take(i as int));
        assert(b@.take(i + 1).last() == b@[i as int]);
        h = (h ^ (b[i] as u32)).wrapping_mul(0x01000193);
        i = i + 1;
    }
    assert(b@.take(i as int) =~= b@);
    if h == 0 {
        1
    } else {
        h
    }
}

/// The query of a pipeline.
#[derive(Debug)]
pub enum Query {
    Sql(String),
    Graph(String),
}

/// What a stored stream is read as, given what its text says: the number of its
/// name identifies it.
pub open spec fn schema_read(
    name: Seq<char>,
    reply: Result<Vec<Field>, String>,
    r: Result<Schema, SparrowError>,
) -> bool {
    match reply {
        Ok(fields) => r is Ok && r->Ok_0.id == name_number(name) && r->Ok_0.fields == fields,
        Err(t) => r is Err && r->Err_0@ == fault(
            ErrorCode::InvalidSchema,
            "stream schema: "@ + t@,
        ),
    }
}

/// Whether a stream may be read so with a parser of its text.
pub open spec fn stream_read<P: Fn(&str) -> Result<Vec<Field>, String>>(
    parse: P,
    name: Seq<char>,
    json: Seq<char>,
    r: Result<Schema, SparrowError>,
) -> bool {
    exists|text: &str, reply: Result<Vec<Field>, String>|
        text@ == json && #[trigger] call_ensures(parse, (text,), reply) && schema_read(
            name,
            reply,
            r,
        )
}

/// Reads the columns of a stored stream with a parser that gives them or the
/// text of its error.
pub fn stream_to_schema<P: Fn(&str) -> Result<Vec<Field>, String>>(row: &StreamRow, parse: &P) -> (r:
    Result<Schema, SparrowError>)
    requires
        forall|t: &str| #[trigger] call_requires(*parse, (t,)),
    ensures
        stream_read(*parse, row.name@, row.schema_json@, r),
{
    let text: &str = row.schema_json.as_str();
    let reply: Result<Vec<Field>, String> = parse(text);
    let ghost seen = reply;
    assert(call_ensures(*parse, (text,), seen));
    let r: Result<Schema, SparrowError> = match reply {
        Ok(fields) => Ok(Schema { id: name_id(row.name.as_str()), fields }),
        Err(t) => Err(
            SparrowError::new(ErrorCode::InvalidSchema, cat2("stream schema: ", t.as_str())),
        ),
    };
    assert(schema_read(row.name@, seen, r));
    r
}

/// Whether a stream may turn out to be readable with a parser of its text.
pub open spec fn readable<P: Fn(&str) -> Result<Vec<Field>, String>>(
    parse: P,
    name: Seq<char>,
    json: Seq<char>,
) -> bool {
    exists|s: Schema| #[trigger] stream_read(parse, name, json, Ok(s))
}

/// What reading all streams may give: each with its columns, or the fault of the
/// first one that cannot be read.
pub open spec fn streams_read<P: Fn(&str) -> Result<Vec<Field>, String>>(
    parse: P,
    store: Store,
    r: Result<Vec<(String, Schema)>, SparrowError>,
) -> bool {
    let names = store.streams.names();
    match r {
        Ok(v) => {
            &&& v@.len() == names.len()
            &&& forall|i: int|
                0 <= i < v@.len() ==> (#[trigger] v@[i]).0@ == names[i] && stream_read(
                    parse,
                    v@[i].0@,
                    store@.streams[v@[i].0@],
                    Ok(v@[i].1),
                )
        },
        Err(e) => exists|i: int|
            0 <= i < names.len() && stream_read(
                parse,
                #[trigger] names[i],
                store@.streams[names[i]],
                Err(e),
            ) && forall|j: int|
                0 <= j < i ==> readable(parse, #[trigger] names[j], store@.streams[names[j]]),
    }
}

/// The streams that a query may read from, by name. The first one that cannot be
/// read decides.
pub fn binder_catalog<P: Fn(&str) -> Result<Vec<Field>, String>>(store: &Store, parse: &P) -> (r:
    Result<Vec<(String, Schema)>, SparrowError>)
    requires
        store.wf(),
        forall|t: &str| #[trigger] call_requires(*parse, (t,)),
    ensures
        streams_read(*parse, *store, r),
{
    let rows: Vec<StreamRow> = store.list_streams();
    let mut out: Vec<(String, Schema)> = Vec::new();
    let mut i: usize = 0;
    while i < rows.len()
        invariant
            i <= rows.len(),
            out@.len() == i,
            rows@.len() == store.streams.names().len(),
            forall|j: int|
                0 <= j < rows@.len() ==> (#[trigger] rows@[j]).name@ == store.streams.names()[j]
                    && rows@[j].schema_json@ == store@.streams[store.streams.names()[j]],
            forall|t: &str| #[trigger] call_requires(*parse, (t,)),
            forall|j: int|
                0 <= j < out@.len() ==> (#[trigger] out@[j]).0@ == store.streams.names()[j]
                    && stream_read(*parse, out@[j].0@, store@.streams[out@[j].0@], Ok(out@[j].1)),
        decreases rows.len() - i,
    {
        assert(rows@[i as int].name@ == store.streams.names()[i as int]);
        match stream_to_schema(&rows[i], parse) {
            Ok(schema) => {
                out.push((rows[i].name.clone(), schema));
            },
            Err(e) => {
                let ghost names = store.streams.names();
                assert forall|j: int| 0 <= j < i implies readable(
                    *parse,
                    #[trigger] names[j],
                    store@.streams[names[j]],
                ) by {
                    assert(stream_read(
                        *parse,
                        out@[j].0@,
                        store@.streams[out@[j].0@],
                        Ok(out@[j].1),
                    ));
                }
                assert(stream_read(
                    *parse,
                    names[i as int],
                    store@.streams[names[i as int]],
                    Err(e),
                ));
                return Err(e);
            },
        }
        i = i + 1;
    }
    Ok(out)
}

/// What the runtime promises as a whole.
#[derive(Clone, Copy, Debug)]
pub struct Promise {
    pub delivery: &'static str,
    pub recovery: &'static str,
    pub recovery_aligned: &'static str,
    pub replay_mqtt: &'static str,
    pub replay_file: &'static str,
    pub exactly_once: &'static str,
    pub honesty: &'static str,
}

/// What the runtime promises as a whole; who serves it writes it as an object of
/// these members.
pub fn honesty_json() -> (r: Promise)
    ensures
        r.delivery@ == "live_best_effort"@,
        r.recovery@ == "restart_fresh"@,
        r.recovery_aligned@ == "aligned"@,
        r.replay_mqtt@ == "unsupported"@,
        r.replay_file@ == "replayable"@,
        r.exactly_once@ == "rejected"@,
        r.honesty@ == honesty(),
{
    Promise {
        delivery: DeliveryGuarantee::LiveBestEffort.as_str(),
        recovery: RecoveryPolicy::RestartFresh.as_str(),
        recovery_aligned: RecoveryPolicy::Aligned.as_str(),
        replay_mqtt: ReplaySupport::Unsupported.as_str(),
        replay_file: ReplaySupport::Replayable.as_str(),
        exactly_once: "rejected",
        honesty: honesty_text(),
    }
}

/// What the runtime and each of its connectors declare.
#[derive(Debug)]
pub struct Declared {
    pub delivery: &'static str,
    pub recovery: &'static str,
    pub recovery_pt_window: &'static str,
    pub recovery_aligned: &'static str,
    pub exactly_once: &'static str,
    /// The live connectors, and last the file source, which alone recovers from
    /// aligned checkpoints.
    pub connectors: Vec<ConnectorCapabilities>,
    pub honesty: &'static str,
}

/// What the runtime and each of its connectors declare; who serves it writes it
/// as an object of these members.
pub fn capabilities_json() -> (r: Declared)
    ensures
        r.delivery@ == "live_best_effort"@,
        r.recovery@ == "restart_fresh"@,
        r.recovery_pt_window@ == "none"@,
        r.recovery_aligned@ == "aligned"@,
        r.exactly_once@ == "rejected"@,
        r.honesty@ == honesty(),
        r.connectors@.len() == 5,
        r.connectors@[0].live("mqtt"@),
        r.connectors@[1].live("http"@),
        r.connectors@[2].live("http_push"@),
        r.connectors@[3].live("mqtt_sink"@),
        r.connectors@[4].kind@ == "file"@,
        r.connectors@[4].replay == ReplaySupport::Replayable,
        r.connectors@[4].delivery == DeliveryGuarantee::LiveBestEffort,
        r.connectors@[4].recovery == RecoveryPolicy::Aligned,
{
    let mut connectors: Vec<ConnectorCapabilities> = Vec::new();
    connectors.push(ConnectorCapabilities::mqtt_source());
    connectors.push(ConnectorCapabilities::http_sink());
    connectors.push(ConnectorCapabilities::http_push());
    connectors.push(ConnectorCapabilities::mqtt_sink());
    connectors.push(ConnectorCapabilities::file_replay());
    Declared {
        delivery: DeliveryGuarantee::LiveBestEffort.as_str(),
        recovery: RecoveryPolicy::RestartFresh.as_str(),
        recovery_pt_window: "none",
        recovery_aligned: RecoveryPolicy::Aligned.as_str(),
        exactly_once: "rejected",
        connectors,
        honesty: honesty_text(),
    }
}

/// What is handed to the planner: the query, the number of the pipeline and the
/// revision.
#[derive(Debug)]
pub struct Bound {
    pub query: Query,
    pub pipeline: u64,
    pub revision: u64,
}

/// What is handed to the planner, where the specification can be kept. The
/// pipeline goes by the number of its name.
pub open spec fn bound_plan(s: PipelineSpec, name: Seq<char>, revision: u64) -> Result<
    Bound,
    Fault,
> {
    match s.fault() {
        Some(f) => Err(f),
        None => match s.promised() {
            Err(f) => Err(f),
            Ok(_) => Ok(
                Bound {
                    query: match s.sql {
                        Some(q) => Query::Sql(q),
                        None => Query::Graph(s.graph->0),
                    },
                    pipeline: name_number(name) as u64,
                    revision,
                },
            ),
        },
    }
}

/// What is handed to the planner, where the specification can be kept.
pub fn bind_plan(spec: &PipelineSpec, name: &str, revision: u64) -> (r: Result<
    Bound,
    SparrowError,
>)
    ensures
        outcome(r) == bound_plan(*spec, name@, revision),
{
    match spec.basic_check() {
        Ok(()) => {},
        Err(e) => {
            return Err(e);
        },
    }
    match spec.check_delivery() {
        Ok(_) => {},
        Err(e) => {
            return Err(e);
        },
    }
    let query: Query = match (&spec.sql, &spec.graph) {
        (Some(q), _) => Query::Sql(q.clone()),
        (None, Some(g)) => Query::Graph(g.clone()),
        (None, None) => {
            return Err(err(ErrorCode::InvalidArgument, "exactly one of sql or graph"));
        },
    };
    Ok(Bound { query, pipeline: name_id(name) as u64, revision })
}

/// Whether a source of the kind can be read again, in words.
pub open spec fn replay_label(kind: Seq<char>) -> Seq<char> {
    if is_file_kind(kind) {
        "replayable"@
    } else if kind == "mqtt"@ || kind == "mqtt_source"@ || kind == "http_push"@ || kind
        == "http"@ {
        "unsupported"@
    } else {
        "unbound"@
    }
}

/// Whether a source of the kind can be read again, in words.
pub fn replay_label_for_source(kind: &str) -> (r: &'static str)
    ensures
        r@ == replay_label(kind@),
{
    if file_kind(kind) {
        "replayable"
    } else if same(kind, "mqtt") || same(kind, "mqtt_source") || same(kind, "http_push") || same(
        kind,
        "http",
    ) {
        "unsupported"
    } else {
        "unbound"
    }
}

/// The targets of a policy by what they hold.
pub open spec fn policy_targets(allowed: Seq<AllowedTarget>) -> Seq<(Seq<char>, u16)> {
    allowed.map_values(|t: AllowedTarget| (t.host@, t.port))
}

/// The targets that a server adds for demonstrations.
pub open spec fn demo_targets(demo: Option<&DemoEndpoints>) -> Seq<(Seq<char>, u16)> {
    match demo {
        Some(d) => seq![(d.mqtt_host@, d.mqtt_port), ("127.0.0.1"@, d.http_port)],
        None => Seq::empty(),
    }
}

/// The policy that the catalog's allowlist makes: nothing but what it lists, and
/// the demonstration's own endpoints.
pub fn store_policy(store: &Store, demo: Option<&DemoEndpoints>) -> (r: TargetPolicy)
    ensures
        policy_targets(r.allowed@) == store@.allowed + demo_targets(demo),
{
    let list: &Vec<(String, u16)> = store.allowlist();
    let ghost all = targets(list@);
    let mut p: TargetPolicy = TargetPolicy::deny_all();
    let mut i: usize = 0;
    assert(policy_targets(p.allowed@) =~= all.take(0));
    while i < list.len()
        invariant
            i <= list.len(),
            all == targets(list@),
            policy_targets(p.allowed@) == all.take(i as int),
        decreases list.len() - i,
    {
        let ghost had = p.allowed@;
        p = p.with_allow(list[i].0.as_str(), list[i].1);
        proof {
            assert(p.allowed@ =~= had.push(p.allowed@.last()));
            assert(policy_targets(p.allowed@) =~= policy_targets(had).push(all[i as int]));
            assert(all.take(i + 1) =~= all.take(i as int).push(all[i as int]));
        }
        i = i + 1;
    }
    assert(all.take(i as int) =~= all);
    match demo {
        Some(d) => {
            let ghost had = p.allowed@;
            p = p.with_allow(d.mqtt_host.as_str(), d.mqtt_port);
            let ghost mid = p.allowed@;
            assert(mid =~= had.push(mid.last()));
            p = p.with_allow("127.0.0.1", d.http_port);
            assert(p.allowed@ =~= mid.push(p.allowed@.last()));
            assert(policy_targets(p.allowed@) =~= all + demo_targets(demo));
        },
        None => {
            assert(policy_targets(p.allowed@) =~= all + demo_targets(demo));
        },
    }
    p
}

/// Secrets from the catalog; a name `env:FOO` reads the variable `FOO` of the
/// environment that was handed in.
pub struct StoreSecrets<'a> {
    store: &'a Store,
    env: &'a Vec<(String, String)>,
}

/// A secret from the catalog or the environment, or why there is none.
pub open spec fn stored_secret(
    c: Catalog,
    env: Seq<(String, String)>,
    name: Seq<char>,
) -> Result<Seq<char>, Fault> {
    if begins(name, "env:"@) {
        let var = name.skip("env:"@.len() as int);
        match found(env, var) {
            Some(v) => Ok(v),
            None => Err(
                fault(
                    ErrorCode::SecretMissing,
                    "environment secret `"@ + var + "` is not set"@,
                ),
            ),
        }
    } else if c.secrets.dom().contains(name) {
        match unsealed(c.secrets[name], c.key) {
            Ok(v) => Ok(v),
            Err(f) => Err(fault(f.code, f.text)),
        }
    } else {
        Err(fault(ErrorCode::SecretMissing, "secret `"@ + name + "` is not configured"@))
    }
}

impl<'a> StoreSecrets<'a> {
    #[verifier::type_invariant]
    spec fn sound(&self) -> bool {
        self.store.wf()
    }

    /// What the catalog holds.
    pub closed spec fn catalog(&self) -> Catalog {
        self.store@
    }

    /// The environment.
    pub closed spec fn variables(&self) -> Seq<(String, String)> {
        self.env@
    }

    /// Secrets from a catalog and an environment.
    pub fn new(store: &'a Store, env: &'a Vec<(String, String)>) -> (r: Self)
        requires
            store.wf(),
        ensures
            r.catalog() == store@,
            r.variables() == env@,
    {
        StoreSecrets { store, env }
    }
}

impl<'a> SecretResolver for StoreSecrets<'a> {
    fn resolve(&self, name: &str) -> (r: Result<String, ConnectorError>)
        ensures
            match r {
                Ok(v) => stored_secret(self.catalog(), self.variables(), name@) == Ok::<
                    Seq<char>,
                    Fault,
                >(v@),
                Err(e) => stored_secret(self.catalog(), self.variables(), name@) == Err::<
                    Seq<char>,
                    Fault,
                >(e@),
            },
    {
        proof {
            use_type_invariant(self);
        }
        match strip_prefix(name, "env:") {
            Some(var) => match find(self.env, var.as_str()) {
                Some(v) => Ok(v),
                None => Err(
                    ConnectorError::new(
                        ErrorCode::SecretMissing,
                        cat3("environment secret `", var.as_str(), "` is not set"),
                    ),
                ),
            },
            None => match self.store.get_secret(name) {
                Ok(Some(v)) => Ok(v),
                Ok(None) => Err(
                    ConnectorError::new(
                        ErrorCode::SecretMissing,
                        cat3("secret `", name, "` is not configured"),
                    ),
                ),
                Err(e) => Err(ConnectorError::new(e.code, e.message)),
            },
        }
    }
}

/// The fault of settings that switch verification off.
pub open spec fn unverified_fault() -> Fault {
    fault(ErrorCode::PolicyDenied, "TLS skip_verify is rejected"@)
}

/// The broker of a source, or why there is none.
pub open spec fn source_target(s: SourceSpec, demo: Option<&DemoEndpoints>) -> Result<
    (Seq<char>, u16),
    Fault,
> {
    if s.use_demo_io {
        match demo {
            Some(d) => Ok((d.mqtt_host@, d.mqtt_port)),
            None => Err(
                fault(
                    ErrorCode::InvalidArgument,
                    "source.use_demo_io requires sparrow-server --demo-io"@,
                ),
            ),
        }
    } else {
        match (s.host, s.port) {
            (None, _) => Err(fault(ErrorCode::InvalidArgument, "MQTT host is required"@)),
            (Some(_), None) => Err(fault(ErrorCode::InvalidArgument, "MQTT port is required"@)),
            (Some(h), Some(p)) => Ok((h@, p)),
        }
    }
}

/// Whether a source uses TLS; the demonstration's broker has none.
pub open spec fn source_tls(s: SourceSpec) -> bool {
    s.tls && !s.use_demo_io
}

/// Why no settings can be made for an MQTT source.
pub open spec fn mqtt_config_fault(s: SourceSpec, demo: Option<&DemoEndpoints>) -> Option<Fault> {
    if s.qos != 0 {
        Some(qos_fault(s.qos))
    } else if s.skip_verify {
        Some(unverified_fault())
    } else {
        match source_target(s, demo) {
            Err(f) => Some(f),
            Ok(_) => if (s.username_secret is Some || s.password_secret is Some) && !source_tls(s) {
                Some(
                    fault(
                        ErrorCode::PolicyDenied,
                        "MQTT username/password require TLS (refusing plaintext credentials)"@,
                    ),
                )
            } else {
                None
            },
        }
    }
}

/// The client that a source appears as where it names none: one for every
/// instance, process and moment.
pub open spec fn fresh_client(instance: Seq<char>, pid: u32, nanos: u64) -> Seq<char> {
    "sparrow-"@ + instance + "-"@ + decimal(pid as nat) + "-"@ + decimal(nanos as nat)
}

/// Settings that say what an MQTT source asks for.
pub open spec fn is_mqtt_config(
    c: MqttSourceConfig,
    s: SourceSpec,
    demo: Option<&DemoEndpoints>,
    client: Seq<char>,
) -> bool {
    &&& source_target(s, demo) == Ok::<(Seq<char>, u16), Fault>((c.host@, c.port))
    &&& c.topic@ == s.topic@
    &&& c.client_id@ == match s.client_id {
        Some(id) => id@,
        None => client,
    }
    &&& c.qos == s.qos
    &&& c.clean_session == s.clean_session
    &&& c.username_secret == s.username_secret
    &&& c.password_secret == s.password_secret
    &&& c.tls.enabled == source_tls(s)
    &&& c.tls.skip_verify == s.skip_verify
    &&& c.inbox_capacity == s.inbox_capacity
    &&& c.restore is Absent
    &&& c.inbox_wait_ms == 5
    &&& c.keepalive_ms == 30000
    &&& c.connect_timeout_ms == 2000
    &&& c.reconnect_min_ms == 50
    &&& c.reconnect_max_ms == 2000
    &&& !c.tcp_quickack
    &&& c.inbox_bytes is None
    &&& c.json_limits.max_bytes == 65536
    &&& !c.fail_on_decode
}

/// The settings of an MQTT source.
pub fn mqtt_config(
    source: &SourceSpec,
    schema: Schema,
    demo: Option<&DemoEndpoints>,
    instance_id: &str,
    pid: u32,
    nanos: u64,
) -> (r: Result<MqttSourceConfig, SparrowError>)
    ensures
        match r {
            Ok(c) => {
                &&& mqtt_config_fault(*source, demo) is None
                &&& is_mqtt_config(c, *source, demo, fresh_client(instance_id@, pid, nanos))
                &&& c.schema == schema
            },
            Err(e) => mqtt_config_fault(*source, demo) == Some(e@),
        },
{
    match refuse_qos_durable(source.qos) {
        Ok(()) => {},
        Err(e) => {
            return Err(io(e));
        },
    }
    if source.skip_verify {
        return Err(err(ErrorCode::PolicyDenied, "TLS skip_verify is rejected"));
    }
    let (host, port): (String, u16) = if source.use_demo_io {
        match demo {
            Some(d) => (d.mqtt_host.clone(), d.mqtt_port),
            None => {
                return Err(
                    err(
                        ErrorCode::InvalidArgument,
                        "source.use_demo_io requires sparrow-server --demo-io",
                    ),
                );
            },
        }
    } else {
        match (&source.host, source.port) {
            (None, _) => {
                return Err(err(ErrorCode::InvalidArgument, "MQTT host is required"));
            },
            (Some(_), None) => {
                return Err(err(ErrorCode::InvalidArgument, "MQTT port is required"));
            },
            (Some(h), Some(p)) => (h.clone(), p),
        }
    };
    let mut cfg: MqttSourceConfig = MqttSourceConfig::demo(host.as_str(), port, schema);
    cfg.topic = source.topic.clone();
    cfg.client_id = match &source.client_id {
        Some(id) => id.clone(),
        None => {
            let head: String = cat3("sparrow-", instance_id, "-");
            let mid: String = cat3(head.as_str(), dec(pid as u64).as_str(), "-");
            cat2(mid.as_str(), dec(nanos).as_str())
        },
    };
    cfg.qos = source.qos;
    cfg.clean_session = source.clean_session;
    cfg.username_secret = copied(&source.username_secret);
    cfg.password_secret = copied(&source.password_secret);
    let tls: bool = source.tls && !source.use_demo_io;
    if (source.username_secret.is_some() || source.password_secret.is_some()) && !tls {
        return Err(
            err(
                ErrorCode::PolicyDenied,
                "MQTT username/password require TLS (refusing plaintext credentials)",
            ),
        );
    }
    cfg.tls = TlsConfig { enabled: tls, skip_verify: source.skip_verify };
    cfg.inbox_capacity = source.inbox_capacity;
    cfg.restore = RestoreClaim::Absent;
    Ok(cfg)
}

/// The receiver of an HTTP sink, or why there is none.
pub open spec fn sink_url(s: SinkSpec, demo: Option<&DemoEndpoints>) -> Result<Seq<char>, Fault> {
    if s.use_demo_io {
        match demo {
            Some(d) => Ok(d.http_url@),
            None => Err(
                fault(
                    ErrorCode::InvalidArgument,
                    "sink.use_demo_io requires sparrow-server --demo-io"@,
                ),
            ),
        }
    } else {
        match s.url {
            Some(u) => Ok(u@),
            None => Err(fault(ErrorCode::InvalidArgument, "HTTP sink url is required"@)),
        }
    }
}

/// Why no settings can be made for an HTTP sink.
pub open spec fn http_config_fault(s: SinkSpec, demo: Option<&DemoEndpoints>) -> Option<Fault> {
    if s.skip_verify {
        Some(unverified_fault())
    } else {
        match sink_url(s, demo) {
            Err(f) => Some(f),
            Ok(u) => if s.header_secret is Some && !begins(u, "https://"@) {
                Some(
                    fault(
                        ErrorCode::PolicyDenied,
                        "HTTP header_secret requires an https:// URL (refusing plaintext credentials)"@,
                    ),
                )
            } else {
                None
            },
        }
    }
}

/// Settings that say what an HTTP sink asks for. A secret header implies TLS.
pub open spec fn is_http_config(
    c: HttpSinkConfig,
    s: SinkSpec,
    demo: Option<&DemoEndpoints>,
) -> bool {
    &&& sink_url(s, demo) == Ok::<Seq<char>, Fault>(c.url@)
    &&& c.outbox_capacity == s.outbox_capacity
    &&& c.header_secret == s.header_secret
    &&& c.tls.enabled == ((s.tls && begins(c.url@, "https://"@)) || s.header_secret is Some)
    &&& c.tls.skip_verify == s.skip_verify
    &&& c.restore is Absent
    &&& c.timeout_ms == 1500
    &&& c.connect_timeout_ms == 500
    &&& c.max_retries == 2
    &&& c.retry_backoff_ms == 40
    &&& c.batch_rows == 1
    &&& c.batch_bytes == 262144
    &&& c.linger_ms == 0
    &&& c.max_inflight == 1
}

/// The settings of an HTTP sink.
pub fn http_config(sink: &SinkSpec, demo: Option<&DemoEndpoints>) -> (r: Result<
    HttpSinkConfig,
    SparrowError,
>)
    ensures
        match r {
            Ok(c) => http_config_fault(*sink, demo) is None && is_http_config(c, *sink, demo),
            Err(e) => http_config_fault(*sink, demo) == Some(e@),
        },
{
    if sink.skip_verify {
        return Err(err(ErrorCode::PolicyDenied, "TLS skip_verify is rejected"));
    }
    let url: String = if sink.use_demo_io {
        match demo {
            Some(d) => d.http_url.clone(),
            None => {
                return Err(
                    err(
                        ErrorCode::InvalidArgument,
                        "sink.use_demo_io requires sparrow-server --demo-io",
                    ),
                );
            },
        }
    } else {
        match &sink.url {
            Some(u) => u.clone(),
            None => {
                return Err(err(ErrorCode::InvalidArgument, "HTTP sink url is required"));
            },
        }
    };
    let https: bool = starts_with(url.as_str(), "https://");
    if sink.header_secret.is_some() && !https {
        return Err(
            err(
                ErrorCode::PolicyDenied,
                "HTTP header_secret requires an https:// URL (refusing plaintext credentials)",
            ),
        );
    }
    let mut cfg: HttpSinkConfig = HttpSinkConfig::demo(url.as_str());
    cfg.outbox_capacity = sink.outbox_capacity;
    cfg.header_secret = copied(&sink.header_secret);
    cfg.tls = TlsConfig {
        enabled: (sink.tls && https) || sink.header_secret.is_some(),
        skip_verify: sink.skip_verify,
    };
    cfg.restore = RestoreClaim::Absent;
    Ok(cfg)
}

/// Settings that say what a push source asks for.
pub open spec fn is_push_config(c: HttpPushSourceConfig, s: SourceSpec) -> bool {
    &&& c.bind@ == match s.bind {
        Some(b) => b@,
        None => "127.0.0.1:0"@,
    }
    &&& c.path@ == match s.path {
        Some(p) => p@,
        None => "/push"@,
    }
    &&& c.inbox_capacity == s.inbox_capacity
    &&& c.restore is Absent
    &&& c.json_limits.max_bytes == 65536
}

/// The settings of a push source.
pub fn http_push_config(source: &SourceSpec, schema: Schema) -> (r: HttpPushSourceConfig)
    ensures
        is_push_config(r, *source),
        r.schema == schema,
{
    let mut cfg: HttpPushSourceConfig = HttpPushSourceConfig::demo(schema);
    match &source.bind {
        Some(b) => {
            cfg.bind = b.clone();
        },
        None => {},
    }
    match &source.path {
        Some(p) => {
            cfg.path = p.clone();
        },
        None => {},
    }
    cfg.inbox_capacity = source.inbox_capacity;
    cfg.restore = RestoreClaim::Absent;
    cfg
}

/// The broker of a sink, or why there is none.
pub open spec fn sink_target(s: SinkSpec, demo: Option<&DemoEndpoints>) -> Result<
    (Seq<char>, u16),
    Fault,
> {
    if s.use_demo_io {
        match demo {
            Some(d) => Ok((d.mqtt_host@, d.mqtt_port)),
            None => Err(
                fault(
                    ErrorCode::InvalidArgument,
                    "sink.use_demo_io requires sparrow-server --demo-io"@,
                ),
            ),
        }
    } else {
        match (s.host, s.port) {
            (None, _) => Err(fault(ErrorCode::InvalidArgument, "MQTT sink host is required"@)),
            (Some(_), None) => Err(
                fault(ErrorCode::InvalidArgument, "MQTT sink port is required"@),
            ),
            (Some(h), Some(p)) => Ok((h@, p)),
        }
    }
}

/// Settings that say what an MQTT sink asks for.
pub open spec fn is_mqtt_sink_config(
    c: MqttSinkConfig,
    s: SinkSpec,
    demo: Option<&DemoEndpoints>,
) -> bool {
    &&& sink_target(s, demo) == Ok::<(Seq<char>, u16), Fault>((c.host@, c.port))
    &&& c.topic@ == match s.topic {
        Some(t) => t@,
        None => "sparrow/out"@,
    }
    &&& c.client_id@ == match s.client_id {
        Some(id) => id@,
        None => "sparrow-mqtt-sink"@,
    }
    &&& c.qos == s.qos
    &&& c.clean_session == s.clean_session
    &&& c.outbox_capacity == s.outbox_capacity
    &&& c.tls.enabled == (s.tls && !s.use_demo_io)
    &&& !c.tls.skip_verify
    &&& c.restore is Absent
    &&& c.connect_timeout_ms == 2000
    &&& c.keepalive_ms == 30000
}

/// The settings of an MQTT sink.
pub fn mqtt_sink_config(sink: &SinkSpec, demo: Option<&DemoEndpoints>) -> (r: Result<
    MqttSinkConfig,
    SparrowError,
>)
    ensures
        match r {
            Ok(c) => is_mqtt_sink_config(c, *sink, demo),
            Err(e) => sink_target(*sink, demo) == Err::<(Seq<char>, u16), Fault>(e@),
        },
{
    let (host, port): (String, u16) = if sink.use_demo_io {
        match demo {
            Some(d) => (d.mqtt_host.clone(), d.mqtt_port),
            None => {
                return Err(
                    err(
                        ErrorCode::InvalidArgument,
                        "sink.use_demo_io requires sparrow-server --demo-io",
                    ),
                );
            },
        }
    } else {
        match (&sink.host, sink.port) {
            (None, _) => {
                return Err(err(ErrorCode::InvalidArgument, "MQTT sink host is required"));
            },
            (Some(_), None) => {
                return Err(err(ErrorCode::InvalidArgument, "MQTT sink port is required"));
            },
            (Some(h), Some(p)) => (h.clone(), p),
        }
    };
    let mut cfg: MqttSinkConfig = MqttSinkConfig::demo(host.as_str(), port);
    match &sink.topic {
        Some(t) => {
            cfg.topic = t.clone();
        },
        None => {},
    }
    match &sink.client_id {
        Some(id) => {
            cfg.client_id = id.clone();
        },
        None => {},
    }
    cfg.qos = sink.qos;
    cfg.clean_session = sink.clean_session;
    cfg.outbox_capacity = sink.outbox_capacity;
    cfg.tls = TlsConfig { enabled: sink.tls && !sink.use_demo_io, skip_verify: false };
    cfg.restore = RestoreClaim::Absent;
    Ok(cfg)
}

/// The contract of a file: the one that is named, else that it may grow.
pub open spec fn file_contract(s: SourceSpec) -> Result<FileContract, Fault> {
    match s.file_contract {
        Some(raw) => if trimmed(raw@).len() == 0 {
            Ok(FileContract::AppendOnly)
        } else {
            FileContract::named(trimmed(raw@))
        },
        None => Ok(FileContract::AppendOnly),
    }
}

/// The contract of a file. Without a name its end is only where it ends now, and
/// the job stays up for what is appended.
pub fn resolve_file_contract(spec: &PipelineSpec) -> (r: Result<FileContract, SparrowError>)
    ensures
        outcome(r) == file_contract(spec.source),
{
    match &spec.source.file_contract {
        Some(raw) => {
            let t: String = trim(raw.as_str());
            if t.as_str().is_empty() {
                return Ok(FileContract::AppendOnly);
            }
            match FileContract::parse(t.as_str()) {
                Ok(c) => Ok(c),
                Err(e) => Err(io(e)),
            }
        },
        None => Ok(FileContract::AppendOnly),
    }
}

/// What the file system says of the files that a pipeline names, and the roots
/// that they must lie in.
#[derive(Debug)]
pub struct FileFacts {
    pub roots: Vec<String>,
    /// The source's path with its existing part made canonical.
    pub path: Result<String, ConnectorError>,
    /// The checkpoint directory's.
    pub checkpoint_dir: Result<String, ConnectorError>,
}

impl Clone for ConnectorError {
    fn clone(&self) -> (r: Self)
        ensures
            r == *self,
    {
        ConnectorError { code: self.code, message: self.message.clone() }
    }
}

pub(crate) fn copied_path(p: &Result<String, ConnectorError>) -> (r: Result<String, ConnectorError>)
    ensures
        r == *p,
{
    match p {
        Ok(s) => Ok(s.clone()),
        Err(e) => Err(e.clone()),
    }
}

/// Why the checkpoint directory may not be used, where one is named.
pub open spec fn checkpoint_dir_fault(s: PipelineSpec, files: FileFacts) -> Option<Fault> {
    match s.checkpoint_dir {
        Some(d) => path_fault(d@, resolved_seen(files.checkpoint_dir), texts(files.roots@)),
        None => None,
    }
}

/// Why a file source is refused.
pub open spec fn file_fault(s: PipelineSpec, files: FileFacts) -> Option<Fault> {
    match s.source.path {
        None => Some(fault(ErrorCode::InvalidArgument, "file source requires source.path"@)),
        Some(p) => match RecoveryPolicy::named(s.recovery@) {
            Err(f) => Some(f),
            Ok(policy) => {
                let paths = path_fault(p@, resolved_seen(files.path), texts(files.roots@));
                if paths is Some {
                    paths
                } else if checkpoint_dir_fault(s, files) is Some {
                    checkpoint_dir_fault(s, files)
                } else {
                    match file_contract(s.source) {
                        Err(f) => Some(f),
                        Ok(_) => if !crate::capabilities::recoverable(true, policy, s.claim()) {
                            Some(crate::capabilities::recovery_fault("file"@))
                        } else {
                            None
                        },
                    }
                }
            },
        },
    }
}

fn check_dir(spec: &PipelineSpec, files: &FileFacts) -> (r: Result<(), SparrowError>)
    ensures
        match r {
            Ok(()) => checkpoint_dir_fault(*spec, *files) is None,
            Err(e) => checkpoint_dir_fault(*spec, *files) == Some(e@),
        },
{
    match &spec.checkpoint_dir {
        Some(d) => match check_data_path_in(
            d.as_str(),
            copied_path(&files.checkpoint_dir),
            &files.roots,
        ) {
            Ok(()) => Ok(()),
            Err(e) => Err(io(e)),
        },
        None => Ok(()),
    }
}

fn check_file(spec: &PipelineSpec, schema: &Schema, files: &FileFacts) -> (r: Result<
    (),
    SparrowError,
>)
    ensures
        match r {
            Ok(()) => file_fault(*spec, *files) is None,
            Err(e) => file_fault(*spec, *files) == Some(e@),
        },
{
    let path: &String = match &spec.source.path {
        Some(p) => p,
        None => {
            return Err(err(ErrorCode::InvalidArgument, "file source requires source.path"));
        },
    };
    let recovery: RecoveryPolicy = match RecoveryPolicy::parse(spec.recovery.as_str()) {
        Ok(p) => p,
        Err(e) => {
            return Err(io(e));
        },
    };
    match check_data_path_in(path.as_str(), copied_path(&files.path), &files.roots) {
        Ok(()) => {},
        Err(e) => {
            return Err(io(e));
        },
    }
    match check_dir(spec, files) {
        Ok(()) => {},
        Err(e) => {
            return Err(e);
        },
    }
    let mut cfg: FileReplayConfig = FileReplayConfig::new(path.as_str(), schema.clone());
    cfg.restore = spec.restore_claim();
    cfg.recovery = recovery;
    cfg.contract = match resolve_file_contract(spec) {
        Ok(c) => c,
        Err(e) => {
            return Err(e);
        },
    };
    match cfg.validate(copied_path(&files.path), &files.roots) {
        Ok(()) => Ok(()),
        Err(e) => Err(io(e)),
    }
}

/// A connector's result as the runtime reports it.
pub open spec fn passed_on(rr: Result<(), ConnectorError>, r: Result<(), SparrowError>) -> bool {
    match rr {
        Ok(()) => r is Ok,
        Err(e) => r is Err && r->Err_0@ == e@,
    }
}

/// What checking the source of a pipeline may give, whatever its secrets are.
pub open spec fn source_checked<S: SecretResolver>(
    spec: PipelineSpec,
    secrets: S,
    policy: TargetPolicy,
    demo: Option<&DemoEndpoints>,
    files: FileFacts,
    client: Seq<char>,
    r: Result<(), SparrowError>,
) -> bool {
    let kind = spec.source.kind@;
    if kind == "mqtt"@ {
        if !(spec.claim() is Absent) {
            r is Err && r->Err_0@ == durable_fault()
        } else {
            match mqtt_config_fault(spec.source, demo) {
                Some(f) => r is Err && r->Err_0@ == f,
                None => exists|c: MqttSourceConfig, rr: Result<(), ConnectorError>|
                    is_mqtt_config(c, spec.source, demo, client) && #[trigger] c.checked(
                        secrets,
                        policy,
                        rr,
                    ) && passed_on(rr, r),
            }
        }
    } else if kind == "http_push"@ {
        if !(spec.claim() is Absent) {
            r is Err && r->Err_0@ == durable_fault()
        } else {
            exists|c: HttpPushSourceConfig|
                is_push_config(c, spec.source) && match #[trigger] c.fault(policy) {
                    Some(f) => r is Err && r->Err_0@ == f,
                    None => r is Ok,
                }
        }
    } else if is_file_kind(kind) {
        match file_fault(spec, files) {
            Some(f) => r is Err && r->Err_0@ == f,
            None => r is Ok,
        }
    } else {
        r is Err && r->Err_0@ == fault(
            ErrorCode::FeatureUnavailable,
            "source kind `"@ + kind + "` is not supported (mqtt|http_push|file)"@,
        )
    }
}

/// What checking the settings of an HTTP sink may give.
pub open spec fn http_checked<S: SecretResolver>(
    c: HttpSinkConfig,
    secrets: S,
    policy: TargetPolicy,
    r: Result<(), ConnectorError>,
) -> bool {
    match c.fault(policy, url_parts(c.url@)) {
        Some(f) => r is Err && r->Err_0@ == f,
        None => match c.header_secret {
            None => r is Ok,
            Some(n) => exists|found: Result<String, ConnectorError>, name: &str|
                name@ == n@ && #[trigger] call_ensures(S::resolve, (&secrets, name), found)
                    && match found {
                    Ok(_) => r is Ok,
                    Err(e) => r == Err::<(), ConnectorError>(e),
                },
        },
    }
}

/// What checking the sink of a pipeline may give, whatever its secrets are.
pub open spec fn sink_checked<S: SecretResolver>(
    spec: PipelineSpec,
    secrets: S,
    policy: TargetPolicy,
    demo: Option<&DemoEndpoints>,
    r: Result<(), SparrowError>,
) -> bool {
    let kind = spec.sink.kind@;
    if kind == "http"@ {
        match http_config_fault(spec.sink, demo) {
            Some(f) => r is Err && r->Err_0@ == f,
            None => exists|c: HttpSinkConfig, rr: Result<(), ConnectorError>|
                is_http_config(c, spec.sink, demo) && #[trigger] http_checked(
                    c,
                    secrets,
                    policy,
                    rr,
                ) && passed_on(rr, r),
        }
    } else if kind == "log"@ {
        r is Ok
    } else if kind == "mqtt"@ {
        match sink_target(spec.sink, demo) {
            Err(f) => r is Err && r->Err_0@ == f,
            Ok(_) => exists|c: MqttSinkConfig|
                is_mqtt_sink_config(c, spec.sink, demo) && match #[trigger] c.fault(policy) {
                    Some(f) => r is Err && r->Err_0@ == f,
                    None => r is Ok,
                },
        }
    } else {
        r is Err && r->Err_0@ == fault(
            ErrorCode::FeatureUnavailable,
            "sink kind `"@ + kind + "` is not supported (http|log|mqtt)"@,
        )
    }
}

/// Checks the source of a pipeline.
pub fn check_source<S: SecretResolver>(
    spec: &PipelineSpec,
    schema: &Schema,
    secrets: &S,
    policy: &TargetPolicy,
    demo: Option<&DemoEndpoints>,
    files: &FileFacts,
    pid: u32,
    nanos: u64,
) -> (r: Result<(), SparrowError>)
    ensures
        source_checked(
            *spec,
            *secrets,
            *policy,
            demo,
            *files,
            fresh_client("validate"@, pid, nanos),
            r,
        ),
{
    let kind: &str = spec.source.kind.as_str();
    if same(kind, "mqtt") {
        match refuse_durable_recovery(&spec.restore_claim()) {
            Ok(()) => {},
            Err(e) => {
                return Err(io(e));
            },
        }
        let cfg: MqttSourceConfig = match mqtt_config(
            &spec.source,
            schema.clone(),
            demo,
            "validate",
            pid,
            nanos,
        ) {
            Ok(c) => c,
            Err(e) => {
                return Err(e);
            },
        };
        let rr: Result<(), ConnectorError> = cfg.validate(secrets, policy);
        let ghost seen = rr;
        assert(cfg.checked(*secrets, *policy, seen));
        match rr {
            Ok(()) => Ok(()),
            Err(e) => Err(io(e)),
        }
    } else if same(kind, "http_push") {
        match refuse_durable_recovery(&spec.restore_claim()) {
            Ok(()) => {},
            Err(e) => {
                return Err(io(e));
            },
        }
        let cfg: HttpPushSourceConfig = http_push_config(&spec.source, schema.clone());
        match cfg.validate(policy) {
            Ok(()) => Ok(()),
            Err(e) => Err(io(e)),
        }
    } else if file_kind(kind) {
        check_file(spec, schema, files)
    } else {
        Err(
            SparrowError::new(
                ErrorCode::FeatureUnavailable,
                cat3("source kind `", kind, "` is not supported (mqtt|http_push|file)"),
            ),
        )
    }
}

/// Checks the sink of a pipeline.
pub fn check_sink<S: SecretResolver>(
    spec: &PipelineSpec,
    secrets: &S,
    policy: &TargetPolicy,
    demo: Option<&DemoEndpoints>,
) -> (r: Result<(), SparrowError>)
    ensures
        sink_checked(*spec, *secrets, *policy, demo, r),
{
    let kind: &str = spec.sink.kind.as_str();
    if same(kind, "http") {
        let cfg: HttpSinkConfig = match http_config(&spec.sink, demo) {
            Ok(c) => c,
            Err(e) => {
                return Err(e);
            },
        };
        let rr: Result<(), ConnectorError> = cfg.validate(secrets, policy);
        let ghost seen = rr;
        assert(http_checked(cfg, *secrets, *policy, seen));
        match rr {
            Ok(()) => Ok(()),
            Err(e) => Err(io(e)),
        }
    } else if same(kind, "log") {
        Ok(())
    } else if same(kind, "mqtt") {
        let cfg: MqttSinkConfig = match mqtt_sink_config(&spec.sink, demo) {
            Ok(c) => c,
            Err(e) => {
                return Err(e);
            },
        };
        match cfg.validate(policy) {
            Ok(()) => Ok(()),
            Err(e) => Err(io(e)),
        }
    } else {
        Err(
            SparrowError::new(
                ErrorCode::FeatureUnavailable,
                cat3("sink kind `", kind, "` is not supported (http|log|mqtt)"),
            ),
        )
    }
}

/// What checking the connectors of a pipeline may give, whatever its secrets are:
/// first its promises decide, then its source, then its sink.
pub open spec fn io_checked<S: SecretResolver>(
    spec: PipelineSpec,
    secrets: S,
    policy: TargetPolicy,
    demo: Option<&DemoEndpoints>,
    files: FileFacts,
    client: Seq<char>,
    r: Result<(), SparrowError>,
) -> bool {
    match spec.promised() {
        Err(f) => r is Err && r->Err_0@ == f,
        Ok(_) => exists|rs: Result<(), SparrowError>| #[trigger]
            source_checked(spec, secrets, policy, demo, files, client, rs) && match rs {
                Err(e) => r == Err::<(), SparrowError>(e),
                Ok(()) => sink_checked(spec, secrets, policy, demo, r),
            },
    }
}

/// Checks everything that a pipeline asks of its connectors.
pub fn validate_io<S: SecretResolver>(
    spec: &PipelineSpec,
    schema: &Schema,
    secrets: &S,
    policy: &TargetPolicy,
    demo: Option<&DemoEndpoints>,
    files: &FileFacts,
    pid: u32,
    nanos: u64,
) -> (r: Result<(), SparrowError>)
    ensures
        io_checked(
            *spec,
            *secrets,
            *policy,
            demo,
            *files,
            fresh_client("validate"@, pid, nanos),
            r,
        ),
{
    match spec.check_delivery() {
        Ok(_) => {},
        Err(e) => {
            return Err(e);
        },
    }
    let rs: Result<(), SparrowError> = check_source(
        spec,
        schema,
        secrets,
        policy,
        demo,
        files,
        pid,
        nanos,
    );
    let ghost seen = rs;
    assert(source_checked(
        *spec,
        *secrets,
        *policy,
        demo,
        *files,
        fresh_client("validate"@, pid, nanos),
        seen,
    ));
    match rs {
        Ok(()) => {},
        Err(e) => {
            return Err(e);
        },
    }
    check_sink(spec, secrets, policy, demo)
}

/// Why a pipeline cannot be checkpointed with this plan.
pub open spec fn aligned_plan_fault(
    s: PipelineSpec,
    stages: Seq<PlanStage>,
    files: FileFacts,
) -> Option<Fault> {
    match RecoveryPolicy::named(s.recovery@) {
        Err(f) => Some(f),
        Ok(RecoveryPolicy::RestartFresh) => None,
        Ok(RecoveryPolicy::Aligned) => if !is_file_kind(s.source.kind@) {
            Some(
                fault(
                    ErrorCode::UnsupportedRestore,
                    "aligned recovery requires a ReplayableSource (file); MQTT replay remains unsupported"@,
                ),
            )
        } else {
            let paths = match s.source.path {
                Some(p) => path_fault(p@, resolved_seen(files.path), texts(files.roots@)),
                None => None,
            };
            if paths is Some {
                paths
            } else if checkpoint_dir_fault(s, files) is Some {
                checkpoint_dir_fault(s, files)
            } else if aligned_fault(stages) is Some {
                aligned_fault(stages)
            } else if first_window(stages) is None {
                Some(no_window())
            } else {
                None
            }
        },
    }
}

/// Checks that a pipeline with aligned recovery has a plan that can be
/// checkpointed: filters are kept, what cannot be kept is refused, never left
/// out.
pub fn validate_aligned_plan(spec: &PipelineSpec, stages: &Vec<PlanStage>, files: &FileFacts) -> (r:
    Result<(), SparrowError>)
    ensures
        match r {
            Ok(()) => aligned_plan_fault(*spec, stages@, *files) is None,
            Err(e) => aligned_plan_fault(*spec, stages@, *files) == Some(e@),
        },
{
    let recovery: RecoveryPolicy = match RecoveryPolicy::parse(spec.recovery.as_str()) {
        Ok(p) => p,
        Err(e) => {
            return Err(io(e));
        },
    };
    if !recovery.is_aligned() {
        return Ok(());
    }
    if !file_kind(spec.source.kind.as_str()) {
        return Err(
            err(
                ErrorCode::UnsupportedRestore,
                "aligned recovery requires a ReplayableSource (file); MQTT replay remains unsupported",
            ),
        );
    }
    match &spec.source.path {
        Some(p) => match check_data_path_in(p.as_str(), copied_path(&files.path), &files.roots) {
            Ok(()) => {},
            Err(e) => {
                return Err(io(e));
            },
        },
        None => {},
    }
    match check_dir(spec, files) {
        Ok(()) => {},
        Err(e) => {
            return Err(e);
        },
    }
    check_aligned_stages(stages)
}

/// Reads the name of a delivery guarantee, refusing what is not kept.
pub fn reject_named_delivery(name: &str) -> (r: Result<DeliveryGuarantee, SparrowError>)
    ensures
        outcome(r) == DeliveryGuarantee::named(name@),
{
    match refuse_delivery_name(name) {
        Ok(g) => Ok(g),
        Err(e) => Err(io(e)),
    }
}

/// What is promised of a pipeline, in words.
#[derive(Clone, Copy, Debug)]
pub struct Effective {
    pub delivery: &'static str,
    pub recovery: &'static str,
    pub replay: &'static str,
    pub exactly_once: bool,
    pub recovery_risk: &'static str,
    pub aligned_eligible: bool,
    pub honesty: &'static str,
}

/// The recovery that a pipeline gets: fresh where what it names is not known.
pub open spec fn effective_recovery(s: PipelineSpec) -> RecoveryPolicy {
    match RecoveryPolicy::named(s.recovery@) {
        Ok(p) => p,
        Err(_) => RecoveryPolicy::RestartFresh,
    }
}

/// Says what is promised of a pipeline and what may be lost.
pub fn effective_guarantees(spec: &PipelineSpec) -> (r: Effective)
    ensures
        r.delivery@ == "live_best_effort"@,
        r.recovery@ == effective_recovery(*spec).name(),
        r.replay@ == (if is_file_kind(spec.source.kind@) {
            ReplaySupport::Replayable
        } else {
            ReplaySupport::Unsupported
        }).name(),
        !r.exactly_once,
        r.aligned_eligible == is_file_kind(spec.source.kind@),
        r.recovery_risk@ == if is_file_kind(spec.source.kind@) {
            if effective_recovery(*spec) == RecoveryPolicy::Aligned {
                "committed_checkpoint_only"@
            } else {
                "restart_fresh_loses_in_memory_state"@
            }
        } else {
            "no_durable_restore; live_best_effort_drops_ok"@
        },
        r.honesty@ == honesty(),
{
    let recovery: RecoveryPolicy = match RecoveryPolicy::parse(spec.recovery.as_str()) {
        Ok(p) => p,
        Err(_) => RecoveryPolicy::RestartFresh,
    };
    let replayable: bool = file_kind(spec.source.kind.as_str());
    Effective {
        delivery: DeliveryGuarantee::LiveBestEffort.as_str(),
        recovery: recovery.as_str(),
        replay: if replayable {
            ReplaySupport::Replayable.as_str()
        } else {
            ReplaySupport::Unsupported.as_str()
        },
        exactly_once: false,
        recovery_risk: if recovery.is_aligned() && replayable {
            "committed_checkpoint_only"
        } else if replayable {
            "restart_fresh_loses_in_memory_state"
        } else {
            "no_durable_restore; live_best_effort_drops_ok"
        },
        aligned_eligible: replayable,
        honesty: honesty_text(),
    }
}

} // verus!
