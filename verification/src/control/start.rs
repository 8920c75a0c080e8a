//! What a start needs: the revision that is to run, checked with everything it
//! names, and the connectors that its kinds stand for.

use super::aligned::{checkpoint_place, prepare_aligned, restores, setup_fault, AlignedSetup};
use super::plan::{layout, PlanLayout, PlanStage};
use super::spec::{file_kind, is_file_kind, PipelineSpec, SinkSpec};
use super::store::{Catalog, Store, StreamRow};
use super::validate::{
    aligned_plan_fault, bind_plan, binder_catalog, bound_plan, demo_targets, file_contract,
    fresh_client, http_config, http_config_fault, http_push_config, io_checked, is_http_config,
    is_mqtt_config, is_mqtt_sink_config, is_push_config, mqtt_config, mqtt_config_fault,
    mqtt_sink_config, policy_targets, resolve_file_contract, sink_target, store_policy,
    stream_read, stream_to_schema, streams_read, validate_aligned_plan, validate_io, Bound,
    DemoEndpoints, FileFacts,
};
use crate::capabilities::RecoveryPolicy;
use crate::error::io;
use crate::file_replay::{FileContract, FileReplayConfig};
use crate::http::push::HttpPushSourceConfig;
use crate::http::sink::HttpSinkConfig;
use crate::model::{err, fault, ErrorCode, Fault, Field, Schema, SparrowError};
use crate::mqtt::sink::MqttSinkConfig;
use crate::mqtt::source::MqttSourceConfig;
use crate::policy::TargetPolicy;
use crate::secret::SecretResolver;
use crate::text::{cat3, same};
use vstd::prelude::*;

verus! {

/// Lines that a log sink keeps.
pub const LOG_LINES: usize = 64;

/// How many rows may wait before a job, and batches behind it.
#[derive(Clone, Copy, Debug, PartialEq, Eq, Structural)]
pub struct Channels {
    pub inbox: usize,
    pub outbox: usize,
}

/// What a pipeline asks for, at least one.
pub open spec fn at_least_one(n: usize) -> usize {
    if n == 0 {
        1
    } else {
        n
    }
}

/// The channels of a pipeline's job.
pub fn channels(spec: &PipelineSpec) -> (r: Channels)
    ensures
        r.inbox == at_least_one(spec.source.inbox_capacity),
        r.outbox == at_least_one(spec.sink.outbox_capacity),
{
    let inbox: usize = spec.source.inbox_capacity;
    let outbox: usize = spec.sink.outbox_capacity;
    Channels {
        inbox: if inbox == 0 {
            1
        } else {
            inbox
        },
        outbox: if outbox == 0 {
            1
        } else {
            outbox
        },
    }
}

/// The source of a job, with its settings.
#[derive(Debug)]
pub enum SourceWiring {
    Mqtt(MqttSourceConfig),
    Push(HttpPushSourceConfig),
    /// A file that is read from its beginning.
    File(FileReplayConfig),
    /// A file that is read with checkpoints.
    Aligned(FileReplayConfig, AlignedSetup),
}

/// Why a pipeline's source cannot be started with this plan.
pub open spec fn source_fault(
    s: PipelineSpec,
    stages: Seq<PlanStage>,
    demo: Option<&DemoEndpoints>,
    files: FileFacts,
) -> Option<Fault> {
    let kind = s.source.kind@;
    match RecoveryPolicy::named(s.recovery@) {
        Err(f) => Some(f),
        Ok(policy) => if is_file_kind(kind) {
            match s.source.path {
                None => Some(
                    fault(ErrorCode::InvalidArgument, "file source requires source.path"@),
                ),
                Some(p) => if policy == RecoveryPolicy::Aligned {
                    setup_fault(s, stages, p@, files)
                } else {
                    match file_contract(s.source) {
                        Err(f) => Some(f),
                        Ok(_) => None,
                    }
                },
            }
        } else if kind == "http_push"@ {
            None
        } else if kind == "mqtt"@ {
            mqtt_config_fault(s.source, demo)
        } else {
            Some(
                fault(
                    ErrorCode::FeatureUnavailable,
                    "source kind `"@ + kind + "` is not wired on the live path"@,
                ),
            )
        },
    }
}

/// Settings with which a pipeline's file is read.
pub open spec fn reads_file(c: FileReplayConfig, s: PipelineSpec, schema: Schema) -> bool {
    &&& s.source.path is Some
    &&& c.path@ == s.source.path->0@
    &&& c.schema == schema
    &&& file_contract(s.source) == Ok::<FileContract, Fault>(c.contract)
    &&& c.fail_on_decode == s.fail_on_decode
}

/// A source that is what a pipeline asks for.
pub open spec fn source_wired(
    w: SourceWiring,
    s: PipelineSpec,
    schema: Schema,
    stages: Seq<PlanStage>,
    demo: Option<&DemoEndpoints>,
    client: Seq<char>,
) -> bool {
    let kind = s.source.kind@;
    if is_file_kind(kind) {
        if RecoveryPolicy::named(s.recovery@) == Ok::<RecoveryPolicy, Fault>(
            RecoveryPolicy::Aligned,
        ) {
            &&& w matches SourceWiring::Aligned(c, a)
            &&& reads_file(c, s, schema)
            &&& c.recovery == RecoveryPolicy::Aligned
            &&& c.restore@ == s.claim()
            &&& layout(stages) == Ok::<PlanLayout, Fault>(a.layout)
            &&& a.checkpoint_dir@ == checkpoint_place(s, c.path@)
            &&& a.contract == c.contract
            &&& a.restore == restores(s)
        } else {
            &&& w matches SourceWiring::File(c)
            &&& reads_file(c, s, schema)
            &&& c.recovery == RecoveryPolicy::RestartFresh
            &&& c.restore is Absent
        }
    } else if kind == "http_push"@ {
        &&& w matches SourceWiring::Push(c)
        &&& is_push_config(c, s.source)
        &&& c.schema == schema
    } else {
        &&& w matches SourceWiring::Mqtt(c)
        &&& is_mqtt_config(MqttSourceConfig { fail_on_decode: false, ..c }, s.source, demo, client)
        &&& c.fail_on_decode == s.fail_on_decode
        &&& c.schema == schema
    }
}

/// Works out the source of a job.
pub fn wire_source(
    spec: &PipelineSpec,
    schema: Schema,
    stages: &Vec<PlanStage>,
    demo: Option<&DemoEndpoints>,
    files: &FileFacts,
    name: &str,
    pid: u32,
    nanos: u64,
) -> (r: Result<SourceWiring, SparrowError>)
    ensures
        match r {
            Ok(w) => {
                &&& source_fault(*spec, stages@, demo, *files) is None
                &&& source_wired(
                    w,
                    *spec,
                    schema,
                    stages@,
                    demo,
                    fresh_client(name@, pid, nanos),
                )
            },
            Err(e) => source_fault(*spec, stages@, demo, *files) == Some(e@),
        },
{
    let recovery: RecoveryPolicy = match RecoveryPolicy::parse(spec.recovery.as_str()) {
        Ok(p) => p,
        Err(e) => {
            return Err(io(e));
        },
    };
    let kind: &str = spec.source.kind.as_str();
    if file_kind(kind) {
        let path: &String = match &spec.source.path {
            Some(p) => p,
            None => {
                return Err(err(ErrorCode::InvalidArgument, "file source requires source.path"));
            },
        };
        let mut cfg: FileReplayConfig = FileReplayConfig::new(path.as_str(), schema);
        cfg.fail_on_decode = spec.fail_on_decode;
        if recovery.is_aligned() {
            let setup: AlignedSetup = match prepare_aligned(spec, stages, path.as_str(), files) {
                Ok(a) => a,
                Err(e) => {
                    return Err(e);
                },
            };
            cfg.recovery = RecoveryPolicy::Aligned;
            cfg.restore = spec.restore_claim();
            cfg.contract = setup.contract;
            return Ok(SourceWiring::Aligned(cfg, setup));
        }
        cfg.contract = match resolve_file_contract(spec) {
            Ok(c) => c,
            Err(e) => {
                return Err(e);
            },
        };
        Ok(SourceWiring::File(cfg))
    } else if same(kind, "http_push") {
        Ok(SourceWiring::Push(http_push_config(&spec.source, schema)))
    } else if same(kind, "mqtt") {
        let mut cfg: MqttSourceConfig = match mqtt_config(
            &spec.source,
            schema,
            demo,
            name,
            pid,
            nanos,
        ) {
            Ok(c) => c,
            Err(e) => {
                return Err(e);
            },
        };
        let ghost plain = cfg;
        cfg.fail_on_decode = spec.fail_on_decode;
        assert(MqttSourceConfig { fail_on_decode: false, ..cfg } == plain);
        Ok(SourceWiring::Mqtt(cfg))
    } else {
        Err(
            SparrowError::new(
                ErrorCode::FeatureUnavailable,
                cat3("source kind `", kind, "` is not wired on the live path"),
            ),
        )
    }
}

/// The sink of a job, with its settings.
#[derive(Debug)]
pub enum SinkWiring {
    /// The last lines are kept, so many of them.
    Log(usize),
    Mqtt(MqttSinkConfig),
    Http(HttpSinkConfig),
}

/// Works out the sink of a job; what is neither a log nor MQTT is HTTP.
pub fn wire_sink(sink: &SinkSpec, demo: Option<&DemoEndpoints>) -> (r: Result<
    SinkWiring,
    SparrowError,
>)
    ensures
        if sink.kind@ == "log"@ {
            r == Ok::<SinkWiring, SparrowError>(SinkWiring::Log(LOG_LINES))
        } else if sink.kind@ == "mqtt"@ {
            match r {
                Ok(w) => w matches SinkWiring::Mqtt(c) && is_mqtt_sink_config(c, *sink, demo),
                Err(e) => sink_target(*sink, demo) == Err::<(Seq<char>, u16), Fault>(e@),
            }
        } else {
            match r {
                Ok(w) => http_config_fault(*sink, demo) is None && (w matches SinkWiring::Http(c)
                    && is_http_config(c, *sink, demo)),
                Err(e) => http_config_fault(*sink, demo) == Some(e@),
            }
        },
{
    let kind: &str = sink.kind.as_str();
    if same(kind, "log") {
        Ok(SinkWiring::Log(LOG_LINES))
    } else if same(kind, "mqtt") {
        match mqtt_sink_config(sink, demo) {
            Ok(c) => Ok(SinkWiring::Mqtt(c)),
            Err(e) => Err(e),
        }
    } else {
        match http_config(sink, demo) {
            Ok(c) => Ok(SinkWiring::Http(c)),
            Err(e) => Err(e),
        }
    }
}

/// A revision that may be started, with what it runs on.
#[derive(Debug)]
pub struct StartPlan {
    pub spec: PipelineSpec,
    pub schema: Schema,
    /// The streams that the query may read from.
    pub streams: Vec<(String, Schema)>,
    pub bound: Bound,
    pub stages: Vec<PlanStage>,
    pub policy: TargetPolicy,
    pub files: FileFacts,
}

/// What follows once the stages of the query are known.
pub open spec fn staged(
    spec: PipelineSpec,
    files: FileFacts,
    bound: Bound,
    planned: Result<Vec<PlanStage>, SparrowError>,
    r: Result<StartPlan, SparrowError>,
) -> bool {
    match planned {
        Err(e) => r == Err::<StartPlan, SparrowError>(e),
        Ok(stages) => match aligned_plan_fault(spec, stages@, files) {
            Some(f) => r is Err && r->Err_0@ == f,
            None => r is Ok && r->Ok_0.spec == spec && r->Ok_0.bound == bound && r->Ok_0.stages
                == stages && r->Ok_0.files == files,
        },
    }
}

/// What follows once the connectors are checked: the query is bound and planned
/// against the streams.
pub open spec fn connected<Q>(
    plan: Q,
    spec: PipelineSpec,
    name: Seq<char>,
    revision: u64,
    streams: Vec<(String, Schema)>,
    files: FileFacts,
    checked: Result<(), SparrowError>,
    r: Result<StartPlan, SparrowError>,
) -> bool where Q: Fn(&Bound, &Vec<(String, Schema)>) -> Result<Vec<PlanStage>, SparrowError> {
    match checked {
        Err(e) => r == Err::<StartPlan, SparrowError>(e),
        Ok(()) => match bound_plan(spec, name, revision) {
            Err(f) => r is Err && r->Err_0@ == f,
            Ok(b) => exists|planned: Result<Vec<PlanStage>, SparrowError>| #[trigger]
                call_ensures(plan, (&b, &streams), planned) && staged(spec, files, b, planned, r),
        },
    }
}

/// What follows once the streams are read: the connectors are checked against
/// the policy and the files.
pub open spec fn streamed<F, Q, S: SecretResolver>(
    facts: F,
    plan: Q,
    secrets: S,
    c: Catalog,
    demo: Option<&DemoEndpoints>,
    client: Seq<char>,
    spec: PipelineSpec,
    name: Seq<char>,
    revision: u64,
    read: Result<Vec<(String, Schema)>, SparrowError>,
    r: Result<StartPlan, SparrowError>,
) -> bool where
    F: Fn(&PipelineSpec) -> FileFacts,
    Q: Fn(&Bound, &Vec<(String, Schema)>) -> Result<Vec<PlanStage>, SparrowError>,
 {
    match read {
        Err(e) => r == Err::<StartPlan, SparrowError>(e),
        Ok(streams) => exists|
            policy: TargetPolicy,
            files: FileFacts,
            checked: Result<(), SparrowError>,
        |
            policy_targets(policy.allowed@) == c.allowed + demo_targets(demo)
                && #[trigger] call_ensures(facts, (&spec,), files) && #[trigger] io_checked(
                spec,
                secrets,
                policy,
                demo,
                files,
                client,
                checked,
            ) && connected(
                plan,
                spec,
                name,
                revision,
                streams,
                files,
                checked,
                r,
            ) && (r matches Ok(p) ==> p.streams
                == streams && p.policy == policy),
    }
}

/// What follows once the stream of the pipeline is read.
pub open spec fn typed<P, F, Q, S: SecretResolver>(
    parse: P,
    facts: F,
    plan: Q,
    secrets: S,
    store: Store,
    demo: Option<&DemoEndpoints>,
    client: Seq<char>,
    spec: PipelineSpec,
    name: Seq<char>,
    revision: u64,
    read: Result<Schema, SparrowError>,
    r: Result<StartPlan, SparrowError>,
) -> bool where
    P: Fn(&str) -> Result<Vec<Field>, String>,
    F: Fn(&PipelineSpec) -> FileFacts,
    Q: Fn(&Bound, &Vec<(String, Schema)>) -> Result<Vec<PlanStage>, SparrowError>,
 {
    match read {
        Err(e) => r == Err::<StartPlan, SparrowError>(e),
        Ok(schema) => exists|all: Result<Vec<(String, Schema)>, SparrowError>| #[trigger]
            streams_read(parse, store, all) && streamed(
                facts,
                plan,
                secrets,
                store@,
                demo,
                client,
                spec,
                name,
                revision,
                all,
                r,
            ) && (r matches Ok(p) ==> p.schema == schema),
    }
}

/// Works out what a start of a revision needs, or why it cannot be: the revision
/// and its stream must be known, all streams be readable, the connectors pass
/// their checks, and the plan be one that can be kept. `parse` reads the columns
/// of a stored stream, `facts` asks the file system, `plan` plans a query.
pub fn prepare_start<P, F, Q, S: SecretResolver>(
    store: &Store,
    name: &str,
    revision: u64,
    secrets: &S,
    demo: Option<&DemoEndpoints>,
    parse: &P,
    facts: &F,
    plan: &Q,
    pid: u32,
    nanos: u64,
) -> (r: Result<StartPlan, SparrowError>) where
    P: Fn(&str) -> Result<Vec<Field>, String>,
    F: Fn(&PipelineSpec) -> FileFacts,
    Q: Fn(&Bound, &Vec<(String, Schema)>) -> Result<Vec<PlanStage>, SparrowError>,

    requires
        store.wf(),
        forall|t: &str| #[trigger] call_requires(*parse, (t,)),
        forall|s: &PipelineSpec| #[trigger] call_requires(*facts, (s,)),
        forall|b: &Bound, v: &Vec<(String, Schema)>| #[trigger] call_requires(*plan, (b, v)),
    ensures
        match Store::revision_fault(store@, name@, revision as int) {
            Some(f) => r is Err && r->Err_0@ == f,
            None => {
                let spec = store@.pipelines[name@][revision - 1];
                if !store@.streams.dom().contains(spec.stream@) {
                    r is Err && r->Err_0@ == fault(
                        ErrorCode::InvalidArgument,
                        "unknown stream `"@ + spec.stream@ + "`"@,
                    )
                } else {
                    exists|read: Result<Schema, SparrowError>| #[trigger]
                        stream_read(
                            *parse,
                            spec.stream@,
                            store@.streams[spec.stream@],
                            read,
                        ) && typed(
                            *parse,
                            *facts,
                            *plan,
                            *secrets,
                            *store,
                            demo,
                            fresh_client("validate"@, pid, nanos),
                            spec,
                            name@,
                            revision,
                            read,
                            r,
                        )
                }
            },
        },
{
    let spec: PipelineSpec = match store.get_pipeline_revision(name, revision) {
        Ok(row) => row.spec,
        Err(e) => {
            return Err(e);
        },
    };
    let row: StreamRow = match store.get_stream(spec.stream.as_str()) {
        Ok(row) => row,
        Err(e) => {
            return Err(e);
        },
    };
    let ghost client = fresh_client("validate"@, pid, nanos);
    let read: Result<Schema, SparrowError> = stream_to_schema(&row, parse);
    let ghost seen_read = read;
    assert(stream_read(*parse, spec.stream@, store@.streams[spec.stream@], seen_read));
    let schema: Schema = match read {
        Ok(s) => s,
        Err(e) => {
            return Err(e);
        },
    };
    let all: Result<Vec<(String, Schema)>, SparrowError> = binder_catalog(store, parse);
    let ghost seen_all = all;
    assert(streams_read(*parse, *store, seen_all));
    let streams: Vec<(String, Schema)> = match all {
        Ok(v) => v,
        Err(e) => {
            return Err(e);
        },
    };
    let policy: TargetPolicy = store_policy(store, demo);
    let files: FileFacts = facts(&spec);
    assert(call_ensures(*facts, (&spec,), files));
    let checked: Result<(), SparrowError> = validate_io(
        &spec,
        &schema,
        secrets,
        &policy,
        demo,
        &files,
        pid,
        nanos,
    );
    let ghost seen_check = checked;
    assert(io_checked(spec, *secrets, policy, demo, files, client, seen_check));
    match checked {
        Ok(()) => {},
        Err(e) => {
            assert(connected(
                *plan,
                spec,
                name@,
                revision,
                streams,
                files,
                seen_check,
                Err::<StartPlan, SparrowError>(e),
            ));
            return Err(e);
        },
    }
    let bound: Bound = match bind_plan(&spec, name, revision) {
        Ok(b) => b,
        Err(e) => {
            assert(connected(
                *plan,
                spec,
                name@,
                revision,
                streams,
                files,
                seen_check,
                Err::<StartPlan, SparrowError>(e),
            ));
            return Err(e);
        },
    };
    let planned: Result<Vec<PlanStage>, SparrowError> = plan(&bound, &streams);
    let ghost seen_plan = planned;
    assert(call_ensures(*plan, (&bound, &streams), seen_plan));
    let stages: Vec<PlanStage> = match planned {
        Ok(s) => s,
        Err(e) => {
            let ghost r = Err::<StartPlan, SparrowError>(e);
            assert(staged(spec, files, bound, seen_plan, r));
            assert(connected(*plan, spec, name@, revision, streams, files, seen_check, r));
            return Err(e);
        },
    };
    match validate_aligned_plan(&spec, &stages, &files) {
        Ok(()) => {},
        Err(e) => {
            let ghost r = Err::<StartPlan, SparrowError>(e);
            assert(staged(spec, files, bound, seen_plan, r));
            assert(connected(*plan, spec, name@, revision, streams, files, seen_check, r));
            return Err(e);
        },
    }
    let r: StartPlan = StartPlan { spec, schema, streams, bound, stages, policy, files };
    let ghost done = Ok::<StartPlan, SparrowError>(r);
    assert(staged(spec, files, bound, seen_plan, done));
    assert(connected(*plan, spec, name@, revision, streams, files, seen_check, done));
    assert(streamed(
        *facts,
        *plan,
        *secrets,
        store@,
        demo,
        client,
        spec,
        name@,
        revision,
        seen_all,
        done,
    ));
    Ok(r)
}

} // verus!
