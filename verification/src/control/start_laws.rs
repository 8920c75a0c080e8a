//! What holds of every start: which revision runs, on what connectors, and when
//! it is refused; and of the secrets that it names.

use super::aligned::{prepare_aligned, AlignedSetup};
use super::plan::PlanStage;
use super::secrets::unsealed;
use super::spec::{PipelineSpec, StreamSpec};
use super::start::{prepare_start, wire_source, SourceWiring, StartPlan};
use super::status::PipelineStatus;
use super::store::{StreamRow, Store};
use super::supervisor::Supervisor;
use super::validate::{
    binder_catalog, capabilities_json, check_sink, check_source, honesty_json, name_id,
    reject_named_delivery, stream_to_schema, validate_aligned_plan, validate_io, Bound, Declared,
    FileFacts, Promise, StoreSecrets,
};
use crate::capabilities::{DeliveryGuarantee, RecoveryPolicy, ReplaySupport};
use crate::error::ConnectorError;
use crate::file_laws::law_guarantees_are_named;
use crate::model::{ErrorCode, Fault, Field, Schema, SparrowError};
use crate::policy::{target_fault, TargetPolicy};
use crate::secret::{found, SecretResolver};
use crate::text_laws::law_a_text_begins_with_its_beginning;
use vstd::prelude::*;
use vstd::utf8::*;

verus! {

/// A checkpointed job starts from a checkpoint where its pipeline asks for one,
/// and keeps its checkpoints where the pipeline says or next to the file.
pub proof fn law_what_a_checkpointed_job_needs(
    s: PipelineSpec,
    stages: Vec<PlanStage>,
    path: &str,
    files: FileFacts,
    r: Result<AlignedSetup, SparrowError>,
)
    requires
        call_ensures(prepare_aligned, (&s, &stages, path, &files), r),
    ensures
        r is Ok ==> (r->Ok_0.restore <==> s.restore is Some && s.restore->0.kind@
            == "checkpoint"@),
        r is Ok && s.checkpoint_dir is Some ==> r->Ok_0.checkpoint_dir@ == s.checkpoint_dir->0@,
        r is Ok && s.checkpoint_dir is None ==> r->Ok_0.checkpoint_dir@ == path@ + ".sparrow-chk"@,
        r is Ok ==> exists|i: int| 0 <= i < stages@.len() && #[trigger] stages@[i] is Window,
{
    super::plan::lemma_first_window(stages@);
}

/// Aligned recovery needs a file and a plan with a window whose state can be
/// kept; without aligned recovery any plan will do.
pub proof fn law_which_plans_are_kept(
    s: PipelineSpec,
    stages: Vec<PlanStage>,
    files: FileFacts,
    r: Result<(), SparrowError>,
)
    requires
        call_ensures(validate_aligned_plan, (&s, &stages, &files), r),
    ensures
        s.recovery@ == "restart_fresh"@ ==> r is Ok,
        s.recovery@ == "aligned"@ && !(s.source.kind@ == "file"@ || s.source.kind@
            == "file_replay"@ || s.source.kind@ == "replay"@) ==> r is Err && r->Err_0.code
            == ErrorCode::UnsupportedRestore,
        s.recovery@ == "aligned"@ && r is Ok ==> exists|i: int|
            0 <= i < stages@.len() && #[trigger] stages@[i] is Window,
        s.recovery@ != "restart_fresh"@ && s.recovery@ != "aligned"@ ==> r is Err,
{
    law_guarantees_are_named(s.recovery@);
    super::plan::lemma_first_window(stages@);
}

/// Which source a kind stands for, and with what settings.
pub proof fn law_which_source_is_wired(
    s: PipelineSpec,
    schema: Schema,
    stages: Vec<PlanStage>,
    files: FileFacts,
    name: &str,
    pid: u32,
    nanos: u64,
    r: Result<SourceWiring, SparrowError>,
)
    requires
        call_ensures(wire_source, (&s, schema, &stages, None, &files, name, pid, nanos), r),
    ensures
        s.source.kind@ == "file"@ && s.recovery@ == "restart_fresh"@ && r is Ok ==> {
            &&& r->Ok_0 is File
            &&& s.source.path is Some
            &&& r->Ok_0->File_0.path@ == s.source.path->0@
            &&& r->Ok_0->File_0.schema == schema
            &&& r->Ok_0->File_0.fail_on_decode == s.fail_on_decode
            &&& r->Ok_0->File_0.recovery == RecoveryPolicy::RestartFresh
        },
        s.source.kind@ == "file"@ && s.recovery@ == "aligned"@ && r is Ok ==> {
            &&& r->Ok_0 is Aligned
            &&& r->Ok_0->Aligned_0.path@ == s.source.path->0@
            &&& r->Ok_0->Aligned_0.recovery == RecoveryPolicy::Aligned
            &&& r->Ok_0->Aligned_1.restore <==> s.restore is Some && s.restore->0.kind@
                == "checkpoint"@
        },
        s.source.kind@ == "file"@ && s.source.path is None ==> r is Err,
        s.source.kind@ == "http_push"@ && r is Ok ==> r->Ok_0 is Push && r->Ok_0->Push_0.schema
            == schema,
        s.source.kind@ == "mqtt"@ && r is Ok ==> {
            &&& r->Ok_0 is Mqtt
            &&& r->Ok_0->Mqtt_0.host@ == s.source.host->0@
            &&& r->Ok_0->Mqtt_0.port == s.source.port->0
            &&& r->Ok_0->Mqtt_0.fail_on_decode == s.fail_on_decode
            &&& r->Ok_0->Mqtt_0.schema == schema
        },
        s.source.kind@ != "file"@ && s.source.kind@ != "file_replay"@ && s.source.kind@
            != "replay"@ && s.source.kind@ != "http_push"@ && s.source.kind@ != "mqtt"@
            ==> r is Err,
{
    law_guarantees_are_named(s.recovery@);
    reveal_strlit("restart_fresh");
    reveal_strlit("aligned");
    reveal_strlit("file");
    reveal_strlit("file_replay");
    reveal_strlit("replay");
    reveal_strlit("mqtt");
    reveal_strlit("http_push");
    assert("restart_fresh"@.len() == 13 && "aligned"@.len() == 7);
    assert("file"@.len() == 4 && "mqtt"@.len() == 4 && "http_push"@.len() == 9
        && "file_replay"@.len() == 11 && "replay"@.len() == 6);
    assert("file"@[0] == 'f' && "mqtt"@[0] == 'm');
}

/// Which sinks are accepted: a log always is; MQTT with quality 0 and a target
/// that is allowed; no other kind than these and HTTP.
pub proof fn law_which_sinks_are_accepted<S: SecretResolver>(
    s: PipelineSpec,
    secrets: S,
    policy: TargetPolicy,
    r: Result<(), SparrowError>,
)
    requires
        call_ensures(check_sink::<S>, (&s, &secrets, &policy, None), r),
    ensures
        s.sink.kind@ == "log"@ ==> r is Ok,
        s.sink.kind@ == "http"@ && r is Ok ==> !s.sink.skip_verify && s.sink.url is Some,
        s.sink.kind@ == "mqtt"@ && r is Ok ==> {
            &&& s.sink.qos == 0
            &&& s.sink.clean_session
            &&& s.sink.host is Some && s.sink.port is Some
            &&& 1 <= s.sink.outbox_capacity <= 1024
            &&& target_fault(policy.allowed@, s.sink.host->0@, s.sink.port->0) is None
        },
        s.sink.kind@ != "log"@ && s.sink.kind@ != "http"@ && s.sink.kind@ != "mqtt"@ ==> r is Err
            && r->Err_0.code == ErrorCode::FeatureUnavailable,
{
    reveal_strlit("log");
    reveal_strlit("mqtt");
    reveal_strlit("http");
    assert("log"@.len() == 3 && "mqtt"@.len() == 4 && "http"@.len() == 4);
    assert("mqtt"@[0] == 'm' && "http"@[0] == 'h');
}

/// Which sources are accepted: only a file can claim state; MQTT has quality 0
/// and a target that is allowed; no other kind than these and HTTP push.
pub proof fn law_which_sources_are_accepted<S: SecretResolver>(
    s: PipelineSpec,
    schema: Schema,
    secrets: S,
    policy: TargetPolicy,
    files: FileFacts,
    pid: u32,
    nanos: u64,
    r: Result<(), SparrowError>,
)
    requires
        call_ensures(
            check_source::<S>,
            (&s, &schema, &secrets, &policy, None, &files, pid, nanos),
            r,
        ),
    ensures
        s.source.kind@ == "mqtt"@ && r is Ok ==> {
            &&& s.claim() is Absent
            &&& s.source.qos == 0
            &&& s.source.clean_session
            &&& !s.source.skip_verify
            &&& s.source.host is Some && s.source.port is Some
            &&& target_fault(policy.allowed@, s.source.host->0@, s.source.port->0) is None
        },
        s.source.kind@ == "http_push"@ && r is Ok ==> s.claim() is Absent && 1
            <= s.source.inbox_capacity <= 1024,
        s.source.kind@ == "file"@ && r is Ok ==> s.source.path is Some,
        s.source.kind@ != "file"@ && s.source.kind@ != "file_replay"@ && s.source.kind@
            != "replay"@ && s.source.kind@ != "http_push"@ && s.source.kind@ != "mqtt"@ ==> r is Err
            && r->Err_0.code == ErrorCode::FeatureUnavailable,
{
    reveal_strlit("file");
    reveal_strlit("file_replay");
    reveal_strlit("replay");
    reveal_strlit("mqtt");
    reveal_strlit("http_push");
    assert("file"@.len() == 4 && "mqtt"@.len() == 4 && "http_push"@.len() == 9
        && "file_replay"@.len() == 11 && "replay"@.len() == 6);
    assert("file"@[0] == 'f' && "mqtt"@[0] == 'm');
}

/// Connectors are accepted only where the promises, the source and the sink are.
pub proof fn law_connectors_are_checked_as_a_whole<S: SecretResolver>(
    s: PipelineSpec,
    schema: Schema,
    secrets: S,
    policy: TargetPolicy,
    files: FileFacts,
    pid: u32,
    nanos: u64,
    r: Result<(), SparrowError>,
)
    requires
        call_ensures(
            validate_io::<S>,
            (&s, &schema, &secrets, &policy, None, &files, pid, nanos),
            r,
        ),
    ensures
        r is Ok ==> s.delivery@ == "live_best_effort"@,
        r is Ok ==> s.recovery@ == "restart_fresh"@ || s.recovery@ == "aligned"@,
        r is Ok && s.sink.kind@ == "mqtt"@ ==> s.sink.qos == 0,
        r is Ok && s.source.kind@ == "mqtt"@ ==> s.source.qos == 0,
        r is Ok ==> s.sink.kind@ == "log"@ || s.sink.kind@ == "http"@ || s.sink.kind@ == "mqtt"@,
        s.delivery@ != "live_best_effort"@ ==> r is Err && r->Err_0.code
            == ErrorCode::UnsupportedDelivery,
{
    law_guarantees_are_named(s.delivery@);
    law_guarantees_are_named(s.recovery@);
    reveal_strlit("log");
    reveal_strlit("mqtt");
    reveal_strlit("http");
    assert("log"@.len() == 3 && "mqtt"@.len() == 4 && "http"@.len() == 4);
    assert("mqtt"@[0] == 'm' && "http"@[0] == 'h');
    reveal_strlit("file");
    reveal_strlit("file_replay");
    reveal_strlit("replay");
    reveal_strlit("http_push");
    assert("file"@.len() == 4 && "http_push"@.len() == 9 && "file_replay"@.len() == 11
        && "replay"@.len() == 6);
    assert("file"@[0] == 'f');
}

/// A stream is read under the number of its name; all streams are read by name.
pub proof fn law_streams_are_read_by_name<P: Fn(&str) -> Result<Vec<Field>, String>>(
    row: StreamRow,
    parse: P,
    id: u32,
    r: Result<Schema, SparrowError>,
    name: &str,
    store: Store,
    all: Result<Vec<(String, Schema)>, SparrowError>,
    i: int,
)
    requires
        call_ensures(stream_to_schema::<P>, (&row, &parse), r),
        name@ == row.name@,
        call_ensures(name_id, (name,), id),
        call_ensures(binder_catalog::<P>, (&store, &parse), all),
    ensures
        r is Ok ==> r->Ok_0.id == id,
        r is Err ==> r->Err_0.code == ErrorCode::InvalidSchema,
        all is Ok ==> all->Ok_0@.len() == store.streams.names().len(),
        all is Ok && 0 <= i < all->Ok_0@.len() ==> all->Ok_0@[i].0@ == store.streams.names()[i],
        all is Err ==> all->Err_0.code == ErrorCode::InvalidSchema,
{
}

/// What is started is the revision that was asked for, with the stream that it
/// names, and only what the catalog lists may be reached.
pub proof fn law_what_is_started<P, F, Q, S: SecretResolver>(
    store: Store,
    name: &str,
    revision: u64,
    secrets: S,
    parse: P,
    facts: F,
    plan: Q,
    pid: u32,
    nanos: u64,
    r: Result<StartPlan, SparrowError>,
) where
    P: Fn(&str) -> Result<Vec<Field>, String>,
    F: Fn(&PipelineSpec) -> FileFacts,
    Q: Fn(&Bound, &Vec<(String, Schema)>) -> Result<Vec<PlanStage>, SparrowError>,

    requires
        call_ensures(
            prepare_start::<P, F, Q, S>,
            (&store, name, revision, &secrets, None, &parse, &facts, &plan, pid, nanos),
            r,
        ),
    ensures
        !store@.pipelines.dom().contains(name@) ==> r is Err && r->Err_0.code
            == ErrorCode::InvalidArgument,
        store@.pipelines.dom().contains(name@) && !(1 <= revision
            <= store@.pipelines[name@].len()) ==> r is Err && r->Err_0.code
            == ErrorCode::InvalidArgument,
        r is Ok ==> {
            let s = store@.pipelines[name@][revision - 1];
            &&& r->Ok_0.spec == s
            &&& store@.streams.dom().contains(s.stream@)
            &&& r->Ok_0.bound.revision == revision
            &&& s.delivery@ == "live_best_effort"@
            &&& s.version == 1
            &&& r->Ok_0.policy.allowed@.len() == store@.allowed.len()
        },
{
    if r is Ok {
        law_guarantees_are_named(store@.pipelines[name@][revision - 1].delivery@);
        let p = r->Ok_0;
        assert(super::validate::policy_targets(p.policy.allowed@).len() == p.policy.allowed@.len());
    }
}

/// A specification is read up to 64 KiB, and only one that is valid is taken.
pub proof fn law_specifications_are_bounded<
    P: Fn(&[u8]) -> Result<PipelineSpec, String>,
    T: Fn(&[u8]) -> Result<StreamSpec, String>,
>(
    bytes: &[u8],
    parse: P,
    read: T,
    r: Result<PipelineSpec, SparrowError>,
    t: Result<StreamSpec, SparrowError>,
)
    requires
        call_ensures(PipelineSpec::from_json::<P>, (bytes, &parse), r),
        call_ensures(StreamSpec::from_json::<T>, (bytes, &read), t),
    ensures
        bytes@.len() > 65536 ==> r is Err && r->Err_0.code == ErrorCode::MaxRecordSize && t is Err
            && t->Err_0.code == ErrorCode::MaxRecordSize,
        r is Ok ==> r->Ok_0.version == 1 && r->Ok_0.stream@.len() > 0 && (r->Ok_0.sql is Some) != (
        r->Ok_0.graph is Some) && call_ensures(parse, (bytes,), Ok(r->Ok_0)),
        t is Ok ==> call_ensures(read, (bytes,), Ok(t->Ok_0)),
{
}

/// A secret that a pipeline names comes from the environment where its name
/// begins with `env:`, else from the catalog; one that is not there is an error.
pub proof fn law_where_a_pipeline_has_its_secrets(
    s: StoreSecrets,
    name: &str,
    var: Seq<char>,
    r: Result<String, ConnectorError>,
)
    requires
        call_ensures(StoreSecrets::resolve, (&s, name), r),
    ensures
        name@ == "env:"@ + var ==> (r is Ok <==> found(s.variables(), var) is Some),
        name@ == "env:"@ + var && r is Ok ==> r->Ok_0@ == found(s.variables(), var)->0,
        name@.len() > 3 && name@[3] != ':' && r is Ok ==> s.catalog().secrets.dom().contains(name@)
            && unsealed(s.catalog().secrets[name@], s.catalog().key) == Ok::<Seq<char>, Fault>(
            r->Ok_0@,
        ),
        name@.len() > 3 && name@[3] != ':' && !s.catalog().secrets.dom().contains(name@) ==> r is Err
            && r->Err_0.code == ErrorCode::SecretMissing,
{
    reveal_strlit("env:");
    law_a_text_begins_with_its_beginning("env:"@, var, "env:"@ + var);
    assert(("env:"@ + var).skip(4) =~= var);
    if name@.len() > 3 && name@[3] != ':' {
        assert(name@.take(4)[3] != ':');
        assert("env:"@[3] == ':');
    }
}

/// A secret that was written is read back, under its name and under no other.
pub proof fn law_a_secret_is_read_back(
    s: &mut Store,
    name: &str,
    value: &str,
    r: Result<(), SparrowError>,
    t: Store,
    got: Result<Option<String>, SparrowError>,
    other: Seq<char>,
)
    requires
        call_ensures(Store::put_secret, (s, name, value), r),
        call_ensures(Store::get_secret, (&t, name), got),
        other != name@,
    ensures
        r is Ok ==> final(s)@.secrets.dom().contains(name@),
        r is Ok ==> unsealed(final(s)@.secrets[name@], final(s)@.key) == Ok::<Seq<char>, Fault>(
            value@,
        ),
        r is Ok && t@ == final(s)@ ==> got is Ok && got->Ok_0 is Some && got->Ok_0->0@ == value@,
        old(s)@.secrets.dom().contains(other) ==> final(s)@.secrets[other]
            == old(s)@.secrets[other],
        encode_utf8(value@).len() > 4096 ==> r is Err && final(s)@ == old(s)@,
        !t@.secrets.dom().contains(name@) ==> got == Ok::<Option<String>, SparrowError>(None),
{
}

/// Whether a pipeline is held: after sixteen failures in a row, or in safe mode
/// after one; it then shows why.
pub proof fn law_who_is_held(
    v: Supervisor,
    s: &mut Store,
    name: &str,
    r: Result<bool, SparrowError>,
)
    requires
        call_ensures(Supervisor::should_hold_failed, (&v, s, name), r),
        !s@.fail_next,
        s@.doing.dom().contains(name@),
    ensures
        r == Ok::<bool, SparrowError>(
            old(s)@.doing[name@].failures >= 16 || (v.safe_mode && old(s)@.doing[name@].blocked),
        ),
        r->Ok_0 ==> final(s)@.doing[name@].error is Some,
        !r->Ok_0 ==> final(s)@ == old(s)@,
        r->Ok_0 && old(s)@.doing[name@].failures >= 16 ==> final(s)@.doing[name@].error == Some(
            "held: consecutive_failures "@ + crate::text::decimal(
                old(s)@.doing[name@].failures as nat,
            ) + " reached cap "@ + crate::text::decimal(16),
        ),
        r->Ok_0 && old(s)@.doing[name@].failures < 16 && old(s)@.doing[name@].error is None
            ==> final(s)@.doing[name@].error == Some("held: safe-mode and last attempt failed"@),
        r->Ok_0 && old(s)@.doing[name@].failures < 16 && old(s)@.doing[name@].error is Some
            && !crate::text::begins(old(s)@.doing[name@].error->0, "held: safe-mode"@) ==> final(
            s)@.doing[name@].error == Some(
            "held: safe-mode and last attempt failed: "@ + old(s)@.doing[name@].error->0,
        ),
        final(s)@.doing[name@].failures == old(s)@.doing[name@].failures,
        final(s)@.doing[name@].status == old(s)@.doing[name@].status,
{
}

/// A start that begins is one attempt more, and is shown.
pub proof fn law_a_start_that_begins_is_shown(
    v: Supervisor,
    s: &mut Store,
    name: &str,
    revision: u64,
    note: &str,
    r: Result<(), SparrowError>,
)
    requires
        call_ensures(Supervisor::begin_start, (&v, s, name, revision, note), r),
        !s@.fail_next,
        s@.doing.dom().contains(name@),
        s@.doing[name@].attempt_id < u64::MAX,
    ensures
        r is Ok,
        final(s)@.doing[name@].status == PipelineStatus::Starting,
        final(s)@.doing[name@].revision == Some(revision),
        final(s)@.doing[name@].attempt_id == old(s)@.doing[name@].attempt_id + 1,
        final(s)@.doing[name@].failures == old(s)@.doing[name@].failures,
        !final(s)@.doing[name@].blocked,
        final(s)@.doing[name@].error is None,
        final(s)@.attempts.last().outcome == "starting"@,
        final(s)@.attempts.last().detail == Some(note@),
{
}

/// An entry of the audit trail says who did what to what, and how that ended.
pub proof fn law_an_entry_is_added(
    s: &mut Store,
    actor: &str,
    action: &str,
    target: Option<&str>,
    detail: Option<&str>,
    outcome: &str,
    r: Result<(), SparrowError>,
)
    requires
        call_ensures(Store::audit, (s, actor, action, target, detail, outcome), r),
        !s@.fail_next,
    ensures
        r is Ok,
        final(s)@.audits.last().actor == actor@,
        final(s)@.audits.last().action == action@,
        final(s)@.audits.last().outcome == outcome@,
        final(s)@.audits.last().at_ms == old(s)@.clock_ms,
        target is Some ==> final(s)@.audits.last().target == Some(target->0@),
        target is None ==> final(s)@.audits.last().target is None,
        detail is Some ==> final(s)@.audits.last().detail == Some(detail->0@),
        detail is None ==> final(s)@.audits.last().detail is None,
        final(s)@.doing == old(s)@.doing && final(s)@.secrets == old(s)@.secrets,
{
}

/// A new catalog is empty, and its tables are of version one.
pub proof fn law_a_new_catalog_is_empty(s: Store, version: u32, name: Seq<char>)
    requires
        call_ensures(Store::open_memory, (), s),
        call_ensures(Store::schema_version, (&s,), version),
    ensures
        version == 1,
        !s@.streams.dom().contains(name) && !s@.pipelines.dom().contains(name)
            && !s@.wanted.dom().contains(name) && !s@.doing.dom().contains(name)
            && !s@.secrets.dom().contains(name),
        s@.attempts.len() == 0 && s@.audits.len() == 0 && s@.allowed.len() == 0
            && s@.attempts_made == 0 && s@.audits_made == 0,
        !s@.fail_next,
{
}

/// What the catalog is said to hold is what its tables hold.
pub proof fn law_the_catalog_is_what_its_tables_hold(s: Store, name: Seq<char>, i: int)
    ensures
        s@.streams.dom() == s.streams@.dom(),
        s@.pipelines.dom() == s.pipelines@.dom(),
        s@.doing.dom() == s.doing@.dom(),
        s@.secrets.dom() == s.secrets@.dom(),
        s@.wanted == s.wanted@,
        s.streams@.dom().contains(name) ==> s@.streams[name] == s.streams@[name]@,
        s.pipelines@.dom().contains(name) ==> s@.pipelines[name] == s.pipelines@[name]@,
        s.secrets@.dom().contains(name) ==> s@.secrets[name] == s.secrets@[name]@,
        s.doing@.dom().contains(name) ==> {
            &&& s@.doing[name].status == s.doing@[name].status
            &&& s@.doing[name].revision == s.doing@[name].revision
            &&& s@.doing[name].attempt_id == s.doing@[name].attempt_id
            &&& s@.doing[name].failures == s.doing@[name].consecutive_failures
            &&& s@.doing[name].blocked == s.doing@[name].restart_blocked
            &&& s.doing@[name].last_error is Some ==> s@.doing[name].error == Some(
                s.doing@[name].last_error->0@,
            )
            &&& s.doing@[name].last_error is None ==> s@.doing[name].error is None
        },
        s@.attempts.len() == s.attempts@.len(),
        0 <= i < s.attempts@.len() ==> s@.attempts[i].id == s.attempts@[i].id
            && s@.attempts[i].pipeline == s.attempts@[i].pipeline@ && s@.attempts[i].revision
            == s.attempts@[i].revision && s@.attempts[i].outcome == s.attempts@[i].outcome@,
        s@.allowed.len() == s.allowed@.len(),
        0 <= i < s.allowed@.len() ==> s@.allowed[i] == (s.allowed@[i].0@, s.allowed@[i].1),
        s@.fail_next == s.fail_next_commit,
{
}

/// What is declared of the runtime: best effort, fresh starts, and checkpoints
/// for files alone; never exactly once.
pub proof fn law_what_is_declared(p: Promise, d: Declared)
    requires
        call_ensures(honesty_json, (), p),
        call_ensures(capabilities_json, (), d),
    ensures
        p.delivery@ == "live_best_effort"@ && p.recovery@ == "restart_fresh"@ && p.recovery_aligned@
            == "aligned"@ && p.replay_mqtt@ == "unsupported"@ && p.replay_file@ == "replayable"@
            && p.exactly_once@ == "rejected"@,
        d.delivery@ == "live_best_effort"@ && d.recovery@ == "restart_fresh"@
            && d.recovery_pt_window@ == "none"@ && d.recovery_aligned@ == "aligned"@
            && d.exactly_once@ == "rejected"@,
        d.connectors@.len() == 5,
        d.connectors@[0].kind@ == "mqtt"@ && d.connectors@[1].kind@ == "http"@
            && d.connectors@[2].kind@ == "http_push"@ && d.connectors@[3].kind@ == "mqtt_sink"@
            && d.connectors@[4].kind@ == "file"@,
        d.connectors@[0].replay == ReplaySupport::Unsupported && d.connectors@[0].recovery
            == RecoveryPolicy::RestartFresh && d.connectors@[0].delivery
            == DeliveryGuarantee::LiveBestEffort,
        d.connectors@[4].replay == ReplaySupport::Replayable && d.connectors@[4].recovery
            == RecoveryPolicy::Aligned,
{
}

/// Only best effort can be asked for by name.
pub proof fn law_only_best_effort_is_delivered(
    name: &str,
    r: Result<DeliveryGuarantee, SparrowError>,
)
    requires
        call_ensures(reject_named_delivery, (name,), r),
    ensures
        r is Ok <==> name@ == "live_best_effort"@,
        r is Err ==> r->Err_0.code == ErrorCode::UnsupportedDelivery,
{
}

} // verus!
