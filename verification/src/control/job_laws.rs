//! What holds of every job: what it is made of, where its checkpoints lie, how
//! its settings follow from its specification, and how secrets are kept.

use super::aligned::{
    begin, checkpoint_dir, joined, AlignedRun, AlignedSetup, CheckpointReply, Cut, Snapshot,
};
use super::kernel::{compact_kernel, host_kernel, KernelOptions};
use super::plan::{
    check_aligned_stages, layout_from_physical, window_from_plan, PlanLayout, PlanStage,
};
use super::secrets::{
    configured_key, hex_decode, hex_encode, hex_text, key_from, law_hex_is_read_back, secrets_key,
    seal_with, unhex, unseal_secret, unsealed, KeySources, SecretsKey,
};
use super::spec::{file_kind, PipelineSpec, SinkSpec, SourceSpec, SpecDefaults};
use super::start::{channels, wire_sink, Channels, SinkWiring};
use super::store::Store;
use super::validate::{
    bind_plan, effective_guarantees, http_config, http_push_config, mqtt_config, mqtt_sink_config,
    name_id, replay_label_for_source, resolve_file_contract, store_policy, Bound, DemoEndpoints,
    Effective, Query,
};
use crate::capabilities::{DeliveryGuarantee, RecoveryPolicy, RestoreClaim};
use crate::file_laws::law_guarantees_are_named;
use crate::file_replay::{FileContract, SourcePosition};
use crate::http::push::HttpPushSourceConfig;
use crate::http::sink::HttpSinkConfig;
use crate::model::{ErrorCode, Fault, Schema, SparrowError};
use crate::mqtt::sink::MqttSinkConfig;
use crate::mqtt::source::MqttSourceConfig;
use crate::policy::TargetPolicy;
use crate::text::{begins, decimal, trimmed};
use crate::text_laws::law_a_text_begins_with_its_beginning;
use vstd::prelude::*;
use vstd::utf8::*;

verus! {

/// Checkpoints go where the pipeline says, else next to its file.
pub proof fn law_where_checkpoints_go(spec: PipelineSpec, path: &str, r: String)
    requires
        call_ensures(checkpoint_dir, (&spec, path), r),
    ensures
        spec.checkpoint_dir is Some ==> r@ == spec.checkpoint_dir->0@,
        spec.checkpoint_dir is None ==> r@ == path@ + ".sparrow-chk"@,
{
}

/// A job that starts afresh has made no checkpoint; the first one is number one.
pub proof fn law_a_fresh_job(at: SourcePosition, r: AlignedRun)
    requires
        call_ensures(AlignedRun::fresh, (at,), r),
    ensures
        r.next_id == 1 && r.ingested == 0 && r.commits == 0 && r.aborts == 0 && r.position == at,
{
}

/// A checkpoint lies where the source stood when its barrier went out, whatever
/// was read since, and what is kept of it is that place.
pub proof fn law_a_checkpoint_lies_at_its_cut(
    run: AlignedRun,
    cut: Cut,
    later: AlignedRun,
    layout: PlanLayout,
    kept: Snapshot,
)
    requires
        call_ensures(AlignedRun::cut, (&run,), cut),
        call_ensures(AlignedRun::snapshot, (&later, &cut, &layout), kept),
    ensures
        cut.checkpoint_id == run.next_id,
        cut.source.offset_bytes == run.position.offset_bytes,
        cut.source.record_index == run.position.record_index,
        cut.source.identity == run.position.identity,
        cut.ingested_rows == run.ingested,
        kept.checkpoint_id == run.next_id,
        kept.source.offset_bytes == run.position.offset_bytes,
        kept.source.record_index == run.position.record_index,
        kept.source.identity == run.position.identity,
        kept.ingested_rows == run.ingested,
        kept.layout == layout,
{
}

/// A job goes on from a snapshot of its own plan, and from no other: at the place
/// and with the rows of the snapshot, its next checkpoint being the one after.
pub proof fn law_a_job_goes_on_from_its_snapshot(
    s: Snapshot,
    now: PlanLayout,
    r: Result<AlignedRun, SparrowError>,
)
    requires
        call_ensures(AlignedRun::restored, (&s, &now), r),
    ensures
        r is Ok <==> s.layout.operator == now.operator && s.layout.slot == now.slot
            && s.layout.window == now.window && s.layout.fingerprint == now.fingerprint
            && s.layout.where_fingerprint == now.where_fingerprint,
        r is Err ==> r->Err_0.code == ErrorCode::UnsupportedRestore,
        r is Ok ==> r->Ok_0.position.offset_bytes == s.source.offset_bytes
            && r->Ok_0.position.record_index == s.source.record_index && r->Ok_0.position.identity
            == s.source.identity && r->Ok_0.ingested == s.ingested_rows,
        r is Ok && s.checkpoint_id < u64::MAX ==> r->Ok_0.next_id == s.checkpoint_id + 1,
        r is Ok ==> r->Ok_0.commits == 0 && r->Ok_0.aborts == 0,
{
}

/// What happens to a checkpoint: rows that were read count; a checkpoint that is
/// committed gives its number up and counts as one; one that is abandoned gives
/// its number up too, and counts as aborted; one that could not be committed keeps
/// its number.
pub proof fn law_what_becomes_of_a_checkpoint(
    a: &mut AlignedRun,
    at: SourcePosition,
    rows: u64,
    b: &mut AlignedRun,
    cut: Cut,
    error: SparrowError,
    rb: CheckpointReply,
    c: &mut AlignedRun,
    committed: Result<u64, SparrowError>,
    rc: CheckpointReply,
)
    requires
        call_ensures(AlignedRun::on_batch, (a, at, rows), ()),
        call_ensures(AlignedRun::on_abandoned, (b, &cut, error), rb),
        call_ensures(AlignedRun::on_committed, (c, committed), rc),
    ensures
        final(a).position == at && final(a).ingested == old(a).ingested + rows,
        final(a).next_id == old(a).next_id && final(a).commits == old(a).commits && final(a).aborts
            == old(a).aborts,
        rb == CheckpointReply::Failed(error),
        cut.checkpoint_id < u64::MAX ==> final(b).next_id == cut.checkpoint_id + 1,
        final(b).aborts == old(b).aborts + 1 && final(b).commits == old(b).commits,
        final(b).ingested == old(b).ingested && final(b).position == old(b).position,
        committed is Ok ==> rc == CheckpointReply::Committed(committed->Ok_0),
        committed is Ok && committed->Ok_0 < u64::MAX ==> final(c).next_id == committed->Ok_0 + 1,
        committed is Ok ==> final(c).commits == old(c).commits + 1 && final(c).aborts == old(
            c).aborts,
        committed is Err ==> rc == CheckpointReply::Failed(committed->Err_0),
        committed is Err ==> final(c).next_id == old(c).next_id && final(c).commits == old(
            c).commits && final(c).aborts == old(c).aborts + 1,
        final(c).ingested == old(c).ingested && final(c).position == old(c).position,
{
}

/// A job that is to start from a checkpoint never starts without one.
pub proof fn law_a_checkpoint_is_not_made_up(
    setup: AlignedSetup,
    found: Option<Result<Snapshot, SparrowError>>,
    at: SourcePosition,
    r: Result<AlignedRun, SparrowError>,
)
    requires
        call_ensures(begin, (&setup, found, at), r),
    ensures
        setup.restore && found is None ==> r is Err && r->Err_0.code
            == ErrorCode::UnsupportedRestore,
        setup.restore && found is Some && found->0 is Err ==> r is Err && r->Err_0
            == found->0->Err_0,
        setup.restore && found is Some && found->0 is Ok ==> (r is Ok <==> found->0->Ok_0.layout
            == setup.layout),
        setup.restore && r is Ok ==> r->Ok_0.position.offset_bytes
            == found->0->Ok_0.source.offset_bytes && r->Ok_0.ingested
            == found->0->Ok_0.ingested_rows,
        !setup.restore ==> r is Ok && r->Ok_0.position == at && r->Ok_0.ingested == 0
            && r->Ok_0.next_id == 1,
{
}

/// What a job came to is its own error, else that of its source.
pub proof fn law_the_error_of_the_job_comes_first(
    job: Result<(), SparrowError>,
    source: Result<(), SparrowError>,
    r: Result<(), SparrowError>,
)
    requires
        call_ensures(joined, (job, source), r),
    ensures
        r is Ok <==> job is Ok && source is Ok,
        job is Err ==> r == job,
        job is Ok ==> r == source,
{
}

/// The window of a plan is its first one, and the layout of a plan is that
/// window's.
pub proof fn law_the_first_window_counts(
    stages: Vec<PlanStage>,
    w: Result<usize, SparrowError>,
    l: Result<PlanLayout, SparrowError>,
)
    requires
        call_ensures(window_from_plan, (&stages,), w),
        call_ensures(layout_from_physical, (&stages,), l),
    ensures
        w is Ok ==> w->Ok_0 < stages@.len() && stages@[w->Ok_0 as int] is Window && forall|j: int|
            0 <= j < w->Ok_0 ==> !(#[trigger] stages@[j] is Window),
        w is Err ==> forall|j: int| 0 <= j < stages@.len() ==> !(#[trigger] stages@[j] is Window),
        w is Err ==> w->Err_0.code == ErrorCode::FeatureUnavailable,
        l is Ok <==> w is Ok,
        l is Ok ==> {
            let s = stages@[w->Ok_0 as int];
            &&& l->Ok_0.operator == s->operator
            &&& l->Ok_0.window == s->kind
            &&& l->Ok_0.fingerprint == s->fingerprint
            &&& l->Ok_0.where_fingerprint == s->filter
            &&& l->Ok_0.slot == 1
        },
{
    super::plan::lemma_first_window(stages@);
}

proof fn lemma_aligned(stages: Seq<PlanStage>)
    ensures
        super::plan::aligned_fault(stages) is None <==> forall|i: int|
            0 <= i < stages.len() ==> !(#[trigger] stages[i] is Deduplicate)
                && !(stages[i] is Lookup) && !(stages[i] is Window
                && stages[i]->kind is TumblingProcessingTime),
    decreases stages.len(),
{
    if stages.len() > 0 {
        let t = stages.drop_last();
        lemma_aligned(t);
        if super::plan::aligned_fault(stages) is None {
            assert forall|i: int| 0 <= i < stages.len() implies !(
            #[trigger] stages[i] is Deduplicate) && !(stages[i] is Lookup) && !(
            stages[i] is Window && stages[i]->kind is TumblingProcessingTime) by {
                if i < t.len() {
                    assert(t[i] == stages[i]);
                }
            }
        }
        if forall|i: int|
            0 <= i < stages.len() ==> !(#[trigger] stages[i] is Deduplicate) && !(
            stages[i] is Lookup) && !(stages[i] is Window
                && stages[i]->kind is TumblingProcessingTime) {
            assert forall|i: int| 0 <= i < t.len() implies !(#[trigger] t[i] is Deduplicate) && !(
            t[i] is Lookup) && !(t[i] is Window && t[i]->kind is TumblingProcessingTime) by {
                assert(t[i] == stages[i]);
            }
            assert(!(stages[stages.len() - 1] is Deduplicate));
        }
    }
}

/// A plan can be checkpointed where it has a window and nothing whose state a
/// checkpoint would lose: no window in processing time, no deduplication, no
/// lookup.
pub proof fn law_what_can_be_checkpointed(stages: Vec<PlanStage>, r: Result<(), SparrowError>)
    requires
        call_ensures(check_aligned_stages, (&stages,), r),
    ensures
        r is Ok <==> (exists|i: int| 0 <= i < stages@.len() && #[trigger] stages@[i] is Window)
            && forall|i: int|
            0 <= i < stages@.len() ==> !(#[trigger] stages@[i] is Deduplicate) && !(
            stages@[i] is Lookup) && !(stages@[i] is Window
                && stages@[i]->kind is TumblingProcessingTime),
{
    super::plan::lemma_first_window(stages@);
    lemma_aligned(stages@);
}

/// The sizes of the two kernels.
pub proof fn law_kernel_sizes(n: usize, small: KernelOptions, host: KernelOptions, other: KernelOptions)
    requires
        call_ensures(compact_kernel, (), small),
        call_ensures(host_kernel, (Some(n),), host),
        call_ensures(host_kernel, (None,), other),
    ensures
        small.worker_threads == 2 && small.mailbox_items == 8 && small.mailbox_bytes == 64 * 1024
            && small.rows_per_batch == 4,
        4 <= host.worker_threads <= 16,
        4 <= n <= 16 ==> host.worker_threads == n,
        n > 16 ==> host.worker_threads == 16,
        n < 4 ==> host.worker_threads == 4,
        other.worker_threads == 4,
        host.mailbox_items == 32 && host.mailbox_bytes == 256 * 1024 && host.rows_per_batch == 8,
{
}

/// A specification is of version one, names a stream, and has a query of at most
/// 8 KiB that is not blank, or a graph, but not both.
pub proof fn law_which_specifications_are_taken(s: PipelineSpec, r: Result<(), SparrowError>)
    requires
        call_ensures(PipelineSpec::validate, (&s,), r),
    ensures
        r is Ok <==> s.version == 1 && s.stream@.len() > 0 && (s.sql is Some) != (s.graph is Some)
            && (s.sql is Some ==> trimmed(s.sql->0@).len() > 0 && encode_utf8(s.sql->0@).len()
            <= 8192),
        s.version != 1 ==> r is Err && r->Err_0.code == ErrorCode::FeatureUnavailable,
        r is Err && s.version == 1 && s.stream@.len() > 0 && s.sql is Some && s.graph is None
            && trimmed(s.sql->0@).len() > 0 ==> r->Err_0.code == ErrorCode::MaxRecordSize,
{
}

/// What stands for what a specification leaves out.
pub proof fn law_defaults(
    version: u32,
    live: String,
    fresh: String,
    topic: String,
    inbox: usize,
    outbox: usize,
)
    requires
        call_ensures(SpecDefaults::one, (), version),
        call_ensures(SpecDefaults::live, (), live),
        call_ensures(SpecDefaults::fresh, (), fresh),
        call_ensures(SpecDefaults::default_topic, (), topic),
        call_ensures(SpecDefaults::default_inbox, (), inbox),
        call_ensures(SpecDefaults::default_outbox, (), outbox),
    ensures
        version == 1 && live@ == "live_best_effort"@ && fresh@ == "restart_fresh"@ && topic@
            == "sensors/json"@ && inbox == 16 && outbox == 16,
{
}

/// What a pipeline claims to start from.
pub proof fn law_what_is_claimed(s: PipelineSpec, r: RestoreClaim)
    requires
        call_ensures(PipelineSpec::restore_claim, (&s,), r),
    ensures
        s.restore is None ==> r is Absent,
        s.restore is Some && s.restore->0.kind@ == "none"@ ==> r is Absent,
        s.restore is Some && s.restore->0.kind@ == "checkpoint"@ ==> r is Checkpoint,
        s.restore is Some && s.restore->0.kind@ == "mqtt_session"@ ==> r is MqttSession,
        s.restore is Some && s.restore->0.kind@.len() > 0 && s.restore->0.kind@ != "none"@
            && s.restore->0.kind@ != "checkpoint"@ && s.restore->0.kind@ != "mqtt_session"@
            ==> r is External,
{
    reveal_strlit("none");
    reveal_strlit("checkpoint");
    reveal_strlit("mqtt_session");
    assert("none"@.len() == 4 && "checkpoint"@.len() == 10 && "mqtt_session"@.len() == 12);
}

/// What a pipeline is promised: delivery is best effort, and nothing else can be
/// asked for. It starts fresh and claims nothing, or is recovered aligned, from a
/// file and with no other claim than a checkpoint.
pub proof fn law_what_is_promised(
    s: PipelineSpec,
    r: Result<(DeliveryGuarantee, RecoveryPolicy), SparrowError>,
)
    requires
        call_ensures(PipelineSpec::check_delivery, (&s,), r),
    ensures
        r is Ok ==> s.delivery@ == "live_best_effort"@,
        r is Ok ==> s.recovery@ == "restart_fresh"@ || s.recovery@ == "aligned"@,
        s.delivery@ == "live_best_effort"@ && s.recovery@ == "restart_fresh"@ ==> (r is Ok <==> (
        s.restore is None || s.restore->0.kind@ == "none"@ || s.restore->0.kind@.len() == 0)),
        s.recovery@ == "aligned"@ && r is Ok ==> s.source.kind@ == "file"@ || s.source.kind@
            == "file_replay"@ || s.source.kind@ == "replay"@,
        s.recovery@ == "aligned"@ && s.delivery@ == "live_best_effort"@ && s.restore is None ==> (
        r is Ok <==> s.source.kind@ == "file"@ || s.source.kind@ == "file_replay"@ || s.source.kind@
            == "replay"@),
        r is Ok && s.recovery@ == "aligned"@ ==> r->Ok_0.1 == RecoveryPolicy::Aligned,
        r is Ok && s.recovery@ == "restart_fresh"@ ==> r->Ok_0.1 == RecoveryPolicy::RestartFresh,
{
    law_guarantees_are_named(s.delivery@);
    law_guarantees_are_named(s.recovery@);
    reveal_strlit("none");
    reveal_strlit("checkpoint");
    reveal_strlit("mqtt_session");
    reveal_strlit("restart_fresh");
    reveal_strlit("aligned");
    assert("none"@.len() == 4 && "checkpoint"@.len() == 10 && "mqtt_session"@.len() == 12);
    assert("restart_fresh"@.len() == 13 && "aligned"@.len() == 7);
}

/// Only a file can be read again.
pub proof fn law_only_a_file_can_be_read_again(kind: &str, f: bool, label: &'static str)
    requires
        call_ensures(file_kind, (kind,), f),
        call_ensures(replay_label_for_source, (kind,), label),
    ensures
        f <==> kind@ == "file"@ || kind@ == "file_replay"@ || kind@ == "replay"@,
        label@ == "replayable"@ <==> f,
        kind@ == "mqtt"@ || kind@ == "http_push"@ ==> label@ == "unsupported"@,
{
    reveal_strlit("file");
    reveal_strlit("file_replay");
    reveal_strlit("replay");
    reveal_strlit("mqtt");
    reveal_strlit("http_push");
    reveal_strlit("replayable");
    reveal_strlit("unsupported");
    reveal_strlit("unbound");
    assert("replayable"@.len() == 10 && "unsupported"@.len() == 11 && "unbound"@.len() == 7);
    assert("mqtt"@[0] == 'm' && "http_push"@[0] == 'h' && "file"@[0] == 'f');
    assert("file_replay"@[0] == 'f' && "replay"@[0] == 'r');
}

/// What is promised of a pipeline, in words: best effort, never exactly once.
pub proof fn law_guarantees_in_words(s: PipelineSpec, r: Effective)
    requires
        call_ensures(effective_guarantees, (&s,), r),
    ensures
        r.delivery@ == "live_best_effort"@,
        !r.exactly_once,
        s.recovery@ == "aligned"@ ==> r.recovery@ == "aligned"@,
        s.recovery@ != "aligned"@ ==> r.recovery@ == "restart_fresh"@,
        r.aligned_eligible <==> s.source.kind@ == "file"@ || s.source.kind@ == "file_replay"@
            || s.source.kind@ == "replay"@,
        r.aligned_eligible ==> r.replay@ == "replayable"@,
        !r.aligned_eligible ==> r.replay@ == "unsupported"@ && r.recovery_risk@
            == "no_durable_restore; live_best_effort_drops_ok"@,
        r.aligned_eligible && s.recovery@ == "aligned"@ ==> r.recovery_risk@
            == "committed_checkpoint_only"@,
        r.aligned_eligible && s.recovery@ != "aligned"@ ==> r.recovery_risk@
            == "restart_fresh_loses_in_memory_state"@,
{
    law_guarantees_are_named(s.recovery@);
}

/// The number of a name is the 32-bit FNV-1a hash of its bytes, one where that is
/// zero.
pub proof fn law_the_number_of_a_name(name: &str, r: u32, b: Seq<u8>, x: u8)
    requires
        call_ensures(name_id, (name,), r),
    ensures
        r != 0,
        super::validate::fnv32(Seq::empty()) == 2166136261,
        super::validate::fnv32(b.push(x)) == (super::validate::fnv32(b) ^ (
        x as u32)).wrapping_mul(16777619),
        super::validate::fnv32(encode_utf8(name@)) != 0 ==> r == super::validate::fnv32(
            encode_utf8(name@),
        ),
        super::validate::fnv32(encode_utf8(name@)) == 0 ==> r == 1,
{
    assert(b.push(x).drop_last() =~= b);
}

/// What the planner is handed: the query of the specification, and the pipeline
/// by the number of its name.
pub proof fn law_what_is_planned(
    s: PipelineSpec,
    name: &str,
    revision: u64,
    r: Result<Bound, SparrowError>,
    id: u32,
)
    requires
        call_ensures(bind_plan, (&s, name, revision), r),
        call_ensures(name_id, (name,), id),
    ensures
        r is Ok && s.sql is Some ==> r->Ok_0.query == Query::Sql(s.sql->0),
        r is Ok && s.sql is None ==> s.graph is Some && r->Ok_0.query == Query::Graph(s.graph->0),
        r is Ok ==> r->Ok_0.revision == revision && r->Ok_0.pipeline == id,
        r is Ok ==> s.version == 1 && s.delivery@ == "live_best_effort"@,
{
    law_guarantees_are_named(s.delivery@);
}

/// The targets that may be reached: those that the catalog lists, and then the
/// demonstration's own.
pub proof fn law_what_may_be_reached(
    s: Store,
    d: DemoEndpoints,
    a: TargetPolicy,
    b: TargetPolicy,
)
    requires
        call_ensures(store_policy, (&s, None), a),
        call_ensures(store_policy, (&s, Some(&d)), b),
    ensures
        a.allowed@.len() == s@.allowed.len(),
        forall|i: int|
            0 <= i < a.allowed@.len() ==> (#[trigger] a.allowed@[i]).host@ == s@.allowed[i].0
                && a.allowed@[i].port == s@.allowed[i].1,
        b.allowed@.len() == s@.allowed.len() + 2,
        b.allowed@[s@.allowed.len() as int].host@ == d.mqtt_host@,
        b.allowed@[s@.allowed.len() as int].port == d.mqtt_port,
        b.allowed@[s@.allowed.len() + 1int].host@ == "127.0.0.1"@,
        b.allowed@[s@.allowed.len() + 1int].port == d.http_port,
{
    let x = super::validate::policy_targets(a.allowed@);
    assert(x =~= s@.allowed);
    assert forall|i: int| 0 <= i < a.allowed@.len() implies (#[trigger] a.allowed@[i]).host@
        == s@.allowed[i].0 && a.allowed@[i].port == s@.allowed[i].1 by {
        assert(x[i] == s@.allowed[i]);
    }
    let y = super::validate::policy_targets(b.allowed@);
    assert(y.len() == s@.allowed.len() + 2);
    assert(y[s@.allowed.len() as int] == (d.mqtt_host@, d.mqtt_port));
    assert(y[s@.allowed.len() + 1int] == ("127.0.0.1"@, d.http_port));
}

/// The settings of an MQTT source follow from what was asked for. Only quality of
/// service zero is kept, certificates are verified, and names and passwords go
/// over TLS alone.
pub proof fn law_settings_of_an_mqtt_source(
    s: SourceSpec,
    schema: Schema,
    instance: &str,
    pid: u32,
    nanos: u64,
    r: Result<MqttSourceConfig, SparrowError>,
)
    requires
        call_ensures(mqtt_config, (&s, schema, None, instance, pid, nanos), r),
    ensures
        r is Ok <==> s.qos == 0 && !s.skip_verify && !s.use_demo_io && s.host is Some
            && s.port is Some && (s.username_secret is None && s.password_secret is None || s.tls),
        r is Ok ==> {
            let c = r->Ok_0;
            &&& c.host@ == s.host->0@
            &&& c.port == s.port->0
            &&& c.topic@ == s.topic@
            &&& c.qos == 0
            &&& c.clean_session == s.clean_session
            &&& c.tls.enabled == s.tls
            &&& !c.tls.skip_verify
            &&& c.username_secret == s.username_secret
            &&& c.password_secret == s.password_secret
            &&& c.inbox_capacity == s.inbox_capacity
            &&& c.schema == schema
            &&& s.client_id is Some ==> c.client_id@ == s.client_id->0@
            &&& s.client_id is None ==> c.client_id@ == "sparrow-"@ + instance@ + "-"@ + decimal(
                pid as nat,
            ) + "-"@ + decimal(nanos as nat)
            &&& c.keepalive_ms == 30000
            &&& c.connect_timeout_ms == 2000
            &&& c.reconnect_min_ms == 50
            &&& c.reconnect_max_ms == 2000
            &&& c.inbox_wait_ms == 5
            &&& c.restore is Absent
        },
        s.qos != 0 ==> r is Err && r->Err_0.code == ErrorCode::UnsupportedDelivery,
        s.qos == 0 && s.skip_verify ==> r is Err && r->Err_0.code == ErrorCode::PolicyDenied,
{
}

/// The settings of an HTTP sink follow from what was asked for: certificates are
/// verified, and a secret header goes over `https` alone.
pub proof fn law_settings_of_an_http_sink(
    s: SinkSpec,
    r: Result<HttpSinkConfig, SparrowError>,
    rest: Seq<char>,
)
    requires
        call_ensures(http_config, (&s, None), r),
    ensures
        r is Ok ==> !s.skip_verify && !s.use_demo_io && s.url is Some && r->Ok_0.url@ == s.url->0@,
        r is Ok ==> r->Ok_0.header_secret == s.header_secret && r->Ok_0.outbox_capacity
            == s.outbox_capacity,
        s.url is Some && !s.skip_verify && !s.use_demo_io && s.header_secret is None ==> r is Ok,
        s.url is Some && !s.skip_verify && !s.use_demo_io && s.url->0@ == "https://"@ + rest
            ==> r is Ok && r->Ok_0.tls.enabled == (s.tls || s.header_secret is Some),
        s.url is Some && !s.use_demo_io && s.url->0@ == "http://"@ + rest && s.header_secret is Some
            ==> r is Err && r->Err_0.code == ErrorCode::PolicyDenied,
        r is Ok && s.url->0@ == "http://"@ + rest ==> !r->Ok_0.tls.enabled,
        r is Ok ==> !r->Ok_0.tls.skip_verify && r->Ok_0.restore is Absent,
        r is Ok ==> r->Ok_0.timeout_ms == 1500 && r->Ok_0.connect_timeout_ms == 500
            && r->Ok_0.max_retries == 2 && r->Ok_0.retry_backoff_ms == 40 && r->Ok_0.batch_rows == 1
            && r->Ok_0.batch_bytes == 256 * 1024 && r->Ok_0.linger_ms == 0 && r->Ok_0.max_inflight
            == 1,
{
    reveal_strlit("https://");
    reveal_strlit("http://");
    law_a_text_begins_with_its_beginning("https://"@, rest, "https://"@ + rest);
    assert(("http://"@ + rest)[4] == ':');
    assert("https://"@[4] == 's');
    if begins("http://"@ + rest, "https://"@) {
        assert(("http://"@ + rest).take(8)[4] == 's');
    }
}

/// The settings of a push source and of an MQTT sink follow from what was asked
/// for.
pub proof fn law_settings_of_push_and_mqtt_sink(
    s: SourceSpec,
    schema: Schema,
    p: HttpPushSourceConfig,
    k: SinkSpec,
    m: Result<MqttSinkConfig, SparrowError>,
)
    requires
        call_ensures(http_push_config, (&s, schema), p),
        call_ensures(mqtt_sink_config, (&k, None), m),
    ensures
        s.bind is Some ==> p.bind@ == s.bind->0@,
        s.bind is None ==> p.bind@ == "127.0.0.1:0"@,
        s.path is Some ==> p.path@ == s.path->0@,
        s.path is None ==> p.path@ == "/push"@,
        p.inbox_capacity == s.inbox_capacity && p.schema == schema,
        m is Ok <==> !k.use_demo_io && k.host is Some && k.port is Some,
        m is Ok ==> {
            let c = m->Ok_0;
            &&& c.host@ == k.host->0@
            &&& c.port == k.port->0
            &&& k.topic is Some ==> c.topic@ == k.topic->0@
            &&& k.topic is None ==> c.topic@ == "sparrow/out"@
            &&& k.client_id is Some ==> c.client_id@ == k.client_id->0@
            &&& k.client_id is None ==> c.client_id@ == "sparrow-mqtt-sink"@
            &&& c.qos == k.qos
            &&& c.clean_session == k.clean_session
            &&& c.tls.enabled == k.tls
            &&& !c.tls.skip_verify
            &&& c.outbox_capacity == k.outbox_capacity
            &&& c.keepalive_ms == 30000
            &&& c.connect_timeout_ms == 2000
            &&& c.restore is Absent
        },
{
}

/// The demonstration's endpoints stand in where they are asked for.
pub proof fn law_the_demonstration_stands_in(
    d: DemoEndpoints,
    s: SourceSpec,
    schema: Schema,
    r: Result<MqttSourceConfig, SparrowError>,
    k: SinkSpec,
    h: Result<HttpSinkConfig, SparrowError>,
    m: Result<MqttSinkConfig, SparrowError>,
)
    requires
        call_ensures(mqtt_config, (&s, schema, Some(&d), "a", 0, 0), r),
        call_ensures(http_config, (&k, Some(&d)), h),
        call_ensures(mqtt_sink_config, (&k, Some(&d)), m),
        s.use_demo_io,
        k.use_demo_io,
    ensures
        r is Ok ==> r->Ok_0.host@ == d.mqtt_host@ && r->Ok_0.port == d.mqtt_port
            && !r->Ok_0.tls.enabled,
        h is Ok ==> h->Ok_0.url@ == d.http_url@,
        m is Ok && m->Ok_0.host@ == d.mqtt_host@ && m->Ok_0.port == d.mqtt_port
            && !m->Ok_0.tls.enabled,
{
}

/// Which sink a kind stands for.
pub proof fn law_which_sink_is_wired(s: SinkSpec, r: Result<SinkWiring, SparrowError>)
    requires
        call_ensures(wire_sink, (&s, None), r),
    ensures
        s.kind@ == "log"@ ==> r == Ok::<SinkWiring, SparrowError>(SinkWiring::Log(64)),
        s.kind@ == "mqtt"@ && r is Ok ==> r->Ok_0 is Mqtt,
        s.kind@ == "http"@ && r is Ok ==> r->Ok_0 is Http,
{
    reveal_strlit("log");
    reveal_strlit("mqtt");
    reveal_strlit("http");
    assert("log"@.len() == 3 && "mqtt"@[0] == 'm' && "http"@[0] == 'h');
    assert("mqtt"@.len() == 4);
}

/// The channels of a job hold what was asked for, at least one.
pub proof fn law_channels_hold_what_was_asked_for(s: PipelineSpec, r: Channels)
    requires
        call_ensures(channels, (&s,), r),
    ensures
        s.source.inbox_capacity > 0 ==> r.inbox == s.source.inbox_capacity,
        s.source.inbox_capacity == 0 ==> r.inbox == 1,
        s.sink.outbox_capacity > 0 ==> r.outbox == s.sink.outbox_capacity,
        s.sink.outbox_capacity == 0 ==> r.outbox == 1,
{
}

/// A file may grow unless another contract is named.
pub proof fn law_a_file_may_grow(s: PipelineSpec, r: Result<FileContract, SparrowError>)
    requires
        call_ensures(resolve_file_contract, (&s,), r),
    ensures
        s.source.file_contract is None ==> r == Ok::<FileContract, SparrowError>(
            FileContract::AppendOnly,
        ),
        s.source.file_contract is Some && trimmed(s.source.file_contract->0@).len() == 0 ==> r
            == Ok::<FileContract, SparrowError>(FileContract::AppendOnly),
        s.source.file_contract is Some && trimmed(s.source.file_contract->0@).len() > 0 ==> {
            let named = crate::text::lowered(trimmed(trimmed(s.source.file_contract->0@)));
            &&& named == "append_only"@ ==> r == Ok::<FileContract, SparrowError>(
                FileContract::AppendOnly,
            )
            &&& named == "immutable"@ ==> r == Ok::<FileContract, SparrowError>(
                FileContract::Immutable,
            )
            &&& named == "sealed"@ ==> r == Ok::<FileContract, SparrowError>(FileContract::Sealed)
        },
{
    if s.source.file_contract is Some {
        crate::file_laws::law_contracts_are_named(trimmed(s.source.file_contract->0@));
    }
}

/// Bytes are written two digits each, the high one first, in lower case.
pub proof fn law_two_digits_a_byte(b: &[u8], r: String, i: int)
    requires
        call_ensures(hex_encode, (b,), r),
        0 <= i < b@.len(),
    ensures
        r@.len() == 2 * b@.len(),
        r@[2 * i] == "0123456789abcdef"@[b@[i] as int / 16],
        r@[2 * i + 1] == "0123456789abcdef"@[b@[i] as int % 16],
{
    lemma_two_digits(b@, i);
}

proof fn lemma_two_digits(b: Seq<u8>, i: int)
    requires
        0 <= i < b.len(),
    ensures
        hex_text(b).len() == 2 * b.len(),
        hex_text(b)[2 * i] == "0123456789abcdef"@[b[i] as int / 16],
        hex_text(b)[2 * i + 1] == "0123456789abcdef"@[b[i] as int % 16],
    decreases b.len(),
{
    law_hex_is_read_back(b);
    reveal_strlit("0123456789abcdef");
    if i < b.len() - 1 {
        lemma_two_digits(b.drop_last(), i);
        law_hex_is_read_back(b.drop_last());
    } else {
        law_hex_is_read_back(b.drop_last());
    }
}

/// Bytes that were written are read back.
pub proof fn law_written_bytes_are_read_back(
    b: &[u8],
    t: &str,
    r: Option<Vec<u8>>,
    w: String,
)
    requires
        call_ensures(hex_encode, (b,), w),
        t@ == w@,
        call_ensures(hex_decode, (t,), r),
    ensures
        r is Some && r->0@ == b@,
{
    law_hex_is_read_back(b@);
}

/// A key is 32 bytes. Thirty-two bytes that are configured are the key, unless
/// they are part of a text of 64 hexadecimal digits, which cannot be.
pub proof fn law_thirty_two_bytes_are_a_key(b: Seq<u8>, raw: Seq<u8>)
    requires
        b.len() == 32,
    ensures
        configured_key(encode_utf8(hex_text(b))) == Ok::<Seq<u8>, Fault>(b),
        raw.len() == 32 && (!valid_utf8(raw) || trimmed(decode_utf8(raw)).len() != 64)
            ==> configured_key(raw) == Ok::<Seq<u8>, Fault>(raw),
        configured_key(raw) is Ok ==> configured_key(raw)->Ok_0.len() == 32,
        configured_key(raw) is Err ==> configured_key(raw)->Err_0.code
            == ErrorCode::InvalidArgument,
{
    lemma_hex_key(b);
    let t = super::secrets::key_text(raw);
    if t.len() == 64 && super::secrets::all_hex(t) {
        super::secrets::lemma_hex_digits_decode(t);
    }
}

/// The key of the file comes first, then that of the environment, and where none
/// is configured that of the process, unless one has to be.
pub proof fn law_which_key_is_used(
    s: KeySources,
    process: SecretsKey,
    r: Result<SecretsKey, SparrowError>,
)
    requires
        call_ensures(secrets_key, (&s, process), r),
    ensures
        s.file is Some && s.file->0 is Err ==> r is Err && r->Err_0.code
            == ErrorCode::SecretMissing,
        s.file is Some && s.file->0 is Ok && r is Ok ==> configured_key(s.file->0->Ok_0@) == Ok::<
            Seq<u8>,
            Fault,
        >(r->Ok_0.bytes@),
        s.file is None && s.env is Some && s.env->0@.len() > 0 && r is Ok ==> configured_key(
            s.env->0@,
        ) == Ok::<Seq<u8>, Fault>(r->Ok_0.bytes@),
        s.file is None && (s.env is None || s.env->0@.len() == 0) && s.required ==> r is Err
            && r->Err_0.code == ErrorCode::SecretMissing,
        s.file is None && (s.env is None || s.env->0@.len() == 0) && !s.required ==> r is Ok
            && r->Ok_0.bytes@ == process.bytes@,
{
}

/// A key that could not be drawn is all zeros; one that was drawn is what was
/// drawn.
pub proof fn law_a_drawn_key(drawn: Option<Vec<u8>>, r: SecretsKey, i: int)
    requires
        call_ensures(key_from, (drawn,), r),
        0 <= i < 32,
    ensures
        drawn is Some ==> r.bytes@ == drawn->0@,
        drawn is None ==> r.bytes@.len() == 32 && r.bytes@[i] == 0,
{
}

/// A secret that was sealed is read back under the same key. It is kept as
/// `enc:v2:` and hexadecimal digits; without a nonce nothing is sealed.
pub proof fn law_a_sealed_secret_is_read_back(
    plain: &str,
    key: SecretsKey,
    nonce: Option<Vec<u8>>,
    sealed: Result<String, SparrowError>,
    stored: &str,
    opened: Result<String, SparrowError>,
)
    requires
        call_ensures(seal_with, (plain, &key, nonce), sealed),
        sealed is Ok ==> stored@ == sealed->Ok_0@,
        call_ensures(
            unseal_secret,
            (stored, &Ok::<SecretsKey, SparrowError>(key)),
            opened,
        ),
    ensures
        nonce is None ==> sealed is Err && sealed->Err_0.code == ErrorCode::Internal,
        nonce is Some && encode_utf8(plain@).len() <= 4096 ==> sealed is Ok,
        sealed is Ok ==> begins(sealed->Ok_0@, "enc:v2:"@),
        sealed is Ok ==> opened is Ok && opened->Ok_0@ == plain@,
        sealed is Ok ==> sealed->Ok_0@.skip(7).take(24) == hex_text(nonce->0@.take(12)) || nonce->0@.len()
            != 12,
{
    reveal_strlit("enc:v2:");
    if sealed is Ok && nonce->0@.len() == 12 {
        let n = nonce->0@;
        assert(n.take(12) =~= n);
        let rest = super::secrets::sealed_bytes(key.bytes@, n, encode_utf8(plain@));
        let t = super::secrets::sealed_text(key.bytes@, n, plain@);
        lemma_hex_joins(n, rest);
        law_hex_is_read_back(n);
        assert(t.skip(7) =~= hex_text(n + rest));
        assert(t.skip(7).take(24) =~= hex_text(n));
    }
    if sealed is Ok {
        law_a_text_begins_with_its_beginning(
            "enc:v2:"@,
            sealed->Ok_0@.skip(7),
            sealed->Ok_0@,
        );
    }
}

proof fn lemma_hex_joins(a: Seq<u8>, b: Seq<u8>)
    ensures
        hex_text(a + b) == hex_text(a) + hex_text(b),
    decreases b.len(),
{
    if b.len() == 0 {
        assert(a + b =~= a);
        assert(hex_text(a) + hex_text(b) =~= hex_text(a));
    } else {
        assert((a + b).drop_last() =~= a + b.drop_last());
        lemma_hex_joins(a, b.drop_last());
        assert(hex_text(a + b) =~= hex_text(a) + hex_text(b));
    }
}

/// A secret that is not sealed is never taken, and neither is one that was
/// sealed in the old way.
pub proof fn law_only_sealed_secrets_are_taken(rest: Seq<char>, key: Result<Seq<u8>, Fault>)
    ensures
        unsealed("enc:v1:"@ + rest, key) is Err,
        unsealed("enc:v1:"@ + rest, key)->Err_0.code == ErrorCode::InvalidSchema,
        rest.len() < 7 ==> unsealed(rest, key) is Err && unsealed(rest, key)->Err_0.code
            == ErrorCode::PolicyDenied,
        unsealed("enc:v2:"@ + rest, key) is Ok ==> rest.len() >= 56 && key is Ok,
        rest.len() < 56 ==> unsealed("enc:v2:"@ + rest, key) is Err && unsealed(
            "enc:v2:"@ + rest,
            key,
        )->Err_0.code == ErrorCode::InvalidSchema,
{
    reveal_strlit("enc:v1:");
    reveal_strlit("enc:v2:");
    let a = "enc:v1:"@ + rest;
    let b = "enc:v2:"@ + rest;
    assert(a[5] == '1' && b[5] == '2' && "enc:v2:"@[5] == '2');
    assert(a.take(7) =~= "enc:v1:"@);
    assert(b.take(7) =~= "enc:v2:"@);
    assert(b.skip(7) =~= rest);
    lemma_half_as_many(rest);
}

proof fn lemma_half_as_many(s: Seq<char>)
    ensures
        unhex(s) is Some ==> s.len() == 2 * unhex(s)->0.len(),
    decreases s.len(),
{
    if s.len() >= 2 {
        lemma_half_as_many(s.take(s.len() - 2));
    }
}

proof fn lemma_hex_key(b: Seq<u8>)
    requires
        b.len() == 32,
    ensures
        configured_key(encode_utf8(hex_text(b))) == Ok::<Seq<u8>, Fault>(b),
{
    let t = hex_text(b);
    law_hex_is_read_back(b);
    encode_utf8_valid_utf8(t);
    encode_utf8_decode_utf8(t);
    reveal_strlit("0123456789abcdef");
    assert forall|i: int| 0 <= i < t.len() implies crate::ip::hex_digit(#[trigger] t[i]) is Some
        && !crate::text::white(t[i]) by {
        lemma_two_digits(b, i / 2);
        let d = if i % 2 == 0 {
            b[i / 2] as int / 16
        } else {
            b[i / 2] as int % 16
        };
        assert(t[i] == "0123456789abcdef"@[d]);
        crate::text_laws::law_hexadecimal_digits('0', d);
    }
    let e = Seq::<char>::empty();
    crate::text_laws::law_only_the_ends_are_trimmed(e, t, e);
}

} // verus!
