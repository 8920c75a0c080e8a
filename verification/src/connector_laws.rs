//! What holds of the connectors as a whole: named secrets, TLS, the log, the
//! counters, and the demonstration.

use crate::capabilities::{
    refuse_dirty_session, refuse_durable_recovery, refuse_qos_durable, ConnectorCapabilities,
    DeliveryGuarantee, RecoveryPolicy, ReplaySupport, RestoreClaim,
};
use crate::demo::{
    check_stopped, checkpoint_args, no_args, wait_http_at_least, Arrival, CheckpointArgs,
    CheckpointRun,
};
use crate::diag::IoSnapshot;
use crate::error::ConnectorError;
use crate::log::{encoded, kept, kept_all, LogSink, LogSinkConfig};
use crate::model::{ErrorCode, SparrowError};
use crate::secret::{found, MapSecretResolver, SecretResolver};
use crate::text::{decimal, law_decimal_is_read_back, number};
use crate::text_laws::law_a_text_begins_with_its_beginning;
use crate::tls::TlsConfig;
use vstd::prelude::*;

verus! {

/// Of pairs with one name the first one counts.
pub proof fn law_the_first_pair_counts(pairs: Seq<(String, String)>, key: Seq<char>, i: int)
    requires
        0 <= i <= pairs.len(),
        forall|j: int| 0 <= j < i ==> (#[trigger] pairs[j]).0@ != key,
        i < pairs.len() ==> pairs[i].0@ == key,
    ensures
        found(pairs, key) == if i < pairs.len() {
            Some(pairs[i].1@)
        } else {
            None
        },
    decreases i,
{
    if i > 0 {
        assert(pairs[0].0@ != key);
        assert forall|j: int| 0 <= j < i - 1 implies (#[trigger] pairs.skip(1)[j]).0@ != key by {
            assert(pairs.skip(1)[j] == pairs[j + 1]);
        }
        law_the_first_pair_counts(pairs.skip(1), key, i - 1);
    }
}

/// A secret that is named `env:` and a name is that variable of the environment;
/// any other is one of the list. One that is not there is an error, never an
/// empty value.
pub proof fn law_where_secrets_come_from(
    s: MapSecretResolver,
    name: &str,
    var: Seq<char>,
    r: Result<String, ConnectorError>,
)
    requires
        call_ensures(MapSecretResolver::resolve, (&s, name), r),
    ensures
        name@ == "env:"@ + var ==> (r is Ok <==> found(s.env@, var) is Some),
        name@ == "env:"@ + var && r is Ok ==> r->Ok_0@ == found(s.env@, var)->0,
        name@.len() >= 4 && name@[3] != ':' || name@.len() < 4 ==> (r is Ok <==> found(
            s.values@,
            name@,
        ) is Some),
        (name@.len() >= 4 && name@[3] != ':' || name@.len() < 4) && r is Ok ==> r->Ok_0@ == found(
            s.values@,
            name@,
        )->0,
        r is Err ==> r->Err_0.code == ErrorCode::SecretMissing,
{
    reveal_strlit("env:");
    law_a_text_begins_with_its_beginning("env:"@, var, "env:"@ + var);
    assert(("env:"@ + var).skip(4) =~= var);
    if name@.len() >= 4 && name@[3] != ':' {
        assert(name@.take(4)[3] != ':');
        assert("env:"@[3] == ':');
    }
}

/// Verification of certificates cannot be switched off.
pub proof fn law_certificates_are_verified(
    t: TlsConfig,
    r: Result<(), ConnectorError>,
    off: TlsConfig,
    on: TlsConfig,
)
    requires
        call_ensures(TlsConfig::validate, (&t,), r),
        call_ensures(TlsConfig::disabled, (), off),
        call_ensures(TlsConfig::enabled, (), on),
    ensures
        r is Ok <==> !t.skip_verify,
        r is Err ==> r->Err_0.code == ErrorCode::PolicyDenied,
        !off.enabled && !off.skip_verify && on.enabled && !on.skip_verify,
{
}

/// A log restores nothing.
pub proof fn law_a_log_restores_nothing(c: LogSinkConfig, r: Result<(), ConnectorError>)
    requires
        call_ensures(LogSinkConfig::validate, (&c,), r),
    ensures
        r is Ok <==> c.restore is Absent,
{
}

/// A line that is written is the last of the log. Where the log is full the
/// oldest line leaves; no other line does.
pub proof fn law_a_line_is_the_last_of_the_log(lines: Seq<Seq<char>>, max: int, line: Seq<char>)
    requires
        1 <= max,
        lines.len() <= max,
    ensures
        kept(lines, max, line).last() == line,
        lines.len() < max ==> kept(lines, max, line).drop_last() == lines,
        lines.len() == max ==> kept(lines, max, line).drop_last() == lines.skip(1),
        kept(lines, max, line).len() <= max,
{
    if lines.len() < max {
        assert(kept(lines, max, line).drop_last() =~= lines);
    } else {
        assert(kept(lines, max, line).drop_last() =~= lines.skip(1));
    }
}

/// Rows are written in turn; one that could not be encoded leaves no line and is
/// not counted.
pub proof fn law_rows_are_logged_in_turn(
    lines: Seq<Seq<char>>,
    max: int,
    rows: Seq<Option<Seq<u8>>>,
    b: Seq<u8>,
)
    ensures
        kept_all(lines, max, rows.push(Some(b))) == kept(
            kept_all(lines, max, rows),
            max,
            crate::http::wire::lossy_text(b),
        ),
        kept_all(lines, max, rows.push(None)) == kept_all(lines, max, rows),
        encoded(rows.push(Some(b))) == encoded(rows) + 1,
        encoded(rows.push(None)) == encoded(rows),
        encoded(Seq::empty()) == 0,
{
    assert(rows.push(Some(b)).drop_last() =~= rows);
    assert(rows.push(None).drop_last() =~= rows);
}

/// A log holds as many lines as it is made for, at least one.
pub proof fn law_how_many_lines_a_log_holds(n: usize, r: LogSink)
    requires
        call_ensures(LogSink::new, (n,), r),
    ensures
        n >= 1 ==> r.max() == n,
        n == 0 ==> r.max() == 1,
        r@.len() == 0,
        r.count() == 0,
{
}

/// Counts are added counter by counter.
pub proof fn law_counts_add_up(a: &mut IoSnapshot, b: IoSnapshot)
    requires
        call_ensures(IoSnapshot::add_assign, (a, &b), ()),
        a.fits(b),
    ensures
        final(a).mqtt_received == old(a).mqtt_received + b.mqtt_received,
        final(a).mqtt_inbox_metadata_bytes == old(a).mqtt_inbox_metadata_bytes
            + b.mqtt_inbox_metadata_bytes,
        final(a).mqtt_pending_bytes == old(a).mqtt_pending_bytes + b.mqtt_pending_bytes,
        final(a).mqtt_dropped_budget == old(a).mqtt_dropped_budget + b.mqtt_dropped_budget,
        final(a).mqtt_dropped_oversize == old(a).mqtt_dropped_oversize + b.mqtt_dropped_oversize,
        final(a).mqtt_accounted_sources == old(a).mqtt_accounted_sources + b.mqtt_accounted_sources,
        final(a).mqtt_inbox_items == old(a).mqtt_inbox_items + b.mqtt_inbox_items,
        final(a).mqtt_inbox_bytes == old(a).mqtt_inbox_bytes + b.mqtt_inbox_bytes,
        final(a).mqtt_inbox_peak_items == old(a).mqtt_inbox_peak_items + b.mqtt_inbox_peak_items,
        final(a).mqtt_inbox_peak_bytes == old(a).mqtt_inbox_peak_bytes + b.mqtt_inbox_peak_bytes,
        final(a).mqtt_decoded == old(a).mqtt_decoded + b.mqtt_decoded,
        final(a).mqtt_dropped_bad == old(a).mqtt_dropped_bad + b.mqtt_dropped_bad,
        final(a).mqtt_dropped_full == old(a).mqtt_dropped_full + b.mqtt_dropped_full,
        final(a).mqtt_backpressure_waits == old(a).mqtt_backpressure_waits
            + b.mqtt_backpressure_waits,
        final(a).mqtt_backpressure_recovered == old(a).mqtt_backpressure_recovered
            + b.mqtt_backpressure_recovered,
        final(a).mqtt_reconnects == old(a).mqtt_reconnects + b.mqtt_reconnects,
        final(a).mqtt_quickack_calls == old(a).mqtt_quickack_calls + b.mqtt_quickack_calls,
        final(a).mqtt_quickack_errors == old(a).mqtt_quickack_errors + b.mqtt_quickack_errors,
        final(a).http_posted == old(a).http_posted + b.http_posted,
        final(a).http_acked_batches == old(a).http_acked_batches + b.http_acked_batches,
        final(a).http_encode_errors == old(a).http_encode_errors + b.http_encode_errors,
        final(a).http_budget_drops == old(a).http_budget_drops + b.http_budget_drops,
        final(a).http_failed == old(a).http_failed + b.http_failed,
        final(a).http_dropped == old(a).http_dropped + b.http_dropped,
        final(a).http_retries == old(a).http_retries + b.http_retries,
        final(a).http_inflight == old(a).http_inflight + b.http_inflight,
        final(a).log_written == old(a).log_written + b.log_written,
        final(a).decode_errors == old(a).decode_errors + b.decode_errors,
{
}

/// The line of the counters.
pub proof fn law_the_line_of_the_counters(a: IoSnapshot, r: String)
    requires
        call_ensures(IoSnapshot::display, (&a,), r),
    ensures
        r@ == "mqtt recv="@ + decimal(a.mqtt_received as nat) + " decoded="@ + decimal(
            a.mqtt_decoded as nat,
        ) + " bad="@ + decimal(a.mqtt_dropped_bad as nat) + " full="@ + decimal(
            a.mqtt_dropped_full as nat,
        ) + " waits="@ + decimal(a.mqtt_backpressure_waits as nat) + " recovered="@ + decimal(
            a.mqtt_backpressure_recovered as nat,
        ) + " reconnects="@ + decimal(a.mqtt_reconnects as nat) + " | http posted="@ + decimal(
            a.http_posted as nat,
        ) + " failed="@ + decimal(a.http_failed as nat) + " dropped="@ + decimal(
            a.http_dropped as nat,
        ) + " retries="@ + decimal(a.http_retries as nat) + " inflight="@ + decimal(
            a.http_inflight as nat,
        ) + " | log="@ + decimal(a.log_written as nat) + " decode_err="@ + decimal(
            a.decode_errors as nat,
        ),
{
}

/// Bodies are waited for until there are enough or the time is over; a job that
/// was stopped has no task left.
pub proof fn law_how_the_demonstration_waits(
    got: u64,
    wanted: u64,
    waited: u64,
    timeout: u64,
    shown: &str,
    r: Arrival,
    job: u64,
    kernel: u64,
    s: Result<(), SparrowError>,
)
    requires
        call_ensures(wait_http_at_least, (got, wanted, waited, timeout, shown), r),
        call_ensures(check_stopped, (job, kernel), s),
    ensures
        r is Enough <==> got >= wanted,
        r is Wait <==> got < wanted && waited <= timeout,
        r is Late <==> got < wanted && waited > timeout,
        s is Ok <==> job == 0 && kernel == 0,
{
}

/// The arguments of a run over a file with checkpoints, pair by pair.
pub proof fn law_arguments_of_a_checkpointed_run(
    c: CheckpointArgs,
    value: Seq<char>,
    n: nat,
    rest: Seq<Seq<char>>,
)
    requires
        n <= u64::MAX,
    ensures
        checkpoint_args(Seq::empty(), c) == Some(c),
        checkpoint_args(seq!["--data"@, value] + rest, c) == checkpoint_args(
            rest,
            CheckpointArgs { data: Some(value), ..c },
        ),
        checkpoint_args(seq!["--chk"@, value] + rest, c) == checkpoint_args(
            rest,
            CheckpointArgs { chk: Some(value), ..c },
        ),
        checkpoint_args(seq!["--mode"@, value] + rest, c) == checkpoint_args(
            rest,
            CheckpointArgs { mode: value, ..c },
        ),
        checkpoint_args(seq!["--window"@, value] + rest, c) == checkpoint_args(
            rest,
            CheckpointArgs { window: value, ..c },
        ),
        checkpoint_args(seq!["--until"@, decimal(n)] + rest, c) == checkpoint_args(
            rest,
            CheckpointArgs { until: Some(n as u64), ..c },
        ),
        checkpoint_args(seq![value], c) is None,
        number(value, u64::MAX as nat) is Err ==> checkpoint_args(
            seq!["--until"@, value] + rest,
            c,
        ) == checkpoint_args(rest, CheckpointArgs { until: Some(0), ..c }),
{
    law_decimal_is_read_back(n, u64::MAX as nat);
    reveal_strlit("--data");
    reveal_strlit("--chk");
    reveal_strlit("--mode");
    reveal_strlit("--until");
    reveal_strlit("--window");
    assert("--data"@.len() == 6 && "--chk"@.len() == 5 && "--mode"@.len() == 6 && "--until"@.len()
        == 7 && "--window"@.len() == 8);
    assert("--data"@[2] == 'd' && "--mode"@[2] == 'm');
    assert((seq!["--data"@, value] + rest).skip(2) =~= rest);
    assert((seq!["--chk"@, value] + rest).skip(2) =~= rest);
    assert((seq!["--mode"@, value] + rest).skip(2) =~= rest);
    assert((seq!["--window"@, value] + rest).skip(2) =~= rest);
    assert((seq!["--until"@, decimal(n)] + rest).skip(2) =~= rest);
    assert((seq!["--until"@, value] + rest).skip(2) =~= rest);
}

/// A run up to a checkpoint stops after two rows where nothing else is said; no
/// other run stops by itself.
pub proof fn law_where_a_run_stops(c: CheckpointRun, r: Option<u64>)
    requires
        call_ensures(CheckpointRun::limit, (&c,), r),
    ensures
        c.mode@ == "checkpoint"@ && c.until is Some ==> r == c.until,
        c.mode@ == "checkpoint"@ && c.until is None ==> r == Some(2u64),
        c.mode@ != "checkpoint"@ ==> r is None,
        no_args().mode == "gold"@ && no_args().window == "count"@ && no_args().until is None
            && no_args().data is None && no_args().chk is None,
{
}

/// What a live connector refuses: any claim of restored state, any quality of
/// service above 0, and any session that a broker should keep.
pub proof fn law_what_a_live_connector_refuses(
    claim: RestoreClaim,
    a: Result<(), ConnectorError>,
    qos: u8,
    b: Result<(), ConnectorError>,
    clean: bool,
    c: Result<(), ConnectorError>,
)
    requires
        call_ensures(refuse_durable_recovery, (&claim,), a),
        call_ensures(refuse_qos_durable, (qos,), b),
        call_ensures(refuse_dirty_session, (clean,), c),
    ensures
        a is Ok <==> claim is Absent,
        a is Err ==> a->Err_0.code == ErrorCode::UnsupportedRestore,
        b is Ok <==> qos == 0,
        b is Err ==> b->Err_0.code == ErrorCode::UnsupportedDelivery,
        c is Ok <==> clean,
        c is Err ==> c->Err_0.code == ErrorCode::UnsupportedRestore,
{
}

/// The names of what is promised.
pub proof fn law_promises_are_named(
    p: RecoveryPolicy,
    aligned: bool,
    s: ReplaySupport,
    again: bool,
    f: ConnectorCapabilities,
)
    requires
        call_ensures(RecoveryPolicy::is_aligned, (p,), aligned),
        call_ensures(ReplaySupport::is_replayable, (s,), again),
        call_ensures(ConnectorCapabilities::file_replay, (), f),
    ensures
        aligned <==> p == RecoveryPolicy::Aligned,
        again <==> s == ReplaySupport::Replayable,
        RecoveryPolicy::Aligned.name() == "aligned"@ && RecoveryPolicy::RestartFresh.name()
            == "restart_fresh"@,
        ReplaySupport::Replayable.name() == "replayable"@ && ReplaySupport::Unsupported.name()
            == "unsupported"@,
        f.kind@ == "file"@ && f.replay == ReplaySupport::Replayable && f.delivery
            == DeliveryGuarantee::LiveBestEffort && f.recovery == RecoveryPolicy::Aligned,
{
}

} // verus!
