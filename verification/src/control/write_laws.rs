//! What holds of every call that writes to the catalog or reads from it, and of
//! every event that the supervisor takes note of.

use super::status::{law_status_name_is_read_back, PipelineStatus};
use super::store::{
    check_name, ActualState, AttemptRow, AuditRow, DesiredState, PipelineRow, Store, StreamRow,
};
use super::spec::PipelineSpec;
use super::supervisor::{note_of, request_start_at, request_stop, Decision, Supervisor};
use crate::model::{ErrorCode, SparrowError};
use crate::text::decimal;
use vstd::arithmetic::power2::{lemma2_to64, pow2};
use vstd::prelude::*;

verus! {

/// The statuses go by these names, and by no other.
pub proof fn law_statuses_are_named(
    name: &str,
    r: Result<PipelineStatus, SparrowError>,
    s: PipelineStatus,
    t: &str,
)
    requires
        call_ensures(PipelineStatus::parse, (name,), r),
        call_ensures(PipelineStatus::as_str, (s,), t),
    ensures
        r == Ok::<PipelineStatus, SparrowError>(PipelineStatus::Stopped) <==> name@ == "stopped"@,
        r == Ok::<PipelineStatus, SparrowError>(PipelineStatus::Starting) <==> name@ == "starting"@,
        r == Ok::<PipelineStatus, SparrowError>(PipelineStatus::Running) <==> name@ == "running"@,
        r == Ok::<PipelineStatus, SparrowError>(PipelineStatus::Waiting) <==> name@ == "waiting"@,
        r == Ok::<PipelineStatus, SparrowError>(PipelineStatus::Failed) <==> name@ == "failed"@,
        r == Ok::<PipelineStatus, SparrowError>(PipelineStatus::Completed) <==> name@
            == "completed"@,
        s == PipelineStatus::Stopped ==> t@ == "stopped"@,
        s == PipelineStatus::Starting ==> t@ == "starting"@,
        s == PipelineStatus::Running ==> t@ == "running"@,
        s == PipelineStatus::Waiting ==> t@ == "waiting"@,
        s == PipelineStatus::Failed ==> t@ == "failed"@,
        s == PipelineStatus::Completed ==> t@ == "completed"@,
{
    law_status_name_is_read_back(PipelineStatus::Stopped);
    law_status_name_is_read_back(PipelineStatus::Starting);
    law_status_name_is_read_back(PipelineStatus::Running);
    law_status_name_is_read_back(PipelineStatus::Waiting);
    law_status_name_is_read_back(PipelineStatus::Failed);
    law_status_name_is_read_back(PipelineStatus::Completed);
}

proof fn lemma_names()
    ensures
        forall|s: PipelineStatus| #[trigger] PipelineStatus::named(s.name()) == Ok::<
            PipelineStatus,
            crate::model::Fault,
        >(s),
{
    assert forall|s: PipelineStatus| #[trigger] PipelineStatus::named(s.name()) == Ok::<
        PipelineStatus,
        crate::model::Fault,
    >(s) by {
        law_status_name_is_read_back(s);
    }
}

/// A report counts a failure, begins the count anew where the pipeline runs or
/// has completed, and leaves it as it is else. It shows the error and the attempt
/// that were reported, and changes nothing of another pipeline. A pipeline that
/// failed is blocked until it is started again.
pub proof fn law_a_report_is_counted(
    s: &mut Store,
    name: &str,
    status: &str,
    revision: Option<u64>,
    attempt: u64,
    error: Option<&str>,
    r: Result<(), SparrowError>,
    other: Seq<char>,
)
    requires
        call_ensures(Store::set_actual, (s, name, status, revision, attempt, error), r),
        s@.doing.dom().contains(name@),
        !s@.fail_next,
        other != name@,
    ensures
        status@ == "running"@ || status@ == "completed"@ ==> r is Ok
            && final(s)@.doing[name@].failures == 0 && !final(s)@.doing[name@].blocked,
        status@ == "failed"@ ==> r is Ok && final(s)@.doing[name@].blocked,
        status@ == "failed"@ && old(s)@.doing[name@].failures < u64::MAX ==> final(s)@.doing[name@].failures == old(s)@.doing[name@].failures + 1,
        status@ == "stopped"@ || status@ == "starting"@ || status@ == "waiting"@ ==> r is Ok
            && final(s)@.doing[name@].failures == old(s)@.doing[name@].failures,
        status@ == "starting"@ ==> !final(s)@.doing[name@].blocked,
        status@ == "stopped"@ || status@ == "waiting"@ ==> final(s)@.doing[name@].blocked == old(s)@.doing[name@].blocked,
        status@ == "running"@ ==> final(s)@.doing[name@].status == PipelineStatus::Running,
        status@ == "failed"@ ==> final(s)@.doing[name@].status == PipelineStatus::Failed,
        status@ == "completed"@ ==> final(s)@.doing[name@].status == PipelineStatus::Completed,
        status@ == "stopped"@ ==> final(s)@.doing[name@].status == PipelineStatus::Stopped,
        status@ == "starting"@ ==> final(s)@.doing[name@].status == PipelineStatus::Starting,
        status@ == "waiting"@ ==> final(s)@.doing[name@].status == PipelineStatus::Waiting,
        r is Ok ==> final(s)@.doing[name@].revision == revision,
        r is Ok ==> final(s)@.doing[name@].attempt_id == attempt,
        r is Ok && error is None ==> final(s)@.doing[name@].error is None,
        r is Ok && error is Some ==> final(s)@.doing[name@].error == Some(error->0@),
        old(s)@.doing.dom().contains(other) ==> final(s)@.doing[other] == old(s)@.doing[other],
        final(s)@.wanted == old(s)@.wanted,
        final(s)@.pipelines == old(s)@.pipelines,
        final(s)@.streams == old(s)@.streams,
        final(s)@.secrets == old(s)@.secrets,
        final(s)@.attempts == old(s)@.attempts,
        final(s)@.audits == old(s)@.audits,
        r is Err ==> final(s)@ == old(s)@,
{
    lemma_names();
    assert(PipelineStatus::named(PipelineStatus::Stopped.name()) is Ok);
    assert(PipelineStatus::named(PipelineStatus::Starting.name()) is Ok);
    assert(PipelineStatus::named(PipelineStatus::Running.name()) is Ok);
    assert(PipelineStatus::named(PipelineStatus::Waiting.name()) is Ok);
    assert(PipelineStatus::named(PipelineStatus::Failed.name()) is Ok);
    assert(PipelineStatus::named(PipelineStatus::Completed.name()) is Ok);
}

/// What a pipeline does is read as it was reported.
pub proof fn law_a_report_is_read_back(s: Store, name: &str, r: Result<ActualState, SparrowError>)
    requires
        call_ensures(Store::actual, (&s, name), r),
    ensures
        r is Ok <==> s@.doing.dom().contains(name@),
        r is Ok ==> {
            let a = r->Ok_0;
            let d = s.doing@[name@];
            &&& a.name@ == name@
            &&& a.status == s@.doing[name@].status
            &&& a.revision == s@.doing[name@].revision
            &&& a.attempt_id == s@.doing[name@].attempt_id
            &&& a.consecutive_failures == s@.doing[name@].failures
            &&& a.restart_blocked == s@.doing[name@].blocked
            &&& a.status == d.status
            &&& a.revision == d.revision
            &&& a.attempt_id == d.attempt_id
            &&& a.consecutive_failures == d.consecutive_failures
            &&& a.restart_blocked == d.restart_blocked
            &&& a.last_error is None <==> d.last_error is None
            &&& a.last_error is Some ==> a.last_error->0@ == d.last_error->0@
        },
{
}

/// What is wanted of a pipeline is read as it was written: only running and
/// stopped can be wanted, and only of a pipeline that exists.
pub proof fn law_a_wish_is_written(
    s: &mut Store,
    name: &str,
    status: &str,
    revision: Option<u64>,
    r: Result<(), SparrowError>,
    other: Seq<char>,
)
    requires
        call_ensures(Store::set_desired, (s, name, status, revision), r),
        !s@.fail_next,
        other != name@,
    ensures
        r is Ok <==> (status@ == "running"@ || status@ == "stopped"@) && old(s)@.pipelines.dom().contains(name@),
        r is Ok && status@ == "running"@ ==> final(s)@.wanted[name@].status
            == PipelineStatus::Running,
        r is Ok && status@ == "stopped"@ ==> final(s)@.wanted[name@].status
            == PipelineStatus::Stopped,
        r is Ok ==> final(s)@.wanted.dom().contains(name@) && final(s)@.wanted[name@].revision
            == revision,
        old(s)@.wanted.dom().contains(other) ==> final(s)@.wanted[other] == old(s)@.wanted[other],
        final(s)@.doing == old(s)@.doing,
        final(s)@.pipelines == old(s)@.pipelines,
        r is Err ==> final(s)@ == old(s)@,
{
    lemma_names();
    assert(PipelineStatus::named(PipelineStatus::Stopped.name()) is Ok);
    assert(PipelineStatus::named(PipelineStatus::Running.name()) is Ok);
}

/// What is wanted of a pipeline is read as it is kept.
pub proof fn law_a_wish_is_read_back(s: Store, name: &str, r: Result<DesiredState, SparrowError>)
    requires
        call_ensures(Store::desired, (&s, name), r),
    ensures
        r is Ok <==> s.wanted@.dom().contains(name@),
        r is Ok ==> r->Ok_0.name@ == name@ && r->Ok_0.status == s.wanted@[name@].status
            && r->Ok_0.revision == s.wanted@[name@].revision,
        r is Err ==> r->Err_0.code == ErrorCode::InvalidArgument,
{
}

/// A stream is read as it was written last; the others stay what they are.
pub proof fn law_a_stream_is_written(
    s: &mut Store,
    name: &str,
    text: &str,
    r: Result<(), SparrowError>,
    named: Result<(), SparrowError>,
    other: Seq<char>,
)
    requires
        call_ensures(Store::put_stream, (s, name, text), r),
        call_ensures(check_name, (name,), named),
        !s@.fail_next,
        other != name@,
    ensures
        r is Ok <==> named is Ok,
        r is Ok ==> final(s)@.streams.dom().contains(name@) && final(s)@.streams[name@] == text@,
        old(s)@.streams.dom().contains(other) ==> final(s)@.streams.dom().contains(other)
            && final(s)@.streams[other] == old(s)@.streams[other],
        final(s)@.pipelines == old(s)@.pipelines,
        final(s)@.doing == old(s)@.doing,
        r is Err ==> final(s)@ == old(s)@,
{
}

/// A stream is read as it is kept.
pub proof fn law_a_stream_is_read_back(s: Store, name: &str, r: Result<StreamRow, SparrowError>)
    requires
        call_ensures(Store::get_stream, (&s, name), r),
    ensures
        r is Ok <==> s.streams@.dom().contains(name@),
        r is Ok ==> r->Ok_0.name@ == name@ && r->Ok_0.schema_json@ == s.streams@[name@]@,
        r is Err ==> r->Err_0.code == ErrorCode::InvalidArgument,
{
}

/// A write that is cut off changes nothing, and is reported. The write after it
/// goes through.
pub proof fn law_a_write_is_whole_or_nothing(
    a: &mut Store,
    b: &mut Store,
    c: &mut Store,
    name: &str,
    text: &str,
    spec: PipelineSpec,
    tag: Option<&str>,
    host: &str,
    port: u16,
    r: Result<(), SparrowError>,
    q: Result<PipelineRow, SparrowError>,
    p: Result<(), SparrowError>,
)
    requires
        call_ensures(Store::put_stream, (a, name, text), r),
        call_ensures(Store::put_pipeline, (b, name, &spec, tag), q),
        call_ensures(Store::put_allow, (c, host, port), p),
        a@.fail_next,
        b@.fail_next,
        c@.fail_next,
    ensures
        r is Err && q is Err && p is Err,
        final(a)@.streams == old(a)@.streams,
        final(b)@.pipelines == old(b)@.pipelines,
        final(b)@.wanted == old(b)@.wanted,
        final(b)@.doing == old(b)@.doing,
        final(c)@.allowed == old(c)@.allowed,
        p->Err_0.code == ErrorCode::Internal,
        !final(c)@.fail_next,
{
}

/// A pipeline that is written comes back with the number of its revision, which
/// is one more than it had, the tag `rev-N` of that number, and its
/// specification.
pub proof fn law_a_pipeline_is_written(
    s: &mut Store,
    name: &str,
    spec: PipelineSpec,
    tag: Option<&str>,
    r: Result<PipelineRow, SparrowError>,
)
    requires
        call_ensures(Store::put_pipeline, (s, name, &spec, tag), r),
        s.wf(),
    ensures
        r is Ok ==> {
            let n = if old(s)@.pipelines.dom().contains(name@) {
                old(s)@.pipelines[name@].len() + 1
            } else {
                1
            };
            &&& r->Ok_0.name@ == name@
            &&& r->Ok_0.latest_revision == n
            &&& r->Ok_0.spec == spec
            &&& r->Ok_0.etag@ == "rev-"@ + decimal(n as nat)
            &&& final(s)@.pipelines[name@].len() == n
            &&& final(s)@.pipelines[name@][n - 1] == spec
            &&& old(s)@.pipelines.dom().contains(name@) ==> tag is Some && final(s)@.pipelines[name@].drop_last() == old(s)@.pipelines[name@] && final(s)@.wanted == old(s)@.wanted && final(s)@.doing == old(s)@.doing
            &&& final(s)@.secrets == old(s)@.secrets
            &&& final(s)@.streams == old(s)@.streams
        },
{
    if r is Ok && old(s)@.pipelines.dom().contains(name@) {
        assert(old(s)@.wanted.dom().contains(name@) && old(s)@.doing.dom().contains(name@));
        assert(final(s)@.pipelines[name@].drop_last() =~= old(s)@.pipelines[name@]);
    }
}

/// A pipeline is read at the revision that is asked for, the latest where none
/// is.
pub proof fn law_a_pipeline_is_read_back(
    s: Store,
    name: &str,
    revision: u64,
    r: Result<PipelineRow, SparrowError>,
    q: Result<PipelineRow, SparrowError>,
)
    requires
        call_ensures(Store::get_pipeline_revision, (&s, name, revision), r),
        call_ensures(Store::get_pipeline, (&s, name), q),
    ensures
        r is Ok <==> s@.pipelines.dom().contains(name@) && 1 <= revision
            <= s@.pipelines[name@].len(),
        r is Ok ==> r->Ok_0.name@ == name@ && r->Ok_0.spec == s.pipelines@[name@]@[revision - 1]
            && r->Ok_0.etag@ == "rev-"@ + decimal(revision as nat) && r->Ok_0.latest_revision
            == s.pipelines@[name@]@.len(),
        q is Ok <==> s@.pipelines.dom().contains(name@),
        q is Ok ==> q->Ok_0.name@ == name@ && q->Ok_0.spec == s.pipelines@[name@]@.last()
            && q->Ok_0.etag@ == "rev-"@ + decimal(s.pipelines@[name@]@.len())
            && q->Ok_0.latest_revision == s.pipelines@[name@]@.len(),
        q is Ok && r is Ok && revision == q->Ok_0.latest_revision ==> r->Ok_0.spec == q->Ok_0.spec
            && r->Ok_0.etag@ == q->Ok_0.etag@,
{
}

/// A target that is allowed is on the list once, behind those that were there.
pub proof fn law_a_target_is_allowed(
    s: &mut Store,
    host: &str,
    port: u16,
    r: Result<(), SparrowError>,
)
    requires
        call_ensures(Store::put_allow, (s, host, port), r),
        !s@.fail_next,
    ensures
        r is Ok,
        final(s)@.allowed.contains((host@, port)),
        old(s)@.allowed.contains((host@, port)) ==> final(s)@.allowed == old(s)@.allowed,
        !old(s)@.allowed.contains((host@, port)) ==> final(s)@.allowed.len() == old(s)@.allowed.len() + 1 && final(s)@.allowed.drop_last() == old(s)@.allowed,
        final(s)@.pipelines == old(s)@.pipelines,
{
    if !old(s)@.allowed.contains((host@, port)) {
        assert(final(s)@.allowed.drop_last() =~= old(s)@.allowed);
        assert(final(s)@.allowed.last() == (host@, port));
    }
}

/// Failures are forgotten, and the pipeline is no longer blocked; all else that
/// is known of it stays.
pub proof fn law_failures_are_forgotten(
    s: &mut Store,
    name: &str,
    r: Result<(), SparrowError>,
    t: &mut Store,
    error: Option<&str>,
    q: Result<(), SparrowError>,
)
    requires
        call_ensures(Store::reset_consecutive_failures, (s, name), r),
        call_ensures(Store::set_last_error, (t, name, error), q),
        !s@.fail_next,
        !t@.fail_next,
        s@.doing.dom().contains(name@),
        t@.doing.dom().contains(name@),
    ensures
        r is Ok && q is Ok,
        final(s)@.doing[name@].failures == 0,
        !final(s)@.doing[name@].blocked,
        final(s)@.doing[name@].status == old(s)@.doing[name@].status,
        final(s)@.doing[name@].revision == old(s)@.doing[name@].revision,
        final(s)@.doing[name@].attempt_id == old(s)@.doing[name@].attempt_id,
        final(s)@.doing[name@].error == old(s)@.doing[name@].error,
        final(t)@.doing[name@].failures == old(t)@.doing[name@].failures,
        final(t)@.doing[name@].blocked == old(t)@.doing[name@].blocked,
        final(t)@.doing[name@].status == old(t)@.doing[name@].status,
        error is Some ==> final(t)@.doing[name@].error == Some(error->0@),
        error is None ==> final(t)@.doing[name@].error is None,
{
}

/// After the process was started again every pipeline is stopped; a blocked one
/// stays blocked and shows why, and failures still count.
pub proof fn law_nothing_runs_after_a_restart(
    s: &mut Store,
    r: Result<(), SparrowError>,
    name: Seq<char>,
)
    requires
        call_ensures(Store::reset_actual_after_process_restart, (s,), r),
        !s@.fail_next,
        s@.doing.dom().contains(name),
    ensures
        r is Ok,
        final(s)@.doing[name].status == PipelineStatus::Stopped,
        final(s)@.doing[name].failures == old(s)@.doing[name].failures,
        final(s)@.doing[name].blocked == old(s)@.doing[name].blocked,
        final(s)@.doing[name].attempt_id == old(s)@.doing[name].attempt_id,
        final(s)@.doing[name].error == if old(s)@.doing[name].blocked {
            old(s)@.doing[name].error
        } else {
            None
        },
        final(s)@.wanted == old(s)@.wanted,
        final(s)@.pipelines == old(s)@.pipelines,
{
}

/// An attempt is numbered by how many were made, and is the last of those that
/// are kept, of which there are at most a hundred.
pub proof fn law_an_attempt_is_recorded(
    s: &mut Store,
    pipeline: &str,
    revision: u64,
    outcome: &str,
    detail: Option<&str>,
    r: Result<i64, SparrowError>,
)
    requires
        call_ensures(Store::insert_attempt, (s, pipeline, revision, outcome, detail), r),
        !s@.fail_next,
        s.wf(),
        s@.attempts_made < i64::MAX,
    ensures
        r == Ok::<i64, SparrowError>((old(s)@.attempts_made + 1) as i64),
        final(s)@.attempts_made == old(s)@.attempts_made + 1,
        1 <= final(s)@.attempts.len() <= 100,
        old(s)@.attempts.len() < 100 ==> final(s)@.attempts.drop_last() == old(s)@.attempts,
        final(s)@.attempts.last().id == old(s)@.attempts_made + 1,
        final(s)@.attempts.last().pipeline == pipeline@,
        final(s)@.attempts.last().revision == revision,
        final(s)@.attempts.last().outcome == outcome@,
        detail is Some ==> final(s)@.attempts.last().detail == Some(detail->0@),
        detail is None ==> final(s)@.attempts.last().detail is None,
        final(s)@.doing == old(s)@.doing,
{
    if old(s)@.attempts.len() < 100 {
        assert(final(s)@.attempts.drop_last() =~= old(s)@.attempts);
    }
}

/// The attempt that is shown of a pipeline is its own, and the latest that is
/// kept.
pub proof fn law_the_latest_attempt_is_shown(s: Store, pipeline: &str, r: Option<&AttemptRow>)
    requires
        call_ensures(Store::last_attempt, (&s, pipeline), r),
    ensures
        r is Some ==> r->0.pipeline@ == pipeline@,
        r is Some ==> exists|i: int|
            0 <= i < s@.attempts.len() && (#[trigger] s@.attempts[i]).id == r->0.id
                && s@.attempts[i].revision == r->0.revision && s@.attempts[i].outcome
                == r->0.outcome@ && forall|j: int|
                i < j < s@.attempts.len() ==> (#[trigger] s@.attempts[j]).pipeline != pipeline@,
        r is None ==> forall|i: int|
            0 <= i < s@.attempts.len() ==> (#[trigger] s@.attempts[i]).pipeline != pipeline@,
{
    super::laws::law_latest_attempt_is_the_last(s@.attempts, pipeline@);
}

/// The audit trail is shown from its newest entry backwards.
pub proof fn law_the_trail_is_shown_backwards(s: Store, limit: usize, r: Vec<AuditRow>, i: int)
    requires
        call_ensures(Store::list_audit, (&s, limit), r),
        s.wf(),
        0 <= i < r@.len(),
    ensures
        r@.len() <= 200,
        r@.len() == s@.audits.len() || r@.len() == limit || limit == 0,
        limit >= 1 ==> r@.len() <= limit,
        r@[i].id == s@.audits[s@.audits.len() - 1 - i].id,
        r@[i].at_ms == s@.audits[s@.audits.len() - 1 - i].at_ms,
        r@[i].actor@ == s@.audits[s@.audits.len() - 1 - i].actor,
        r@[i].action@ == s@.audits[s@.audits.len() - 1 - i].action,
        r@[i].outcome@ == s@.audits[s@.audits.len() - 1 - i].outcome,
{
    let shown = super::store::audited_all(r@);
    assert(shown.len() == r@.len());
    assert(shown[i] == super::store::audited(r@[i]));
}

/// A start that succeeds is known to run at its revision; its pauses are over.
pub proof fn law_a_started_pipeline_runs(
    v: &mut Supervisor,
    s: &mut Store,
    name: &str,
    revision: u64,
    note: &str,
    r: Result<(), SparrowError>,
)
    requires
        call_ensures(Supervisor::on_started, (v, s, name, revision, note), r),
        !s@.fail_next,
        s@.doing.dom().contains(name@),
    ensures
        r is Ok,
        final(v)@.running.dom().contains(name@) && final(v)@.running[name@] == revision,
        !final(v)@.retry.dom().contains(name@),
        !final(v)@.waits.dom().contains(name@),
        final(v)@.safe_mode == old(v)@.safe_mode,
        final(s)@.doing[name@].status == PipelineStatus::Running,
        final(s)@.doing[name@].failures == 0,
        !final(s)@.doing[name@].blocked,
        final(s)@.doing[name@].revision == Some(revision),
        final(s)@.doing[name@].attempt_id == old(s)@.doing[name@].attempt_id,
        final(s)@.doing[name@].error is None,
        final(s)@.attempts.last().outcome == "running"@,
        final(s)@.attempts.last().detail == Some(note@),
{
}

/// A job that fails runs no more. The failure counts, is shown and on record,
/// and the pipeline pauses: 40 ms doubled once per failure up to six times.
pub proof fn law_a_failed_job_pauses(
    v: &mut Supervisor,
    s: &mut Store,
    name: &str,
    revision: u64,
    message: &str,
    now: u64,
)
    requires
        call_ensures(Supervisor::on_failed, (v, s, name, revision, message, now), ()),
        !s@.fail_next,
        s@.doing.dom().contains(name@),
        s@.doing[name@].failures < u64::MAX,
        now + 2560 <= u64::MAX,
    ensures
        !final(v)@.running.dom().contains(name@),
        final(s)@.doing[name@].status == PipelineStatus::Failed,
        final(s)@.doing[name@].failures == old(s)@.doing[name@].failures + 1,
        final(s)@.doing[name@].blocked,
        final(s)@.doing[name@].error == Some(message@),
        final(s)@.doing[name@].revision == Some(revision),
        final(s)@.attempts.last().outcome == "failed"@,
        final(s)@.attempts.last().detail == Some(message@),
        final(v)@.retry.dom().contains(name@),
        final(v)@.retry[name@] == now + 40 * pow2(
            if old(s)@.doing[name@].failures < 5 {
                (old(s)@.doing[name@].failures + 1) as nat
            } else {
                6
            },
        ),
{
    lemma2_to64();
}

/// A start that fails leaves a job of another revision running.
pub proof fn law_a_failed_start_pauses(
    v: &mut Supervisor,
    s: &mut Store,
    name: &str,
    revision: u64,
    message: &str,
    now: u64,
)
    requires
        call_ensures(Supervisor::on_start_failed, (v, s, name, revision, message, now), ()),
        !s@.fail_next,
        s@.doing.dom().contains(name@),
        s@.doing[name@].failures < u64::MAX,
        now + 2560 <= u64::MAX,
    ensures
        final(v)@.running == old(v)@.running,
        final(v)@.waits == old(v)@.waits,
        final(s)@.doing[name@].status == PipelineStatus::Failed,
        final(s)@.doing[name@].failures == old(s)@.doing[name@].failures + 1,
        final(s)@.doing[name@].error == Some(message@),
        final(v)@.retry[name@] == now + 40 * pow2(
            if old(s)@.doing[name@].failures < 5 {
                (old(s)@.doing[name@].failures + 1) as nat
            } else {
                6
            },
        ),
{
    lemma2_to64();
}

/// A pipeline that finds no room waits, which is no failure: half a second at
/// first, twice as long every further time, and five seconds from the fifth on.
pub proof fn law_no_room_is_waited_for(
    v: &mut Supervisor,
    s: &mut Store,
    name: &str,
    revision: u64,
    admitted: u64,
    limit: u64,
    now: u64,
)
    requires
        call_ensures(Supervisor::on_no_room, (v, s, name, revision, admitted, limit, now), ()),
        !s@.fail_next,
        s@.doing.dom().contains(name@),
        v@.waits.dom().contains(name@),
        v@.waits[name@] < u64::MAX,
        now + 5000 <= u64::MAX,
    ensures
        final(v)@.running == old(v)@.running,
        final(v)@.waits[name@] == old(v)@.waits[name@] + 1,
        final(s)@.doing[name@].status == PipelineStatus::Waiting,
        final(s)@.doing[name@].failures == old(s)@.doing[name@].failures,
        final(s)@.doing[name@].blocked == old(s)@.doing[name@].blocked,
        old(v)@.waits[name@] < 4 ==> final(v)@.retry[name@] == now + 500 * pow2(
            old(v)@.waits[name@] as nat,
        ),
        old(v)@.waits[name@] >= 4 ==> final(v)@.retry[name@] == now + 5000,
        final(s)@.doing[name@].error == Some(
            "capacity: "@ + decimal(admitted as nat) + "/"@ + decimal(limit as nat)
                + " jobs admitted"@,
        ),
{
    lemma2_to64();
}

/// A job that has completed or was stopped runs no more; completing forgets the
/// failures, a stop does not.
pub proof fn law_a_job_ends(
    v: &mut Supervisor,
    s: &mut Store,
    w: &mut Supervisor,
    t: &mut Store,
    name: &str,
    revision: u64,
    at: Option<u64>,
    error: Option<&str>,
)
    requires
        call_ensures(Supervisor::on_completed, (v, s, name, revision), ()),
        call_ensures(Supervisor::on_stopped, (w, t, name, at, error), ()),
        !s@.fail_next,
        !t@.fail_next,
        s@.doing.dom().contains(name@),
        t@.doing.dom().contains(name@),
    ensures
        !final(v)@.running.dom().contains(name@),
        !final(w)@.running.dom().contains(name@),
        !final(w)@.waits.dom().contains(name@),
        final(s)@.doing[name@].status == PipelineStatus::Completed,
        final(s)@.doing[name@].failures == 0,
        final(s)@.doing[name@].error is None,
        final(s)@.doing[name@].revision == Some(revision),
        final(s)@.attempts.last().outcome == "completed"@,
        final(t)@.doing[name@].status == PipelineStatus::Stopped,
        final(t)@.doing[name@].failures == old(t)@.doing[name@].failures,
        final(t)@.doing[name@].revision == at,
        error is Some ==> final(t)@.doing[name@].error == Some(error->0@),
        error is None ==> final(t)@.doing[name@].error is None,
{
}

/// What is decided about a pipeline: one that is not wanted to run is stopped
/// where it runs. One that is wanted, has not failed and does not wait for room
/// is started unless its revision runs. One that failed sixteen times in a row,
/// or in safe mode once, is left.
pub proof fn law_what_is_decided(
    v: &mut Supervisor,
    s: &mut Store,
    d: DesiredState,
    now: u64,
    r: Result<Decision, SparrowError>,
)
    requires
        call_ensures(Supervisor::decide, (v, s, &d, now), r),
        !s@.fail_next,
        s@.doing.dom().contains(d.name@),
    ensures
        r is Ok,
        d.status != PipelineStatus::Running && old(v)@.running.dom().contains(d.name@) ==> r->Ok_0
            == Decision::Stop,
        d.status != PipelineStatus::Running && !old(v)@.running.dom().contains(d.name@) ==> r->Ok_0
            == if old(s)@.doing[d.name@].status == PipelineStatus::Waiting {
            Decision::ShowStopped
        } else {
            Decision::Leave
        },
        d.status == PipelineStatus::Running ==> {
            let a = old(s)@.doing[d.name@];
            let rev = if d.revision is Some {
                d.revision->0
            } else {
                1
            };
            let runs = old(v)@.running.dom().contains(d.name@) && old(v)@.running[d.name@] == rev;
            &&& a.failures >= 16 ==> r->Ok_0 == Decision::Leave && final(s)@.doing[d.name@].error is Some
            &&& old(v)@.safe_mode && a.blocked ==> r->Ok_0 == Decision::Leave && final(s)@.doing[d.name@].error is Some
            &&& runs ==> r->Ok_0 == Decision::Leave
            &&& a.status == PipelineStatus::Completed && a.revision == d.revision ==> r->Ok_0
                == Decision::Leave
            &&& (a.status == PipelineStatus::Stopped || a.status == PipelineStatus::Starting
                || a.status == PipelineStatus::Running) && a.failures < 16 && !(old(v)@.safe_mode
                && a.blocked) && !runs ==> r->Ok_0 == Decision::Start(rev)
            &&& a.status == PipelineStatus::Failed && 0 < a.failures < 16 && !old(v)@.safe_mode
                && !runs && old(v)@.retry.dom().contains(d.name@) ==> r->Ok_0 == if now >= old(v)@.retry[d.name@] {
                Decision::Start(rev)
            } else {
                Decision::Leave
            }
            &&& r->Ok_0 is Start ==> r->Ok_0 == Decision::Start(rev)
            &&& !(r->Ok_0 is Stop) && !(r->Ok_0 is ShowStopped)
        },
        final(v)@.running == old(v)@.running,
        final(s)@.pipelines == old(s)@.pipelines,
        final(s)@.wanted == old(s)@.wanted,
{
}

/// A process that was just started knows of no job.
pub proof fn law_a_new_supervisor_knows_nothing(
    s: &mut Store,
    safe_mode: bool,
    r: Result<Supervisor, SparrowError>,
    name: Seq<char>,
)
    requires
        call_ensures(Supervisor::new, (s, safe_mode), r),
        s@.doing.dom().contains(name),
        !s@.fail_next,
    ensures
        r is Ok,
        r->Ok_0@.safe_mode == safe_mode,
        !r->Ok_0@.running.dom().contains(name),
        !r->Ok_0@.retry.dom().contains(name),
        !r->Ok_0@.waits.dom().contains(name),
        final(s)@.doing[name].status == PipelineStatus::Stopped,
        final(s)@.doing[name].failures == old(s)@.doing[name].failures,
{
}

/// A request to start makes the revision wanted, the latest where none is named,
/// and forgets the failures; a request to stop makes the pipeline wanted to be
/// stopped.
pub proof fn law_what_is_asked_for_is_wanted(
    s: &mut Store,
    t: &mut Store,
    name: &str,
    actor: &str,
    revision: Option<u64>,
    r: Result<(), SparrowError>,
    q: Result<(), SparrowError>,
)
    requires
        call_ensures(request_start_at, (s, name, actor, revision), r),
        call_ensures(request_stop, (t, name, actor), q),
        !s@.fail_next,
        !t@.fail_next,
        s@.doing.dom().contains(name@),
        s@.pipelines.dom().contains(name@),
        s@.pipelines[name@].len() <= u64::MAX,
    ensures
        revision is None ==> r is Ok && final(s)@.wanted[name@].revision == Some(
            old(s)@.pipelines[name@].len() as u64,
        ),
        revision is Some ==> (r is Ok <==> 1 <= revision->0 <= old(s)@.pipelines[name@].len()),
        r is Ok ==> final(s)@.wanted[name@].status == PipelineStatus::Running,
        r is Ok && revision is Some ==> final(s)@.wanted[name@].revision == revision,
        r is Ok ==> final(s)@.doing[name@].failures == 0 && !final(s)@.doing[name@].blocked
            && final(s)@.doing[name@].error is None,
        r is Ok ==> final(s)@.audits.last().action == "start"@ && final(s)@.audits.last().actor
            == actor@,
        r is Err ==> final(s)@ == old(s)@,
        q is Ok <==> old(t)@.pipelines.dom().contains(name@),
        q is Ok ==> final(t)@.wanted[name@].status == PipelineStatus::Stopped,
        q is Ok ==> final(t)@.audits.last().action == "stop"@ && final(t)@.audits.last().actor
            == actor@,
        q is Ok ==> final(t)@.doing == old(t)@.doing,
{
}

/// A checkpoint can be asked of a job that runs and is aligned, and of no other.
pub proof fn law_when_a_checkpoint_can_be_asked_for(
    v: Supervisor,
    name: &str,
    aligned: bool,
    r: Result<(), SparrowError>,
    spec: PipelineSpec,
    note: Result<&'static str, SparrowError>,
)
    requires
        call_ensures(Supervisor::check_checkpoint, (&v, name, aligned), r),
        call_ensures(note_of, (&spec,), note),
    ensures
        r is Ok <==> v@.running.dom().contains(name@) && aligned,
        r is Err ==> r->Err_0.code == if v@.running.dom().contains(name@) {
            ErrorCode::FeatureUnavailable
        } else {
            ErrorCode::InvalidArgument
        },
        spec.recovery@ == "aligned"@ ==> note is Ok && note->Ok_0@ == "aligned; not exactly-once"@,
        spec.recovery@ == "restart_fresh"@ ==> note is Ok && note->Ok_0@ == "restart_fresh"@,
{
    crate::file_laws::law_guarantees_are_named(spec.recovery@);
}

/// A failure that could not be written counts as the first one: the pipeline
/// pauses 80 ms.
pub proof fn law_an_unwritten_failure_pauses_too(
    v: &mut Supervisor,
    s: &mut Store,
    name: &str,
    revision: u64,
    message: &str,
    now: u64,
)
    requires
        call_ensures(Supervisor::on_failed, (v, s, name, revision, message, now), ()),
        s@.fail_next,
        !s@.doing.dom().contains(name@) || s@.doing[name@].failures == 0,
        now + 80 <= u64::MAX,
    ensures
        !final(v)@.running.dom().contains(name@),
        final(v)@.retry[name@] == now + 80,
        final(s)@.doing == old(s)@.doing,
{
}

} // verus!
