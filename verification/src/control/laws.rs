//! What holds of the catalog and of the supervisor whatever happens: how
//! failures are counted, how long a pipeline pauses, what is decided, and what a
//! write changes.

use super::status::PipelineStatus;
use super::store::{
    after_restart, check_catalog_version, latest_attempt, name_fault, newest, put_fault,
    shown_audits, with_audit, with_pipeline, Activity, Attempted, Audited, Catalog, Store, Wanted,
};
use super::supervisor::{
    capacity_backoff, decided, doubling, held_catalog, held_text, max_jobs, next_attempt, noted,
    retry_backoff, start_requested, stop_requested, with_activity, with_attempt, Decision,
    Supervisor, Watch,
};
use super::spec::PipelineSpec;
use crate::model::{ErrorCode, Fault, SparrowError};
use crate::text::{decimal, law_decimal_is_read_back};
use vstd::arithmetic::power2::{lemma2_to64, lemma_pow2_strictly_increases, pow2};
use vstd::prelude::*;
use vstd::string::*;
use vstd::utf8::*;

verus! {

/// What was reported of a pipeline.
pub ghost struct Report {
    pub status: PipelineStatus,
    pub revision: Option<u64>,
    pub attempt: u64,
    pub error: Option<Seq<char>>,
}

/// The catalog after reports of one pipeline, in order.
pub open spec fn history(c: Catalog, name: Seq<char>, reports: Seq<Report>) -> Catalog
    decreases reports.len(),
{
    if reports.len() == 0 {
        c
    } else {
        let r = reports.last();
        with_activity(
            history(c, name, reports.drop_last()),
            name,
            r.status,
            r.revision,
            r.attempt,
            r.error,
        )
    }
}

/// A report of a failure.
pub open spec fn is_failure() -> spec_fn(Report) -> bool {
    |r: Report| r.status == PipelineStatus::Failed
}

/// A report that the pipeline works or has done its work.
pub open spec fn is_success(r: Report) -> bool {
    r.status == PipelineStatus::Running || r.status == PipelineStatus::Completed
}

proof fn lemma_history_splits(c: Catalog, name: Seq<char>, a: Seq<Report>, b: Seq<Report>)
    ensures
        history(c, name, a + b) == history(history(c, name, a), name, b),
    decreases b.len(),
{
    if b.len() == 0 {
        assert(a + b =~= a);
    } else {
        assert((a + b).drop_last() =~= a + b.drop_last());
        lemma_history_splits(c, name, a, b.drop_last());
    }
}

proof fn lemma_failures_add_up(c: Catalog, name: Seq<char>, reports: Seq<Report>)
    requires
        c.doing.dom().contains(name),
        c.doing[name].failures + reports.len() <= u64::MAX,
        forall|i: int| 0 <= i < reports.len() ==> !is_success(#[trigger] reports[i]),
    ensures
        history(c, name, reports).doing.dom().contains(name),
        history(c, name, reports).doing[name].failures == c.doing[name].failures + reports.filter(
            is_failure(),
        ).len(),
    decreases reports.len(),
{
    reveal(Seq::filter);
    if reports.len() > 0 {
        lemma_failures_add_up(c, name, reports.drop_last());
        assert(!is_success(reports.last()));
        let before = reports.drop_last();
        before.lemma_filter_len(is_failure());
    }
}

/// The failures that are counted for a pipeline are those since it last ran:
/// whatever was reported before, the reports of a failure after the last report
/// that it runs or has completed.
pub proof fn law_failures_are_counted_since_it_ran(
    c: Catalog,
    name: Seq<char>,
    before: Seq<Report>,
    ran: Report,
    after: Seq<Report>,
)
    requires
        ran.status == PipelineStatus::Running || ran.status == PipelineStatus::Completed,
        forall|i: int|
            0 <= i < after.len() ==> (#[trigger] after[i]).status != PipelineStatus::Running
                && after[i].status != PipelineStatus::Completed,
        after.len() <= u64::MAX,
    ensures
        history(c, name, before.push(ran) + after).doing[name].failures == after.filter(
            |r: Report| r.status == PipelineStatus::Failed,
        ).len(),
{
    assert((|r: Report| r.status == PipelineStatus::Failed) =~= is_failure());
    lemma_history_splits(c, name, before.push(ran), after);
    assert(before.push(ran).drop_last() =~= before);
    let mid = history(c, name, before.push(ran));
    assert(mid.doing[name].failures == 0);
    assert forall|i: int| 0 <= i < after.len() implies !is_success(#[trigger] after[i]) by {
        assert(after[i].status != PipelineStatus::Running);
    }
    lemma_failures_add_up(mid, name, after);
}

/// A start that was asked for begins the count anew: only the failures that are
/// reported after it count.
pub proof fn law_failures_are_counted_since_a_start(
    c: Catalog,
    name: Seq<char>,
    actor: Seq<char>,
    revision: Option<u64>,
    after: Seq<Report>,
)
    requires
        start_requested(c, name, actor, revision).1 is None,
        forall|i: int|
            0 <= i < after.len() ==> (#[trigger] after[i]).status != PipelineStatus::Running
                && after[i].status != PipelineStatus::Completed,
        after.len() <= u64::MAX,
    ensures
        history(start_requested(c, name, actor, revision).0, name, after).doing[name].failures
            == after.filter(|r: Report| r.status == PipelineStatus::Failed).len(),
{
    assert((|r: Report| r.status == PipelineStatus::Failed) =~= is_failure());
    let mid = start_requested(c, name, actor, revision).0;
    assert(mid.doing.dom().contains(name));
    assert(mid.doing[name].failures == 0);
    assert forall|i: int| 0 <= i < after.len() implies !is_success(#[trigger] after[i]) by {
        assert(after[i].status != PipelineStatus::Running);
    }
    lemma_failures_add_up(mid, name, after);
}

/// A pipeline that fails again and again is held from its sixteenth failure in a
/// row on, and not before; in safe mode from the first.
pub proof fn law_sixteen_failures_hold(
    c: Catalog,
    name: Seq<char>,
    ran: Report,
    failed: Seq<Report>,
)
    requires
        ran.status == PipelineStatus::Running || ran.status == PipelineStatus::Completed,
        forall|i: int|
            0 <= i < failed.len() ==> (#[trigger] failed[i]).status == PipelineStatus::Failed,
        failed.len() <= u64::MAX,
    ensures
        held_text(history(c, name, seq![ran] + failed), name, false) is Some <==> failed.len()
            >= 16,
        held_text(history(c, name, seq![ran] + failed), name, true) is Some <==> failed.len() >= 1,
{
    let none = Seq::<Report>::empty();
    assert(none.push(ran) =~= seq![ran]);
    law_failures_are_counted_since_it_ran(c, name, none, ran, failed);
    assert((|r: Report| r.status == PipelineStatus::Failed) =~= is_failure());
    lemma_all_kept(failed);
    let all = seq![ran] + failed;
    if failed.len() > 0 {
        assert(all.last() == failed[failed.len() - 1]);
    } else {
        assert(all =~= seq![ran]);
    }
}

proof fn lemma_all_kept(s: Seq<Report>)
    requires
        forall|i: int| 0 <= i < s.len() ==> (#[trigger] s[i]).status == PipelineStatus::Failed,
    ensures
        s.filter(is_failure()) == s,
    decreases s.len(),
{
    reveal(Seq::filter);
    if s.len() > 0 {
        lemma_all_kept(s.drop_last());
        assert(s.last() == s[s.len() - 1]);
        assert(s.drop_last().push(s.last()) =~= s);
    }
}

/// A pipeline that was reported to run or to have completed is not held, in safe
/// mode or out of it.
pub proof fn law_a_working_pipeline_is_not_held(
    c: Catalog,
    name: Seq<char>,
    status: PipelineStatus,
    revision: Option<u64>,
    attempt: u64,
    error: Option<Seq<char>>,
    safe_mode: bool,
)
    requires
        status == PipelineStatus::Running || status == PipelineStatus::Completed,
    ensures
        ({
            let after = with_activity(c, name, status, revision, attempt, error);
            &&& held_text(after, name, safe_mode) is None
            &&& held_catalog(after, name, safe_mode) == (after, None::<Fault>)
        }),
{
}

/// A report is kept as it was made and touches no other pipeline. It blocks a
/// restart where it is of a failure; it lifts the block where the pipeline
/// starts, runs or has completed; else the block stays.
pub proof fn law_a_report_is_kept(
    c: Catalog,
    name: Seq<char>,
    other: Seq<char>,
    status: PipelineStatus,
    revision: Option<u64>,
    attempt: u64,
    error: Option<Seq<char>>,
)
    requires
        name != other,
    ensures
        ({
            let after = with_activity(c, name, status, revision, attempt, error);
            let a = after.doing[name];
            &&& after.doing.dom() == c.doing.dom().insert(name)
            &&& a.status == status
            &&& a.revision == revision
            &&& a.attempt_id == attempt
            &&& a.error == error
            &&& after.doing.dom().contains(other) ==> after.doing[other] == c.doing[other]
            &&& after.wanted == c.wanted
            &&& after.pipelines == c.pipelines
            &&& after.streams == c.streams
            &&& after.secrets == c.secrets
            &&& after.allowed == c.allowed
            &&& after.attempts == c.attempts
            &&& after.audits == c.audits
            &&& status == PipelineStatus::Failed ==> a.blocked
            &&& status == PipelineStatus::Starting || status == PipelineStatus::Running || status
                == PipelineStatus::Completed ==> !a.blocked
            &&& status == PipelineStatus::Stopped || status == PipelineStatus::Waiting ==> {
                &&& c.doing.dom().contains(name) ==> a.blocked == c.doing[name].blocked
                    && a.failures == c.doing[name].failures
                &&& !c.doing.dom().contains(name) ==> !a.blocked && a.failures == 0
            }
            &&& status == PipelineStatus::Starting && c.doing.dom().contains(name) ==> a.failures
                == c.doing[name].failures
        }),
{
}

/// A restart of the process stops every pipeline. What was counted stays, and so
/// does the error of one that is blocked.
pub proof fn law_restart_keeps_the_count(a: Activity)
    ensures
        after_restart(a).status == PipelineStatus::Stopped,
        after_restart(a).failures == a.failures,
        after_restart(a).attempt_id == a.attempt_id,
        after_restart(a).revision == a.revision,
        after_restart(a).blocked == a.blocked,
        a.blocked ==> after_restart(a).error == a.error,
        !a.blocked ==> after_restart(a).error is None,
{
}

proof fn lemma_doubling(n: u64)
    ensures
        n <= 6 ==> doubling(n) == pow2(n as nat),
        n > 6 ==> doubling(n) == 64,
        n >= 6 ==> pow2(n as nat) >= 64,
{
    lemma2_to64();
    if n > 6 {
        lemma_pow2_strictly_increases(6, n as nat);
    }
}

/// A pause after `n` failures is 40 ms doubled `n` times, but no longer than
/// 2560 ms; one for want of room is half a second doubled with every wait, but
/// no longer than five seconds.
pub proof fn law_pauses_double(n: u64, failed: u64, full: u64)
    requires
        call_ensures(retry_backoff, (n,), failed),
        call_ensures(capacity_backoff, (n,), full),
    ensures
        failed == if 40 * pow2(n as nat) < 2560 {
            40 * pow2(n as nat)
        } else {
            2560
        },
        full == if 500 * pow2(n as nat) < 5000 {
            500 * pow2(n as nat)
        } else {
            5000
        },
{
    lemma_doubling(n);
    lemma2_to64();
    if n >= 4 {
        if n > 4 {
            lemma_pow2_strictly_increases(4, n as nat);
        }
    }
}

/// A pipeline that failed for the `n`th time in a row at the moment `now` may be
/// tried again 40 ms doubled `n` times later, 2560 ms at most; when another may
/// be tried does not change, nor does what runs.
pub proof fn law_a_failure_sets_the_pause(
    w: Watch,
    c: Catalog,
    name: Seq<char>,
    other: Seq<char>,
    now: u64,
)
    requires
        c.doing.dom().contains(name),
        c.doing[name].failures >= 1,
        name != other,
        now <= u64::MAX - 2560,
    ensures
        ({
            let after = Supervisor::retrying(w, c, name, now);
            let p = 40 * pow2(c.doing[name].failures as nat);
            &&& after.retry.dom().contains(name)
            &&& after.retry[name] == now + if p < 2560 { p as int } else { 2560 }
            &&& after.retry.dom().contains(other) == w.retry.dom().contains(other)
            &&& w.retry.dom().contains(other) ==> after.retry[other] == w.retry[other]
            &&& after.running == w.running
            &&& after.waits == w.waits
            &&& after.safe_mode == w.safe_mode
        }),
{
    let n = c.doing[name].failures;
    lemma_doubling(n);
    lemma2_to64();
    if n < 6 {
        lemma_pow2_strictly_increases(n as nat, 6);
    }
}

/// What is decided of a pipeline that is wanted to run and has not to pause: it
/// is started at the wanted revision, the first where none is named, unless that
/// revision runs; one that completed that revision is not started again.
pub proof fn law_wanted_pipelines_are_started(
    w: Watch,
    c: Catalog,
    name: Seq<char>,
    d: Wanted,
    now: u64,
)
    requires
        d.status == PipelineStatus::Running,
        c.doing.dom().contains(name) ==> c.doing[name].status != PipelineStatus::Failed
            && c.doing[name].status != PipelineStatus::Waiting,
    ensures
        ({
            let r: u64 = match d.revision {
                Some(n) => n,
                None => 1,
            };
            let done = c.doing.dom().contains(name) && c.doing[name].status
                == PipelineStatus::Completed && c.doing[name].revision == d.revision;
            let runs = w.running.dom().contains(name) && w.running[name] == r;
            &&& done || runs ==> decided(w, c, name, d, now).0 == Decision::Leave
            &&& !done && !runs ==> decided(w, c, name, d, now).0 == Decision::Start(r)
            &&& decided(w, c, name, d, now).1.running == w.running
        }),
{
}

/// What is decided of a pipeline that is not wanted to run: a job of it is
/// stopped; one that only waits for room is shown as stopped.
pub proof fn law_unwanted_pipelines_are_stopped(
    w: Watch,
    c: Catalog,
    name: Seq<char>,
    d: Wanted,
    now: u64,
)
    requires
        d.status != PipelineStatus::Running,
    ensures
        decided(w, c, name, d, now).1 == w,
        w.running.dom().contains(name) ==> decided(w, c, name, d, now).0 == Decision::Stop,
        !w.running.dom().contains(name) ==> decided(w, c, name, d, now).0 == if c.doing.dom().contains(
            name,
        ) && c.doing[name].status == PipelineStatus::Waiting {
            Decision::ShowStopped
        } else {
            Decision::Leave
        },
{
}

/// A pipeline that failed or found no room is started at the moment that was set
/// for it and later, and not before. Where no moment was set, its pause begins
/// now.
pub proof fn law_pauses_are_kept(
    w: Watch,
    c: Catalog,
    name: Seq<char>,
    d: Wanted,
    now: u64,
)
    requires
        d.status == PipelineStatus::Running,
        c.doing.dom().contains(name),
        (c.doing[name].status == PipelineStatus::Failed && c.doing[name].failures > 0)
            || c.doing[name].status == PipelineStatus::Waiting,
        !w.running.dom().contains(name),
        now < u64::MAX,
    ensures
        ({
            let r: u64 = match d.revision {
                Some(n) => n,
                None => 1,
            };
            let (what, after) = decided(w, c, name, d, now);
            &&& after.retry.dom().contains(name)
            &&& w.retry.dom().contains(name) ==> {
                &&& after.retry[name] == w.retry[name]
                &&& what == if now >= w.retry[name] {
                    Decision::Start(r)
                } else {
                    Decision::Leave
                }
            }
            &&& !w.retry.dom().contains(name) ==> {
                &&& what == Decision::Leave
                &&& now < after.retry[name] <= now + 5000
            }
        }),
{
    lemma_doubling(c.doing[name].failures);
}

/// Attempts are numbered one after another.
pub proof fn law_attempts_are_numbered(c: Catalog, name: Seq<char>)
    ensures
        !c.doing.dom().contains(name) ==> next_attempt(c, name) == 1,
        c.doing.dom().contains(name) && c.doing[name].attempt_id < u64::MAX ==> next_attempt(
            c,
            name,
        ) == c.doing[name].attempt_id + 1,
{
}

/// What a failure, a wait or a start leaves on record: the activity as it was
/// reported, and as the newest attempt its revision, its status by name and its
/// detail. A write that is cut off leaves nothing.
pub proof fn law_what_happens_is_on_record(
    c: Catalog,
    name: Seq<char>,
    status: PipelineStatus,
    revision: u64,
    attempt: u64,
    error: Option<Seq<char>>,
    detail: Option<Seq<char>>,
)
    requires
        c.attempts.len() <= 100,
        0 <= c.attempts_made < i64::MAX,
    ensures
        ({
            let (after, failed) = noted(c, name, status, revision, attempt, error, detail);
            &&& c.fail_next <==> failed is Some
            &&& c.fail_next ==> after == (Catalog { fail_next: false, ..c })
            &&& !c.fail_next ==> {
                &&& after.doing[name].status == status
                &&& after.doing[name].revision == Some(revision)
                &&& after.doing[name].attempt_id == attempt
                &&& after.doing[name].error == error
                &&& after.attempts.last() == (Attempted {
                    id: (c.attempts_made + 1) as i64,
                    pipeline: name,
                    revision,
                    outcome: status.name(),
                    detail,
                })
                &&& after.wanted == c.wanted
                &&& after.pipelines == c.pipelines
            }
        }),
{
}

/// A start that was asked for: the revision is wanted to run, the latest where
/// none is named; the pipeline is shown as stopped with no error, no failures
/// and no block; the request is the newest entry of the audit trail.
pub proof fn law_a_start_is_wanted(
    c: Catalog,
    name: Seq<char>,
    actor: Seq<char>,
    revision: Option<u64>,
)
    requires
        !c.fail_next,
        c.audits.len() <= 200,
        c.pipelines.dom().contains(name),
        c.pipelines[name].len() <= u64::MAX,
    ensures
        ({
            let (after, refused) = start_requested(c, name, actor, revision);
            let n = c.pipelines[name].len();
            &&& refused is None <==> (revision matches Some(r) ==> 1 <= r <= n)
            &&& refused is Some ==> after == c
            &&& refused is None ==> {
                &&& after.wanted[name].status == PipelineStatus::Running
                &&& after.wanted[name].revision == Some(
                    match revision {
                        Some(r) => r,
                        None => n as u64,
                    },
                )
                &&& after.doing[name].status == PipelineStatus::Stopped
                &&& after.doing[name].failures == 0
                &&& !after.doing[name].blocked
                &&& after.doing[name].error is None
                &&& c.doing.dom().contains(name) ==> after.doing[name].attempt_id
                    == c.doing[name].attempt_id
                &&& after.pipelines == c.pipelines
                &&& after.attempts == c.attempts
                &&& after.audits.last().actor == actor
                &&& after.audits.last().action == "start"@
                &&& after.audits.last().target == Some(name)
                &&& after.audits.last().outcome == "accepted"@
            }
        }),
{
}

/// A stop that was asked for: the pipeline is wanted to be stopped, and what it
/// does is left to the supervisor.
pub proof fn law_a_stop_is_wanted(c: Catalog, name: Seq<char>, actor: Seq<char>)
    requires
        !c.fail_next,
        c.audits.len() <= 200,
    ensures
        ({
            let (after, refused) = stop_requested(c, name, actor);
            &&& refused is None <==> c.pipelines.dom().contains(name)
            &&& refused is Some ==> after == c
            &&& refused is None ==> {
                &&& after.wanted[name] == (Wanted {
                    revision: None,
                    status: PipelineStatus::Stopped,
                })
                &&& after.doing == c.doing
                &&& after.pipelines == c.pipelines
                &&& after.audits.last().actor == actor
                &&& after.audits.last().action == "stop"@
                &&& after.audits.last().target == Some(name)
                &&& after.audits.last().outcome == "accepted"@
            }
        }),
{
}

/// A request for one pipeline changes nothing that is wanted or known of
/// another.
pub proof fn law_requests_are_apart(
    c: Catalog,
    name: Seq<char>,
    other: Seq<char>,
    actor: Seq<char>,
    revision: Option<u64>,
)
    requires
        name != other,
    ensures
        ({
            let a = start_requested(c, name, actor, revision).0;
            let b = stop_requested(c, name, actor).0;
            &&& c.wanted.dom().contains(other) ==> a.wanted[other] == c.wanted[other]
                && b.wanted[other] == c.wanted[other]
            &&& c.doing.dom().contains(other) ==> a.doing[other] == c.doing[other]
                && b.doing[other] == c.doing[other]
            &&& a.wanted.dom().contains(other) == c.wanted.dom().contains(other)
            &&& b.wanted.dom().contains(other) == c.wanted.dom().contains(other)
        }),
{
}

/// A host is told how many jobs it admits in decimal, from one to 256.
pub proof fn law_max_jobs_is_a_number(n: nat)
    ensures
        1 <= n <= 256 ==> max_jobs(decimal(n)) == Ok::<u64, Fault>(n as u64),
        n == 0 || 256 < n <= u64::MAX ==> max_jobs(decimal(n)) is Err,
{
    if n <= u64::MAX {
        law_decimal_is_read_back(n, u64::MAX as nat);
    }
}

/// A catalog without a version is given one; version one is read; any other is
/// refused.
pub proof fn law_only_version_one_is_read(found: u32, r: Result<bool, SparrowError>)
    requires
        call_ensures(check_catalog_version, (found,), r),
    ensures
        found == 0 ==> r == Ok::<bool, SparrowError>(true),
        found == 1 ==> r == Ok::<bool, SparrowError>(false),
        found > 1 ==> r is Err && r->Err_0.code == ErrorCode::FeatureUnavailable,
{
}

/// Of a history at most as many entries are kept as it is allowed to hold: the
/// last ones, in their order.
pub proof fn law_the_newest_are_kept<T>(s: Seq<T>, cap: int)
    requires
        cap >= 0,
    ensures
        newest(s, cap).len() == if s.len() < cap {
            s.len() as int
        } else {
            cap
        },
        forall|i: int|
            0 <= i < newest(s, cap).len() ==> #[trigger] newest(s, cap)[i] == s[s.len() - newest(
                s,
                cap,
            ).len() + i],
{
}

/// An attempt that is recorded is the newest one; of a hundred that are kept the
/// oldest leaves.
pub proof fn law_a_hundred_attempts_are_kept(
    c: Catalog,
    name: Seq<char>,
    revision: u64,
    outcome: Seq<char>,
    detail: Option<Seq<char>>,
)
    requires
        c.attempts.len() <= 100,
        0 <= c.attempts_made < i64::MAX,
    ensures
        ({
            let after = with_attempt(c, name, revision, outcome, detail);
            &&& after.attempts_made == c.attempts_made + 1
            &&& after.attempts.last() == (Attempted {
                id: (c.attempts_made + 1) as i64,
                pipeline: name,
                revision,
                outcome,
                detail,
            })
            &&& c.attempts.len() < 100 ==> after.attempts.drop_last() == c.attempts
            &&& c.attempts.len() == 100 ==> after.attempts.drop_last() == c.attempts.skip(1)
            &&& after.doing == c.doing
            &&& latest_attempt(after.attempts, name) == Some(after.attempts.last())
        }),
{
    let after = with_attempt(c, name, revision, outcome, detail);
    if c.attempts.len() < 100 {
        assert(after.attempts.drop_last() =~= c.attempts);
    } else {
        assert(after.attempts.drop_last() =~= c.attempts.skip(1));
    }
}

/// The latest attempt of a pipeline is the last one on record that is its own.
pub proof fn law_latest_attempt_is_the_last(s: Seq<Attempted>, pipeline: Seq<char>)
    ensures
        match latest_attempt(s, pipeline) {
            Some(a) => exists|i: int|
                0 <= i < s.len() && #[trigger] s[i] == a && a.pipeline == pipeline && forall|j: int|
                    i < j < s.len() ==> (#[trigger] s[j]).pipeline != pipeline,
            None => forall|i: int| 0 <= i < s.len() ==> (#[trigger] s[i]).pipeline != pipeline,
        },
    decreases s.len(),
{
    if s.len() > 0 {
        if s.last().pipeline == pipeline {
            assert(s[s.len() - 1] == s.last());
        } else {
            law_latest_attempt_is_the_last(s.drop_last(), pipeline);
            let t = s.drop_last();
            match latest_attempt(t, pipeline) {
                Some(a) => {
                    let i = choose|i: int|
                        0 <= i < t.len() && #[trigger] t[i] == a && a.pipeline == pipeline
                            && forall|j: int|
                            i < j < t.len() ==> (#[trigger] t[j]).pipeline != pipeline;
                    assert(s[i] == a);
                    assert forall|j: int| i < j < s.len() implies (#[trigger] s[j]).pipeline
                        != pipeline by {
                        if j < t.len() {
                            assert(t[j] == s[j]);
                        }
                    }
                },
                None => {
                    assert forall|i: int| 0 <= i < s.len() implies (#[trigger] s[i]).pipeline
                        != pipeline by {
                        if i < t.len() {
                            assert(t[i] == s[i]);
                        }
                    }
                },
            }
        }
    }
}

/// An entry that is added to the audit trail is the newest one; of two hundred
/// that are kept the oldest leaves.
pub proof fn law_two_hundred_entries_are_kept(
    c: Catalog,
    actor: Seq<char>,
    action: Seq<char>,
    target: Option<Seq<char>>,
    detail: Option<Seq<char>>,
    outcome: Seq<char>,
)
    requires
        c.audits.len() <= 200,
        0 <= c.audits_made < i64::MAX,
    ensures
        ({
            let after = with_audit(c, actor, action, target, detail, outcome);
            &&& after.audits.last() == (Audited {
                id: (c.audits_made + 1) as i64,
                at_ms: c.clock_ms,
                actor,
                action,
                target,
                detail,
                outcome,
            })
            &&& after.audits_made == c.audits_made + 1
            &&& c.audits.len() < 200 ==> after.audits.drop_last() == c.audits
            &&& c.audits.len() == 200 ==> after.audits.drop_last() == c.audits.skip(1)
            &&& after.doing == c.doing
            &&& after.wanted == c.wanted
        }),
{
    let after = with_audit(c, actor, action, target, detail, outcome);
    if c.audits.len() < 200 {
        assert(after.audits.drop_last() =~= c.audits);
    } else {
        assert(after.audits.drop_last() =~= c.audits.skip(1));
    }
}

/// As many entries of the audit trail are shown as are asked for, but at least
/// one and at most two hundred.
pub proof fn law_entries_are_shown_as_asked(limit: usize)
    ensures
        1 <= limit <= 200 ==> shown_audits(limit) == limit,
        limit == 0 ==> shown_audits(limit) == 1,
        limit > 200 ==> shown_audits(limit) == 200,
{
}

/// A name is one to 64 of the characters `A` to `Z`, `a` to `z`, `0` to `9`,
/// `_`, `-` and `.`.
pub proof fn law_which_names_are_taken(name: Seq<char>)
    ensures
        name_fault(name) is None <==> 1 <= name.len() <= 64 && forall|i: int|
            0 <= i < name.len() ==> 'A' <= #[trigger] name[i] <= 'Z' || 'a' <= name[i] <= 'z'
                || '0' <= name[i] <= '9' || name[i] == '_' || name[i] == '-' || name[i] == '.',
        name_fault(name) is Some ==> name_fault(name)->0.code == ErrorCode::InvalidArgument,
{
    if forall|i: int|
        0 <= i < name.len() ==> 'A' <= #[trigger] name[i] <= 'Z' || 'a' <= name[i] <= 'z' || '0'
            <= name[i] <= '9' || name[i] == '_' || name[i] == '-' || name[i] == '.' {
        assert(is_ascii_chars(name));
        is_ascii_chars_encode_utf8(name);
    }
}

/// A new pipeline is written whatever tag is named. One that exists is written
/// by who names `rev-N`, bare or quoted, where `N` is how many revisions it has,
/// and by no one else.
pub proof fn law_the_latest_tag_is_asked_for(
    c: Catalog,
    name: Seq<char>,
    expected: Option<Seq<char>>,
    n: nat,
)
    requires
        name_fault(name) is None,
    ensures
        !c.pipelines.dom().contains(name) ==> put_fault(c, name, expected) is None,
        c.pipelines.dom().contains(name) ==> {
            &&& put_fault(c, name, None) is Some
            &&& put_fault(c, name, Some("rev-"@ + decimal(n))) is None <==> n
                == c.pipelines[name].len()
            &&& put_fault(c, name, Some("\""@ + ("rev-"@ + decimal(n)) + "\""@)) is None <==> n
                == c.pipelines[name].len()
        },
{
    reveal_strlit("rev-");
    reveal_strlit("\"");
    let m = c.pipelines[name].len();
    law_decimal_is_read_back(n, n + m);
    law_decimal_is_read_back(m, n + m);
    let a = "rev-"@ + decimal(n);
    let b = "rev-"@ + decimal(m);
    let p = "\""@ + a + "\""@;
    let q = "\""@ + b + "\""@;
    assert(a.skip(4) =~= decimal(n));
    assert(b.skip(4) =~= decimal(m));
    assert(p.subrange(1, p.len() - 1) =~= a);
    assert(q.subrange(1, q.len() - 1) =~= b);
    assert(a[0] == 'r' && b[0] == 'r' && p[0] == '"' && q[0] == '"');
}

/// A pipeline that is written has one more revision, the one that was given. A
/// new one is wanted to be stopped and is: it never ran and never failed.
pub proof fn law_a_revision_is_added(c: Catalog, name: Seq<char>, spec: PipelineSpec)
    ensures
        ({
            let after = with_pipeline(c, name, spec);
            let had = if c.pipelines.dom().contains(name) {
                c.pipelines[name].len()
            } else {
                0
            };
            &&& after.pipelines.dom() == c.pipelines.dom().insert(name)
            &&& after.pipelines[name].len() == had + 1
            &&& after.pipelines[name].last() == spec
            &&& !c.wanted.dom().contains(name) ==> after.wanted[name] == (Wanted {
                revision: None,
                status: PipelineStatus::Stopped,
            })
            &&& !c.doing.dom().contains(name) ==> {
                &&& after.doing[name].status == PipelineStatus::Stopped
                &&& after.doing[name].failures == 0
                &&& !after.doing[name].blocked
                &&& after.doing[name].attempt_id == 0
                &&& after.doing[name].error is None
                &&& after.doing[name].revision is None
            }
        }),
{
}

/// A revision is one that was written: they count from one.
pub proof fn law_revisions_count_from_one(c: Catalog, name: Seq<char>, revision: int)
    ensures
        Store::revision_fault(c, name, revision) is None <==> c.pipelines.dom().contains(name) && 1
            <= revision <= c.pipelines[name].len(),
{
}

/// Only running and stopped can be wanted, and only of a pipeline that exists.
pub proof fn law_what_can_be_wanted(c: Catalog, name: Seq<char>, status: PipelineStatus)
    ensures
        Store::wish_fault(c, name, status.name()) is None <==> c.pipelines.dom().contains(name) && (
        status == PipelineStatus::Running || status == PipelineStatus::Stopped),
{
    super::status::law_status_name_is_read_back(status);
}

/// A secret is refused above 4 KiB.
pub proof fn law_secrets_are_bounded(name: Seq<char>, value: Seq<char>)
    requires
        name_fault(name) is None,
    ensures
        Store::secret_fault(name, value) is None <==> encode_utf8(value).len() <= 4096,
{
}

/// What is said where a pipeline cannot be written or is not there, so that the
/// caller can do better: the tag that is asked for, or the one that would do.
pub proof fn law_what_is_said_of_a_refused_write(
    c: Catalog,
    name: Seq<char>,
    want: Seq<char>,
    revision: int,
    s: Store,
    n: &str,
    r: Result<super::store::PipelineRow, SparrowError>,
)
    requires
        name_fault(name) is None,
        c.pipelines.dom().contains(name),
        call_ensures(Store::get_pipeline, (&s, n), r),
    ensures
        put_fault(c, name, None) == Some(
            Fault {
                code: ErrorCode::InvalidArgument,
                text: "If-Match is required to update an existing pipeline"@,
                context: Some(("hint"@, "If-Match: rev-N"@)),
            },
        ),
        put_fault(c, name, Some(want)) is Some ==> put_fault(c, name, Some(want))->0 == (Fault {
            code: ErrorCode::InvalidArgument,
            text: "If-Match `"@ + want + "` does not match current `"@ + ("rev-"@ + decimal(
                c.pipelines[name].len(),
            )) + "`"@,
            context: Some(("etag"@, "rev-"@ + decimal(c.pipelines[name].len()))),
        }),
        r is Err ==> r->Err_0.code == ErrorCode::InvalidArgument && r->Err_0.message@
            == "unknown pipeline `"@ + n@ + "`"@,
        Store::revision_fault(c, name, revision) is Some && revision >= 0 ==> Store::revision_fault(
            c,
            name,
            revision,
        )->0.text == "pipeline `"@ + name + "` has no revision "@ + decimal(revision as nat),
{
}

} // verus!
