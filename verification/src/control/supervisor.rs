//! How running jobs follow what is wanted: what to start and stop, when to try
//! again, and what the catalog is told.

use super::spec::PipelineSpec;
use super::status::PipelineStatus;
use super::store::{
    after_restart, injected, newest, reported_activity, seen_str, unknown_pipeline, with_audit,
    wrote, Activity, ActualState, Attempted, Catalog, DesiredState, Store, Wanted, ATTEMPT_CAP,
};
use crate::capabilities::RecoveryPolicy;
use crate::error::io;
use crate::model::{fault, outcome, ErrorCode, Fault, SparrowError};
use crate::table::Table;
use crate::text::{begins, cat2, cat3, cat4, cat5, dec, decimal, read_number, same, starts_with};
use vstd::prelude::*;
use vstd::string::*;

verus! {

/// Failures in a row after which a pipeline is held.
pub const MAX_PIPELINE_ATTEMPTS: u64 = 16;

/// Jobs that a host admits where nothing else is said.
pub const DEFAULT_MAX_JOBS: u64 = 16;

/// The most jobs that a host can be told to admit.
pub const MAX_JOBS: u64 = 256;

/// Powers of two up to the sixth.
pub open spec fn doubling(n: u64) -> u64 {
    if n == 0 {
        1
    } else if n == 1 {
        2
    } else if n == 2 {
        4
    } else if n == 3 {
        8
    } else if n == 4 {
        16
    } else if n == 5 {
        32
    } else {
        64
    }
}

fn doubled(n: u64) -> (r: u64)
    ensures
        r == doubling(n),
        r <= 64,
{
    if n == 0 {
        1
    } else if n == 1 {
        2
    } else if n == 2 {
        4
    } else if n == 3 {
        8
    } else if n == 4 {
        16
    } else if n == 5 {
        32
    } else {
        64
    }
}

/// The pause before a failed pipeline is tried again, in milliseconds: it
/// doubles with every failure, up to 2.56 s.
pub fn retry_backoff(consecutive_failures: u64) -> (r: u64)
    ensures
        r == 40 * doubling(consecutive_failures),
        40 <= r <= 2560,
{
    40 * doubled(consecutive_failures)
}

/// The pause before a pipeline that found no room is tried again: it doubles
/// from half a second up to five.
pub open spec fn capacity_pause(waits: u64) -> u64 {
    if waits >= 4 {
        5000
    } else {
        (500 * doubling(waits)) as u64
    }
}

/// The pause before a pipeline that found no room is tried again.
pub fn capacity_backoff(waits: u64) -> (r: u64)
    ensures
        r == capacity_pause(waits),
        500 <= r <= 5000,
{
    if waits >= 4 {
        5000
    } else {
        500 * doubled(waits)
    }
}

/// Pauses never shrink as failures add up.
pub proof fn law_pauses_never_shrink(a: u64, b: u64)
    requires
        a <= b,
    ensures
        40 * doubling(a) <= 40 * doubling(b) <= 2560,
        capacity_pause(a) <= capacity_pause(b) <= 5000,
{
}

/// The fault of a number of jobs that a host cannot be told to admit.
pub open spec fn max_jobs_fault(text: Seq<char>) -> Fault {
    fault(ErrorCode::InvalidArgument, "max jobs `"@ + text + "` is outside 1..=256"@)
}

/// The number of jobs that a text stands for.
pub open spec fn max_jobs(text: Seq<char>) -> Result<u64, Fault> {
    match crate::text::number(text, u64::MAX as nat) {
        Ok(n) => if 1 <= n <= MAX_JOBS {
            Ok(n as u64)
        } else {
            Err(max_jobs_fault(text))
        },
        Err(_) => Err(max_jobs_fault(text)),
    }
}

/// Reads the number of jobs that a host admits.
pub fn parse_max_jobs(text: &str) -> (r: Result<u64, SparrowError>)
    ensures
        outcome(r) == max_jobs(text@),
{
    match read_number(text, u64::MAX) {
        Ok(n) => {
            if 1 <= n && n <= MAX_JOBS {
                return Ok(n);
            }
        },
        Err(_) => {},
    }
    Err(
        SparrowError::new(
            ErrorCode::InvalidArgument,
            cat3("max jobs `", text, "` is outside 1..=256"),
        ),
    )
}

/// A write: what the catalog holds then, and why it was cut off.
pub open spec fn written(c: Catalog, next: Catalog) -> (Catalog, Option<Fault>) {
    if c.fail_next {
        (Catalog { fail_next: false, ..c }, Some(injected()))
    } else {
        (next, None)
    }
}

/// Whether an outcome is that of a write.
pub open spec fn told<T>(r: Result<T, SparrowError>, f: Option<Fault>) -> bool {
    match f {
        Some(x) => r is Err && r->Err_0@ == x,
        None => r is Ok,
    }
}

/// The number of the next attempt of a pipeline.
pub open spec fn next_attempt(c: Catalog, name: Seq<char>) -> u64 {
    if c.doing.dom().contains(name) {
        if c.doing[name].attempt_id < u64::MAX {
            (c.doing[name].attempt_id + 1) as u64
        } else {
            u64::MAX
        }
    } else {
        1
    }
}

fn attempt_number(store: &Store, name: &str) -> (r: u64)
    requires
        store.wf(),
    ensures
        r == next_attempt(store@, name@),
{
    match store.actual(name) {
        Ok(a) => a.attempt_id.saturating_add(1),
        Err(_) => 1,
    }
}

/// The catalog after a pipeline's activity was reported.
pub open spec fn with_activity(
    c: Catalog,
    name: Seq<char>,
    status: PipelineStatus,
    revision: Option<u64>,
    attempt: u64,
    error: Option<Seq<char>>,
) -> Catalog {
    Catalog {
        doing: c.doing.insert(
            name,
            reported_activity(c, name, status, revision, attempt, error),
        ),
        ..c
    }
}

/// The catalog after an attempt was recorded.
pub open spec fn with_attempt(
    c: Catalog,
    name: Seq<char>,
    revision: u64,
    outcome: Seq<char>,
    detail: Option<Seq<char>>,
) -> Catalog {
    Catalog {
        attempts: newest(
            c.attempts.push(
                Attempted {
                    id: (c.attempts_made + 1) as i64,
                    pipeline: name,
                    revision,
                    outcome,
                    detail,
                },
            ),
            ATTEMPT_CAP as int,
        ),
        attempts_made: c.attempts_made + 1,
        ..c
    }
}

/// The catalog after an activity was reported and then an attempt recorded; the
/// second only where the first was written.
pub open spec fn noted(
    c: Catalog,
    name: Seq<char>,
    status: PipelineStatus,
    revision: u64,
    attempt: u64,
    error: Option<Seq<char>>,
    detail: Option<Seq<char>>,
) -> (Catalog, Option<Fault>) {
    let first = written(c, with_activity(c, name, status, Some(revision), attempt, error));
    if first.1 is Some {
        first
    } else {
        written(first.0, with_attempt(first.0, name, revision, status.name(), detail))
    }
}

/// Reports an activity and records it as an attempt.
fn note(
    store: &mut Store,
    name: &str,
    status: PipelineStatus,
    revision: u64,
    attempt: u64,
    error: Option<&str>,
    detail: Option<&str>,
) -> (r: Result<(), SparrowError>)
    requires
        old(store).wf(),
        old(store).attempts_made < i64::MAX,
    ensures
        final(store).wf(),
        final(store)@ == noted(
            old(store)@,
            name@,
            status,
            revision,
            attempt,
            seen_str(error),
            seen_str(detail),
        ).0,
        told(
            r,
            noted(
                old(store)@,
                name@,
                status,
                revision,
                attempt,
                seen_str(error),
                seen_str(detail),
            ).1,
        ),
{
    proof {
        super::status::law_status_name_is_read_back(status);
    }
    match store.set_actual(name, status.as_str(), Some(revision), attempt, error) {
        Ok(()) => {},
        Err(e) => {
            return Err(e);
        },
    }
    match store.insert_attempt(name, revision, status.as_str(), detail) {
        Ok(_) => Ok(()),
        Err(e) => Err(e),
    }
}

/// What is done about one pipeline.
#[derive(Clone, Copy, Debug, PartialEq, Eq, Structural)]
pub enum Decision {
    /// Nothing.
    Leave,
    /// The revision is started, in place of a job that runs another one.
    Start(u64),
    /// The job is stopped.
    Stop,
    /// No job runs; the pipeline is only shown as stopped.
    ShowStopped,
}

/// What the supervisor knows: which revision runs, when a pipeline may be tried
/// again, and how often it found no room.
#[derive(Debug)]
pub struct Supervisor {
    pub running: Table<u64>,
    pub next_retry_at: Table<u64>,
    pub waits: Table<u64>,
    pub safe_mode: bool,
}

/// The supervisor's state by what it holds.
#[verifier::ext_equal]
pub ghost struct Watch {
    pub running: Map<Seq<char>, u64>,
    pub retry: Map<Seq<char>, u64>,
    pub waits: Map<Seq<char>, u64>,
    pub safe_mode: bool,
}

impl View for Supervisor {
    type V = Watch;

    open spec fn view(&self) -> Watch {
        Watch {
            running: self.running@,
            retry: self.next_retry_at@,
            waits: self.waits@,
            safe_mode: self.safe_mode,
        }
    }
}

/// The error of a pipeline that failed too often.
pub open spec fn cap_text(failures: u64) -> Seq<char> {
    "held: consecutive_failures "@ + decimal(failures as nat) + " reached cap "@ + decimal(
        MAX_PIPELINE_ATTEMPTS as nat,
    )
}

/// The error of a pipeline that safe mode holds: it keeps the error of the
/// failure.
pub open spec fn safe_text(error: Option<Seq<char>>) -> Seq<char> {
    match error {
        Some(e) => if begins(e, "held: safe-mode"@) {
            e
        } else {
            "held: safe-mode and last attempt failed: "@ + e
        },
        None => "held: safe-mode and last attempt failed"@,
    }
}

/// The error that a held pipeline shows, where it is held: after too many
/// failures, or in safe mode after one.
pub open spec fn held_text(c: Catalog, name: Seq<char>, safe_mode: bool) -> Option<Seq<char>> {
    if !c.doing.dom().contains(name) {
        None
    } else {
        let a = c.doing[name];
        if a.failures >= MAX_PIPELINE_ATTEMPTS {
            Some(cap_text(a.failures))
        } else if safe_mode && a.blocked {
            Some(safe_text(a.error))
        } else {
            None
        }
    }
}

/// The catalog with the error of a pipeline changed.
pub open spec fn with_error(c: Catalog, name: Seq<char>, error: Seq<char>) -> Catalog {
    Catalog {
        doing: c.doing.insert(name, Activity { error: Some(error), ..c.doing[name] }),
        ..c
    }
}

/// The catalog after a pipeline was looked at: a held one says why.
pub open spec fn held_catalog(c: Catalog, name: Seq<char>, safe_mode: bool) -> (
    Catalog,
    Option<Fault>,
) {
    match held_text(c, name, safe_mode) {
        None => (c, None),
        Some(t) => if c.doing[name].error == Some(t) {
            (c, None)
        } else {
            written(c, with_error(c, name, t))
        },
    }
}

/// When a failed pipeline is due, taking note of the moment where none was set.
pub open spec fn due_at(w: Watch, name: Seq<char>, pause: u64, now: u64) -> u64 {
    if w.retry.dom().contains(name) {
        w.retry[name]
    } else {
        later(now, pause)
    }
}

/// A moment that does not pass the end of the clock.
pub open spec fn later(now: u64, pause: u64) -> u64 {
    if now + pause > u64::MAX {
        u64::MAX
    } else {
        (now + pause) as u64
    }
}

/// The pause that a pipeline has to keep, where it has to: one that failed or
/// found no room.
pub open spec fn pause_of(w: Watch, c: Catalog, name: Seq<char>) -> Option<u64> {
    if !c.doing.dom().contains(name) {
        None
    } else {
        let a = c.doing[name];
        if a.status == PipelineStatus::Failed && a.failures > 0 {
            Some((40 * doubling(a.failures)) as u64)
        } else if a.status == PipelineStatus::Waiting {
            Some(
                capacity_pause(
                    if w.waits.dom().contains(name) {
                        w.waits[name]
                    } else {
                        0
                    },
                ),
            )
        } else {
            None
        }
    }
}

/// The revision that is wanted; the first where none is named.
pub open spec fn wanted_revision(d: Wanted) -> u64 {
    match d.revision {
        Some(r) => r,
        None => 1,
    }
}

/// What is done about a pipeline that is not held, and what the supervisor
/// knows then.
pub open spec fn decided(w: Watch, c: Catalog, name: Seq<char>, d: Wanted, now: u64) -> (
    Decision,
    Watch,
) {
    if d.status == PipelineStatus::Running {
        let known = c.doing.dom().contains(name);
        if known && c.doing[name].status == PipelineStatus::Completed && c.doing[name].revision
            == d.revision {
            (Decision::Leave, w)
        } else {
            let rev = wanted_revision(d);
            let go = if w.running.dom().contains(name) && w.running[name] == rev {
                Decision::Leave
            } else {
                Decision::Start(rev)
            };
            match pause_of(w, c, name) {
                Some(p) => {
                    let due = due_at(w, name, p, now);
                    let kept = Watch { retry: w.retry.insert(name, due), ..w };
                    if now >= due {
                        (go, kept)
                    } else {
                        (Decision::Leave, kept)
                    }
                },
                None => (
                    go,
                    if known {
                        Watch { retry: w.retry.remove(name), ..w }
                    } else {
                        w
                    },
                ),
            }
        }
    } else if w.running.dom().contains(name) {
        (Decision::Stop, w)
    } else if c.doing.dom().contains(name) && c.doing[name].status == PipelineStatus::Waiting {
        (Decision::ShowStopped, w)
    } else {
        (Decision::Leave, w)
    }
}

impl Supervisor {
    /// The tables are in order.
    pub open spec fn wf(&self) -> bool {
        &&& self.running.wf()
        &&& self.next_retry_at.wf()
        &&& self.waits.wf()
    }

    /// A supervisor of a process that was just started: no job runs.
    pub fn new(store: &mut Store, safe_mode: bool) -> (r: Result<Self, SparrowError>)
        requires
            old(store).wf(),
        ensures
            final(store).wf(),
            wrote(
                old(store)@,
                Catalog {
                    doing: old(store)@.doing.map_values(|a: Activity| after_restart(a)),
                    ..old(store)@
                },
                r,
                final(store)@,
            ),
            r matches Ok(s) ==> s.wf() && s@ == (Watch {
                running: Map::empty(),
                retry: Map::empty(),
                waits: Map::empty(),
                safe_mode,
            }),
    {
        match store.reset_actual_after_process_restart() {
            Ok(()) => {},
            Err(e) => {
                return Err(e);
            },
        }
        Ok(
            Supervisor {
                running: Table::new(),
                next_retry_at: Table::new(),
                waits: Table::new(),
                safe_mode,
            },
        )
    }

    /// Whether a pipeline is held. A held pipeline shows why.
    pub fn should_hold_failed(&self, store: &mut Store, name: &str) -> (r: Result<
        bool,
        SparrowError,
    >)
        requires
            old(store).wf(),
        ensures
            final(store).wf(),
            final(store)@ == held_catalog(old(store)@, name@, self.safe_mode).0,
            match held_catalog(old(store)@, name@, self.safe_mode).1 {
                Some(f) => r is Err && r->Err_0@ == f,
                None => r == Ok::<bool, SparrowError>(
                    held_text(old(store)@, name@, self.safe_mode) is Some,
                ),
            },
    {
        let a: ActualState = match store.actual(name) {
            Ok(a) => a,
            Err(_) => {
                return Ok(false);
            },
        };
        let text: String = if a.consecutive_failures >= MAX_PIPELINE_ATTEMPTS {
            cat4(
                "held: consecutive_failures ",
                dec(a.consecutive_failures).as_str(),
                " reached cap ",
                dec(MAX_PIPELINE_ATTEMPTS).as_str(),
            )
        } else if self.safe_mode && a.restart_blocked {
            match &a.last_error {
                Some(e) => if starts_with(e.as_str(), "held: safe-mode") {
                    e.clone()
                } else {
                    cat2("held: safe-mode and last attempt failed: ", e.as_str())
                },
                None => "held: safe-mode and last attempt failed".to_owned(),
            }
        } else {
            return Ok(false);
        };
        let shown: bool = match &a.last_error {
            Some(e) => same(e.as_str(), text.as_str()),
            None => false,
        };
        if !shown {
            match store.set_last_error(name, Some(text.as_str())) {
                Ok(()) => {},
                Err(e) => {
                    return Err(e);
                },
            }
        }
        Ok(true)
    }

    /// Decides what is done about a pipeline. Nothing here waits: one that has
    /// to pause is left for a later round, whatever the others do.
    pub fn decide(&mut self, store: &mut Store, d: &DesiredState, now: u64) -> (r: Result<
        Decision,
        SparrowError,
    >)
        requires
            old(self).wf(),
            old(store).wf(),
        ensures
            final(self).wf(),
            final(store).wf(),
            ({
                let w = Wanted { revision: d.revision, status: d.status };
                if d.status == PipelineStatus::Running {
                    let h = held_catalog(old(store)@, d.name@, old(self)@.safe_mode);
                    &&& final(store)@ == h.0
                    &&& match h.1 {
                        Some(f) => r is Err && r->Err_0@ == f && final(self)@ == old(self)@,
                        None => if held_text(
                            old(store)@,
                            d.name@,
                            old(self)@.safe_mode,
                        ) is Some {
                            r == Ok::<Decision, SparrowError>(Decision::Leave) && final(self)@
                                == old(self)@
                        } else {
                            r == Ok::<Decision, SparrowError>(
                                decided(old(self)@, old(store)@, d.name@, w, now).0,
                            ) && final(self)@ == decided(
                                old(self)@,
                                old(store)@,
                                d.name@,
                                w,
                                now,
                            ).1
                        },
                    }
                } else {
                    &&& final(store)@ == old(store)@
                    &&& r == Ok::<Decision, SparrowError>(
                        decided(old(self)@, old(store)@, d.name@, w, now).0,
                    )
                    &&& final(self)@ == old(self)@
                }
            }),
    {
        let name: &str = d.name.as_str();
        if d.status != PipelineStatus::Running {
            if self.running.get(name).is_some() {
                return Ok(Decision::Stop);
            }
            return match store.actual(name) {
                Ok(a) => if a.status == PipelineStatus::Waiting {
                    Ok(Decision::ShowStopped)
                } else {
                    Ok(Decision::Leave)
                },
                Err(_) => Ok(Decision::Leave),
            };
        }
        match self.should_hold_failed(store, name) {
            Ok(true) => {
                return Ok(Decision::Leave);
            },
            Ok(false) => {},
            Err(e) => {
                return Err(e);
            },
        }
        let rev: u64 = match d.revision {
            Some(r) => r,
            None => 1,
        };
        let runs: bool = match self.running.get(name) {
            Some(r) => *r == rev,
            None => false,
        };
        let go: Decision = if runs {
            Decision::Leave
        } else {
            Decision::Start(rev)
        };
        let a: ActualState = match store.actual(name) {
            Ok(a) => a,
            Err(_) => {
                return Ok(go);
            },
        };
        if a.status == PipelineStatus::Completed && a.revision == d.revision {
            return Ok(Decision::Leave);
        }
        let pause: Option<u64> = if a.status == PipelineStatus::Failed && a.consecutive_failures
            > 0 {
            Some(retry_backoff(a.consecutive_failures))
        } else if a.status == PipelineStatus::Waiting {
            let waits: u64 = match self.waits.get(name) {
                Some(n) => *n,
                None => 0,
            };
            Some(capacity_backoff(waits))
        } else {
            None
        };
        match pause {
            Some(p) => {
                let due: u64 = match self.next_retry_at.get(name) {
                    Some(t) => *t,
                    None => now.saturating_add(p),
                };
                self.next_retry_at.put(name.to_owned(), due);
                if now >= due {
                    Ok(go)
                } else {
                    Ok(Decision::Leave)
                }
            },
            None => {
                let _ = self.next_retry_at.take(name);
                Ok(go)
            },
        }
    }

    /// Takes note that a revision is about to be started.
    pub fn begin_start(&self, store: &mut Store, name: &str, revision: u64, note_: &str) -> (r:
        Result<(), SparrowError>)
        requires
            old(store).wf(),
            old(store).attempts_made < i64::MAX,
        ensures
            final(store).wf(),
            final(store)@ == noted(
                old(store)@,
                name@,
                PipelineStatus::Starting,
                revision,
                next_attempt(old(store)@, name@),
                None,
                Some(note_@),
            ).0,
            told(
                r,
                noted(
                    old(store)@,
                    name@,
                    PipelineStatus::Starting,
                    revision,
                    next_attempt(old(store)@, name@),
                    None,
                    Some(note_@),
                ).1,
            ),
    {
        let attempt: u64 = attempt_number(store, name);
        note(store, name, PipelineStatus::Starting, revision, attempt, None, Some(note_))
    }

    /// Takes note that a revision runs. The attempt stays the one that it was
    /// started as.
    pub fn on_started(&mut self, store: &mut Store, name: &str, revision: u64, note_: &str) -> (r:
        Result<(), SparrowError>)
        requires
            old(self).wf(),
            old(store).wf(),
            old(store).attempts_made < i64::MAX,
        ensures
            final(self).wf(),
            final(store).wf(),
            final(self)@ == (Watch {
                running: old(self)@.running.insert(name@, revision),
                retry: old(self)@.retry.remove(name@),
                waits: old(self)@.waits.remove(name@),
                ..old(self)@
            }),
            ({
                let attempt = if old(store)@.doing.dom().contains(name@) {
                    old(store)@.doing[name@].attempt_id
                } else {
                    1
                };
                let n = noted(
                    old(store)@,
                    name@,
                    PipelineStatus::Running,
                    revision,
                    attempt,
                    None,
                    Some(note_@),
                );
                final(store)@ == n.0 && told(r, n.1)
            }),
    {
        self.running.put(name.to_owned(), revision);
        let _ = self.next_retry_at.take(name);
        let _ = self.waits.take(name);
        let attempt: u64 = match store.actual(name) {
            Ok(a) => a.attempt_id,
            Err(_) => 1,
        };
        note(store, name, PipelineStatus::Running, revision, attempt, None, Some(note_))
    }

    /// The failures that a pause is made for: at least one.
    pub open spec fn counted_failures(c: Catalog, name: Seq<char>) -> u64 {
        if c.doing.dom().contains(name) && c.doing[name].failures >= 1 {
            c.doing[name].failures
        } else {
            1
        }
    }

    /// Sets when a failed pipeline may be tried again.
    fn schedule_retry(&mut self, store: &Store, name: &str, now: u64)
        requires
            old(self).wf(),
            store.wf(),
        ensures
            final(self).wf(),
            final(self)@ == (Watch {
                retry: old(self)@.retry.insert(
                    name@,
                    later(
                        now,
                        (40 * doubling(Self::counted_failures(store@, name@))) as u64,
                    ),
                ),
                ..old(self)@
            }),
    {
        let failures: u64 = match store.actual(name) {
            Ok(a) => if a.consecutive_failures >= 1 {
                a.consecutive_failures
            } else {
                1
            },
            Err(_) => 1,
        };
        let due: u64 = now.saturating_add(retry_backoff(failures));
        self.next_retry_at.put(name.to_owned(), due);
    }

    /// The state in which a pipeline is tried again once its pause is over.
    pub open spec fn retrying(w: Watch, c: Catalog, name: Seq<char>, now: u64) -> Watch {
        Watch {
            retry: w.retry.insert(
                name,
                later(now, (40 * doubling(Self::counted_failures(c, name))) as u64),
            ),
            ..w
        }
    }

    /// Takes note that a start failed: the pipeline is shown as failed and tried
    /// again after a pause. A job of it that runs already, at another revision,
    /// runs on.
    pub fn on_start_failed(
        &mut self,
        store: &mut Store,
        name: &str,
        revision: u64,
        message: &str,
        now: u64,
    )
        requires
            old(self).wf(),
            old(store).wf(),
            old(store).attempts_made < i64::MAX,
        ensures
            final(self).wf(),
            final(store).wf(),
            final(store)@ == noted(
                old(store)@,
                name@,
                PipelineStatus::Failed,
                revision,
                next_attempt(old(store)@, name@),
                Some(message@),
                Some(message@),
            ).0,
            final(self)@ == Self::retrying(old(self)@, final(store)@, name@, now),
    {
        let attempt: u64 = attempt_number(store, name);
        let _ = note(
            store,
            name,
            PipelineStatus::Failed,
            revision,
            attempt,
            Some(message),
            Some(message),
        );
        self.schedule_retry(store, name, now);
    }

    /// Takes note that a job ended with an error: it runs no more, the pipeline
    /// is shown as failed and tried again after a pause.
    pub fn on_failed(
        &mut self,
        store: &mut Store,
        name: &str,
        revision: u64,
        message: &str,
        now: u64,
    )
        requires
            old(self).wf(),
            old(store).wf(),
            old(store).attempts_made < i64::MAX,
        ensures
            final(self).wf(),
            final(store).wf(),
            final(store)@ == noted(
                old(store)@,
                name@,
                PipelineStatus::Failed,
                revision,
                next_attempt(old(store)@, name@),
                Some(message@),
                Some(message@),
            ).0,
            final(self)@ == Self::retrying(
                Watch { running: old(self)@.running.remove(name@), ..old(self)@ },
                final(store)@,
                name@,
                now,
            ),
    {
        let _ = self.running.take(name);
        self.on_start_failed(store, name, revision, message, now);
    }

    /// Takes note that there was no room for a job: the pipeline waits, which
    /// counts as no failure.
    pub fn on_no_room(
        &mut self,
        store: &mut Store,
        name: &str,
        revision: u64,
        admitted: u64,
        limit: u64,
        now: u64,
    )
        requires
            old(self).wf(),
            old(store).wf(),
            old(store).attempts_made < i64::MAX,
        ensures
            final(self).wf(),
            final(store).wf(),
            ({
                let text = "capacity: "@ + decimal(admitted as nat) + "/"@ + decimal(limit as nat)
                    + " jobs admitted"@;
                let waits = if old(self)@.waits.dom().contains(name@) {
                    old(self)@.waits[name@]
                } else {
                    0
                };
                &&& final(store)@ == noted(
                    old(store)@,
                    name@,
                    PipelineStatus::Waiting,
                    revision,
                    next_attempt(old(store)@, name@),
                    Some(text),
                    Some(text),
                ).0
                &&& final(self)@ == (Watch {
                    retry: old(self)@.retry.insert(name@, later(now, capacity_pause(waits))),
                    waits: old(self)@.waits.insert(
                        name@,
                        if waits < u64::MAX {
                            (waits + 1) as u64
                        } else {
                            waits
                        },
                    ),
                    ..old(self)@
                })
            }),
    {
        let text: String = cat5(
            "capacity: ",
            dec(admitted).as_str(),
            "/",
            dec(limit).as_str(),
            " jobs admitted",
        );
        let attempt: u64 = attempt_number(store, name);
        let _ = note(
            store,
            name,
            PipelineStatus::Waiting,
            revision,
            attempt,
            Some(text.as_str()),
            Some(text.as_str()),
        );
        let waits: u64 = match self.waits.get(name) {
            Some(n) => *n,
            None => 0,
        };
        let due: u64 = now.saturating_add(capacity_backoff(waits));
        self.next_retry_at.put(name.to_owned(), due);
        self.waits.put(name.to_owned(), waits.saturating_add(1));
    }

    /// Takes note that a job ended by itself.
    pub fn on_completed(&mut self, store: &mut Store, name: &str, revision: u64)
        requires
            old(self).wf(),
            old(store).wf(),
            old(store).attempts_made < i64::MAX,
        ensures
            final(self).wf(),
            final(store).wf(),
            final(store)@ == noted(
                old(store)@,
                name@,
                PipelineStatus::Completed,
                revision,
                next_attempt(old(store)@, name@),
                None,
                None,
            ).0,
            final(self)@ == (Watch {
                running: old(self)@.running.remove(name@),
                ..old(self)@
            }),
    {
        let _ = self.running.take(name);
        let attempt: u64 = attempt_number(store, name);
        let _ = note(store, name, PipelineStatus::Completed, revision, attempt, None, None);
    }

    /// Takes note that a job was stopped, for the error that is given.
    pub fn on_stopped(
        &mut self,
        store: &mut Store,
        name: &str,
        revision: Option<u64>,
        error: Option<&str>,
    )
        requires
            old(self).wf(),
            old(store).wf(),
        ensures
            final(self).wf(),
            final(store).wf(),
            final(store)@ == written(
                old(store)@,
                with_activity(
                    old(store)@,
                    name@,
                    PipelineStatus::Stopped,
                    revision,
                    next_attempt(old(store)@, name@),
                    seen_str(error),
                ),
            ).0,
            final(self)@ == (Watch {
                running: old(self)@.running.remove(name@),
                waits: old(self)@.waits.remove(name@),
                ..old(self)@
            }),
    {
        let _ = self.running.take(name);
        let _ = self.waits.take(name);
        let attempt: u64 = attempt_number(store, name);
        proof {
            super::status::law_status_name_is_read_back(PipelineStatus::Stopped);
        }
        let _ = store.set_actual(name, "stopped", revision, attempt, error);
    }

    /// Why a checkpoint cannot be asked for; `aligned` says whether the job that
    /// runs can be checkpointed.
    pub fn check_checkpoint(&self, name: &str, aligned: bool) -> (r: Result<(), SparrowError>)
        requires
            self.wf(),
        ensures
            match r {
                Ok(()) => self@.running.dom().contains(name@) && aligned,
                Err(e) => if !self@.running.dom().contains(name@) {
                    e@ == fault(
                        ErrorCode::InvalidArgument,
                        "pipeline `"@ + name@ + "` is not running"@,
                    )
                } else {
                    !aligned && e@ == fault(
                        ErrorCode::FeatureUnavailable,
                        "checkpoint is only available for aligned File/replay jobs"@,
                    )
                },
            },
    {
        if self.running.get(name).is_none() {
            return Err(
                SparrowError::new(
                    ErrorCode::InvalidArgument,
                    cat3("pipeline `", name, "` is not running"),
                ),
            );
        }
        if !aligned {
            return Err(
                crate::model::err(
                    ErrorCode::FeatureUnavailable,
                    "checkpoint is only available for aligned File/replay jobs",
                ),
            );
        }
        Ok(())
    }
}

/// What is noted of a start.
pub open spec fn start_note(p: RecoveryPolicy) -> Seq<char> {
    if p == RecoveryPolicy::Aligned {
        "aligned; not exactly-once"@
    } else {
        "restart_fresh"@
    }
}

/// What is noted of a start.
pub fn note_of(spec: &PipelineSpec) -> (r: Result<&'static str, SparrowError>)
    ensures
        match r {
            Ok(t) => RecoveryPolicy::named(spec.recovery@) is Ok && t@ == start_note(
                RecoveryPolicy::named(spec.recovery@)->Ok_0,
            ),
            Err(e) => RecoveryPolicy::named(spec.recovery@) == Err::<RecoveryPolicy, Fault>(e@),
        },
{
    match RecoveryPolicy::parse(spec.recovery.as_str()) {
        Ok(p) => Ok(
            if p.is_aligned() {
                "aligned; not exactly-once"
            } else {
                "restart_fresh"
            },
        ),
        Err(e) => Err(io(e)),
    }
}

/// A failed pipeline that is neither held nor wanted otherwise is started once
/// its pause is over, and not before.
pub proof fn law_a_failed_pipeline_keeps_its_pause(
    w: Watch,
    c: Catalog,
    name: Seq<char>,
    d: Wanted,
    now: u64,
)
    requires
        d.status == PipelineStatus::Running,
        c.doing.dom().contains(name),
        c.doing[name].status == PipelineStatus::Failed,
        c.doing[name].failures > 0,
        !w.running.dom().contains(name),
    ensures
        decided(w, c, name, d, now).0 == if now >= due_at(
            w,
            name,
            (40 * doubling(c.doing[name].failures)) as u64,
            now,
        ) {
            Decision::Start(wanted_revision(d))
        } else {
            Decision::Leave
        },
{
}

/// Two maps say the same of a name.
pub open spec fn agree<V>(a: Map<Seq<char>, V>, b: Map<Seq<char>, V>, name: Seq<char>) -> bool {
    a.dom().contains(name) == b.dom().contains(name) && (a.dom().contains(name) ==> a[name]
        == b[name])
}

/// What is decided about a pipeline depends only on what is known of it, and
/// changes nothing that is known of another: a pipeline that pauses holds no
/// other one up.
pub proof fn law_pipelines_do_not_hold_each_other_up(
    w: Watch,
    v: Watch,
    c: Catalog,
    e: Catalog,
    name: Seq<char>,
    other: Seq<char>,
    d: Wanted,
    now: u64,
)
    requires
        name != other,
        agree(w.running, v.running, name),
        agree(w.retry, v.retry, name),
        agree(w.waits, v.waits, name),
        agree(c.doing, e.doing, name),
    ensures
        decided(w, c, name, d, now).0 == decided(v, e, name, d, now).0,
        agree(decided(w, c, name, d, now).1.running, w.running, other),
        agree(decided(w, c, name, d, now).1.retry, w.retry, other),
        agree(decided(w, c, name, d, now).1.waits, w.waits, other),
{
}

/// The catalog after a start was asked for: the revision is wanted, earlier
/// failures are forgotten, and the request is on record.
pub open spec fn start_requested(
    c: Catalog,
    name: Seq<char>,
    actor: Seq<char>,
    revision: Option<u64>,
) -> (Catalog, Option<Fault>) {
    let known = match revision {
        Some(r) => Store::revision_fault(c, name, r as int),
        None => if c.pipelines.dom().contains(name) {
            None
        } else {
            Some(unknown_pipeline(name))
        },
    };
    if known is Some {
        (c, known)
    } else {
        let rev = match revision {
            Some(r) => r,
            None => c.pipelines[name].len() as u64,
        };
        let s1 = written(
            c,
            Catalog {
                wanted: c.wanted.insert(
                    name,
                    Wanted { revision: Some(rev), status: PipelineStatus::Running },
                ),
                ..c
            },
        );
        if s1.1 is Some {
            s1
        } else {
            let c1 = s1.0;
            let c2 = if c1.doing.dom().contains(name) {
                Catalog {
                    doing: c1.doing.insert(
                        name,
                        Activity { failures: 0, blocked: false, ..c1.doing[name] },
                    ),
                    ..c1
                }
            } else {
                c1
            };
            let attempt = if c2.doing.dom().contains(name) {
                c2.doing[name].attempt_id
            } else {
                0
            };
            let c3 = with_activity(c2, name, PipelineStatus::Stopped, None, attempt, None);
            (
                with_audit(
                    c3,
                    actor,
                    "start"@,
                    Some(name),
                    Some(
                        "desired=running; revision="@ + decimal(rev as nat)
                            + "; catalog committed before I/O"@,
                    ),
                    "accepted"@,
                ),
                None,
            )
        }
    }
}

/// Asks for a pipeline to be started at a revision; the latest where none is
/// named. The catalog is written, nothing is waited for.
pub fn request_start_at(
    store: &mut Store,
    name: &str,
    actor: &str,
    revision: Option<u64>,
) -> (r: Result<(), SparrowError>)
    requires
        old(store).wf(),
        old(store).audits_made < i64::MAX,
    ensures
        final(store).wf(),
        final(store)@ == start_requested(old(store)@, name@, actor@, revision).0,
        told(r, start_requested(old(store)@, name@, actor@, revision).1),
{
    let latest: u64 = match store.get_pipeline(name) {
        Ok(row) => row.latest_revision,
        Err(e) => {
            return Err(e);
        },
    };
    let rev: u64 = match revision {
        Some(r) => {
            match store.get_pipeline_revision(name, r) {
                Ok(_) => {},
                Err(e) => {
                    return Err(e);
                },
            }
            r
        },
        None => latest,
    };
    proof {
        super::status::law_status_name_is_read_back(PipelineStatus::Running);
        super::status::law_status_name_is_read_back(PipelineStatus::Stopped);
    }
    match store.set_desired(name, "running", Some(rev)) {
        Ok(()) => {},
        Err(e) => {
            return Err(e);
        },
    }
    match store.reset_consecutive_failures(name) {
        Ok(()) => {},
        Err(e) => {
            return Err(e);
        },
    }
    let attempt: u64 = match store.actual(name) {
        Ok(a) => a.attempt_id,
        Err(_) => 0,
    };
    match store.set_actual(name, "stopped", None, attempt, None) {
        Ok(()) => {},
        Err(e) => {
            return Err(e);
        },
    }
    let detail: String = cat3(
        "desired=running; revision=",
        dec(rev).as_str(),
        "; catalog committed before I/O",
    );
    store.audit(actor, "start", Some(name), Some(detail.as_str()), "accepted")
}

/// Asks for a pipeline to be started at its latest revision.
pub fn request_start(store: &mut Store, name: &str, actor: &str) -> (r: Result<(), SparrowError>)
    requires
        old(store).wf(),
        old(store).audits_made < i64::MAX,
    ensures
        final(store).wf(),
        final(store)@ == start_requested(old(store)@, name@, actor@, None).0,
        told(r, start_requested(old(store)@, name@, actor@, None).1),
{
    request_start_at(store, name, actor, None)
}

/// The catalog after a stop was asked for.
pub open spec fn stop_requested(c: Catalog, name: Seq<char>, actor: Seq<char>) -> (
    Catalog,
    Option<Fault>,
) {
    if !c.pipelines.dom().contains(name) {
        (c, Some(unknown_pipeline(name)))
    } else {
        let s1 = written(
            c,
            Catalog {
                wanted: c.wanted.insert(
                    name,
                    Wanted { revision: None, status: PipelineStatus::Stopped },
                ),
                ..c
            },
        );
        if s1.1 is Some {
            s1
        } else {
            (
                with_audit(
                    s1.0,
                    actor,
                    "stop"@,
                    Some(name),
                    Some("desired=stopped"@),
                    "accepted"@,
                ),
                None,
            )
        }
    }
}

/// Asks for a pipeline to be stopped.
pub fn request_stop(store: &mut Store, name: &str, actor: &str) -> (r: Result<(), SparrowError>)
    requires
        old(store).wf(),
        old(store).audits_made < i64::MAX,
    ensures
        final(store).wf(),
        final(store)@ == stop_requested(old(store)@, name@, actor@).0,
        told(r, stop_requested(old(store)@, name@, actor@).1),
{
    match store.get_pipeline(name) {
        Ok(_) => {},
        Err(e) => {
            return Err(e);
        },
    }
    proof {
        super::status::law_status_name_is_read_back(PipelineStatus::Stopped);
    }
    match store.set_desired(name, "stopped", None) {
        Ok(()) => {},
        Err(e) => {
            return Err(e);
        },
    }
    store.audit(actor, "stop", Some(name), Some("desired=stopped"), "accepted")
}

/// The catalog after attempts were recorded, one after another. Of each it is
/// the number in the catalog that counts, not the one that it comes with.
pub open spec fn with_attempts(c: Catalog, made: Seq<Attempted>) -> Catalog
    decreases made.len(),
{
    if made.len() == 0 {
        c
    } else {
        let a = made.last();
        with_attempt(
            with_attempts(c, made.drop_last()),
            a.pipeline,
            a.revision,
            a.outcome,
            a.detail,
        )
    }
}

/// Attempts do not touch what pipelines do, nor whether a write is cut off.
proof fn lemma_attempts_change_no_activity(c: Catalog, made: Seq<Attempted>)
    ensures
        with_attempts(c, made).doing == c.doing,
        with_attempts(c, made).fail_next == c.fail_next,
    decreases made.len(),
{
    if made.len() > 0 {
        lemma_attempts_change_no_activity(c, made.drop_last());
    }
}

/// In safe mode a pipeline whose failure was reported is held, and stays held
/// however many attempts, of whatever pipelines, are recorded after it: only
/// what it does counts, and not which attempts are still kept.
pub proof fn law_hold_outlives_attempts(
    c: Catalog,
    name: Seq<char>,
    revision: Option<u64>,
    attempt: u64,
    error: Option<Seq<char>>,
    made: Seq<Attempted>,
)
    requires
        !c.fail_next,
    ensures
        ({
            let after = with_attempts(
                with_activity(c, name, PipelineStatus::Failed, revision, attempt, error),
                made,
            );
            &&& held_text(after, name, true) is Some
            &&& held_catalog(after, name, true).1 is None
            &&& held_catalog(after, name, true).0.doing[name].error == held_text(after, name, true)
        }),
{
    lemma_attempts_change_no_activity(
        with_activity(c, name, PipelineStatus::Failed, revision, attempt, error),
        made,
    );
}

/// A start that was asked for clears the hold, whatever the pipeline did before,
/// in safe mode and out of it.
pub proof fn law_start_clears_the_hold(
    c: Catalog,
    name: Seq<char>,
    actor: Seq<char>,
    revision: Option<u64>,
    safe_mode: bool,
)
    requires
        start_requested(c, name, actor, revision).1 is None,
    ensures
        ({
            let after = start_requested(c, name, actor, revision).0;
            &&& held_text(after, name, safe_mode) is None
            &&& held_catalog(after, name, safe_mode) == (after, None::<Fault>)
        }),
{
}

/// A request to start releases whatever held the pipeline: it is decided about
/// at once, and started unless that revision runs.
pub proof fn law_start_releases_a_hold(
    c: Catalog,
    name: Seq<char>,
    actor: Seq<char>,
    w: Watch,
    now: u64,
)
    requires
        !c.fail_next,
        c.pipelines.dom().contains(name),
        c.doing.dom().contains(name),
        !w.running.dom().contains(name),
    ensures
        ({
            let after = start_requested(c, name, actor, None).0;
            let rev = c.pipelines[name].len() as u64;
            &&& held_text(after, name, w.safe_mode) is None
            &&& after.wanted[name] == (Wanted {
                revision: Some(rev),
                status: PipelineStatus::Running,
            })
            &&& decided(w, after, name, after.wanted[name], now).0 == Decision::Start(rev)
        }),
{
}

/// A pipeline that finds no room has not failed: however often it waits, it is
/// no nearer to being held, and it is started once its pause is over, and not
/// before.
pub proof fn law_waiting_for_room_is_no_failure(
    c: Catalog,
    w: Watch,
    name: Seq<char>,
    revision: u64,
    attempt: u64,
    text: Seq<char>,
    now: u64,
)
    requires
        !c.fail_next,
        c.doing.dom().contains(name),
        held_text(c, name, w.safe_mode) is None,
        w.retry.dom().contains(name),
        !w.running.dom().contains(name),
    ensures
        ({
            let after = noted(
                c,
                name,
                PipelineStatus::Waiting,
                revision,
                attempt,
                Some(text),
                Some(text),
            ).0;
            let wanted = Wanted { revision: Some(revision), status: PipelineStatus::Running };
            &&& after.doing[name].status == PipelineStatus::Waiting
            &&& after.doing[name].failures == c.doing[name].failures
            &&& held_text(after, name, w.safe_mode) is None
            &&& decided(w, after, name, wanted, now).0 == if now >= w.retry[name] {
                Decision::Start(revision)
            } else {
                Decision::Leave
            }
        }),
{
}

/// Whatever start of another revision failed, a job that runs is still known to
/// run: it is stopped once it is not wanted, and its own revision is not started
/// a second time.
pub proof fn law_a_failed_start_leaves_the_job(
    w: Watch,
    before: Catalog,
    c: Catalog,
    name: Seq<char>,
    wanted: Wanted,
    failed_at: u64,
    now: u64,
)
    requires
        w.running.dom().contains(name),
    ensures
        ({
            let after = Supervisor::retrying(w, before, name, failed_at);
            &&& after.running == w.running
            &&& wanted.status != PipelineStatus::Running ==> decided(
                after,
                c,
                name,
                wanted,
                now,
            ).0 == Decision::Stop
            &&& wanted.status == PipelineStatus::Running && wanted_revision(wanted)
                == w.running[name] ==> decided(after, c, name, wanted, now).0 == Decision::Leave
        }),
{
}

/// A hold survives the restart of the process, with its reason, and does not
/// depend on which attempts are still on record.
pub proof fn law_hold_survives_a_restart(
    c: Catalog,
    name: Seq<char>,
    safe_mode: bool,
    kept: Seq<Attempted>,
)
    requires
        held_text(c, name, safe_mode) is Some,
    ensures
        held_text(
            Catalog {
                doing: c.doing.map_values(|a: Activity| after_restart(a)),
                attempts: kept,
                ..c
            },
            name,
            safe_mode,
        ) == held_text(c, name, safe_mode),
{
}

} // verus!
