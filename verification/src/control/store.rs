//! The catalog: streams, pipelines with their revisions, what is wanted of each
//! pipeline and what it does, attempts, an audit trail, secrets and the
//! allowlist. A write takes effect as a whole or not at all.

use super::secrets::{
    drawn_key, drew, key_seen, random_key, seal_secret, sealing, unseal_secret, unsealed,
    SecretsKey, KEY_BYTES, NONCE_BYTES,
};
use super::spec::{copied, PipelineSpec};
use super::status::PipelineStatus;
use crate::model::{err, fault, outcome, ErrorCode, Fault, SparrowError};
use crate::table::Table;
use crate::text::{cat2, cat3, cat4, cat5, chars, dec, decimal, same};
use vstd::prelude::*;
use vstd::string::*;
use vstd::utf8::encode_utf8;

verus! {

/// The version of the catalog's tables.
pub const CATALOG_SCHEMA_VERSION: u32 = 1;

/// The version of what the tables hold.
pub const FORMAT_VERSION: u32 = 1;

/// Entries that the audit trail keeps.
pub const AUDIT_CAP: usize = 200;

/// Attempts that are kept.
pub const ATTEMPT_CAP: usize = 100;

/// The longest secret, in bytes.
pub const MAX_SECRET_BYTES: usize = 4096;

/// A stream.
#[derive(Debug)]
pub struct StreamRow {
    pub name: String,
    pub schema_json: String,
}

/// A revision of a pipeline.
#[derive(Debug)]
pub struct PipelineRow {
    pub name: String,
    pub latest_revision: u64,
    pub spec: PipelineSpec,
    pub etag: String,
}

/// What is wanted of a pipeline.
#[derive(Clone, Copy, Debug, PartialEq, Eq, Structural)]
pub struct Wanted {
    pub revision: Option<u64>,
    pub status: PipelineStatus,
}

/// What is wanted of the pipeline of that name.
#[derive(Debug)]
pub struct DesiredState {
    pub name: String,
    pub revision: Option<u64>,
    pub status: PipelineStatus,
}

/// What a pipeline does.
#[derive(Debug)]
pub struct Doing {
    pub revision: Option<u64>,
    pub status: PipelineStatus,
    pub attempt_id: u64,
    pub consecutive_failures: u64,
    pub last_error: Option<String>,
    /// The last start failed; in safe mode only an explicit start tries again.
    pub restart_blocked: bool,
}

/// What the pipeline of that name does.
#[derive(Debug)]
pub struct ActualState {
    pub name: String,
    pub revision: Option<u64>,
    pub status: PipelineStatus,
    pub attempt_id: u64,
    pub consecutive_failures: u64,
    pub last_error: Option<String>,
    pub restart_blocked: bool,
}

/// An attempt to run a pipeline.
#[derive(Debug)]
pub struct AttemptRow {
    pub id: i64,
    pub pipeline: String,
    pub revision: u64,
    pub outcome: String,
    pub detail: Option<String>,
}

/// An entry of the audit trail.
#[derive(Debug)]
pub struct AuditRow {
    pub id: i64,
    pub at_ms: i64,
    pub actor: String,
    pub action: String,
    pub target: Option<String>,
    pub detail: Option<String>,
    pub outcome: String,
}

/// The catalog.
#[derive(Debug)]
pub struct Store {
    pub streams: Table<String>,
    /// The revisions of each pipeline, the first being revision one.
    pub pipelines: Table<Vec<PipelineSpec>>,
    pub wanted: Table<Wanted>,
    pub doing: Table<Doing>,
    pub attempts: Vec<AttemptRow>,
    /// Attempts that were ever recorded.
    pub attempts_made: i64,
    pub audits: Vec<AuditRow>,
    /// Entries that were ever added to the audit trail.
    pub audits_made: i64,
    pub secrets: Table<String>,
    pub allowed: Vec<(String, u16)>,
    /// The key that secrets are sealed with, or why there is none.
    pub key: Result<SecretsKey, SparrowError>,
    /// The moment that entries are stamped with.
    pub clock_ms: i64,
    /// The next write fails as if the process had died before it was complete.
    pub fail_next_commit: bool,
}

/// An optional text by what it holds.
pub open spec fn seen_text(o: Option<String>) -> Option<Seq<char>> {
    match o {
        Some(s) => Some(s@),
        None => None,
    }
}

/// What a pipeline does, by what it holds.
pub ghost struct Activity {
    pub revision: Option<u64>,
    pub status: PipelineStatus,
    pub attempt_id: u64,
    pub failures: u64,
    pub error: Option<Seq<char>>,
    pub blocked: bool,
}

/// An attempt, by what it holds.
pub ghost struct Attempted {
    pub id: i64,
    pub pipeline: Seq<char>,
    pub revision: u64,
    pub outcome: Seq<char>,
    pub detail: Option<Seq<char>>,
}

/// An entry of the audit trail, by what it holds.
pub ghost struct Audited {
    pub id: i64,
    pub at_ms: i64,
    pub actor: Seq<char>,
    pub action: Seq<char>,
    pub target: Option<Seq<char>>,
    pub detail: Option<Seq<char>>,
    pub outcome: Seq<char>,
}

/// What the catalog holds.
#[verifier::ext_equal]
pub ghost struct Catalog {
    pub streams: Map<Seq<char>, Seq<char>>,
    pub pipelines: Map<Seq<char>, Seq<PipelineSpec>>,
    pub wanted: Map<Seq<char>, Wanted>,
    pub doing: Map<Seq<char>, Activity>,
    pub attempts: Seq<Attempted>,
    pub attempts_made: int,
    pub audits: Seq<Audited>,
    pub audits_made: int,
    pub secrets: Map<Seq<char>, Seq<char>>,
    pub allowed: Seq<(Seq<char>, u16)>,
    pub key: Result<Seq<u8>, Fault>,
    pub clock_ms: i64,
    pub fail_next: bool,
}

/// What a pipeline does, by what it holds.
pub open spec fn activity(d: Doing) -> Activity {
    Activity {
        revision: d.revision,
        status: d.status,
        attempt_id: d.attempt_id,
        failures: d.consecutive_failures,
        error: seen_text(d.last_error),
        blocked: d.restart_blocked,
    }
}

/// An attempt, by what it holds.
pub open spec fn attempted(a: AttemptRow) -> Attempted {
    Attempted {
        id: a.id,
        pipeline: a.pipeline@,
        revision: a.revision,
        outcome: a.outcome@,
        detail: seen_text(a.detail),
    }
}

/// An entry of the audit trail, by what it holds.
pub open spec fn audited(a: AuditRow) -> Audited {
    Audited {
        id: a.id,
        at_ms: a.at_ms,
        actor: a.actor@,
        action: a.action@,
        target: seen_text(a.target),
        detail: seen_text(a.detail),
        outcome: a.outcome@,
    }
}

/// Attempts, by what they hold.
pub open spec fn attempted_all(v: Seq<AttemptRow>) -> Seq<Attempted> {
    v.map_values(|a: AttemptRow| attempted(a))
}

/// Entries of the audit trail, by what they hold.
pub open spec fn audited_all(v: Seq<AuditRow>) -> Seq<Audited> {
    v.map_values(|a: AuditRow| audited(a))
}

/// Targets, by what they hold.
pub open spec fn targets(v: Seq<(String, u16)>) -> Seq<(Seq<char>, u16)> {
    v.map_values(|t: (String, u16)| (t.0@, t.1))
}

impl View for Store {
    type V = Catalog;

    open spec fn view(&self) -> Catalog {
        Catalog {
            streams: self.streams@.map_values(|s: String| s@),
            pipelines: self.pipelines@.map_values(|v: Vec<PipelineSpec>| v@),
            wanted: self.wanted@,
            doing: self.doing@.map_values(|d: Doing| activity(d)),
            attempts: attempted_all(self.attempts@),
            attempts_made: self.attempts_made as int,
            audits: audited_all(self.audits@),
            audits_made: self.audits_made as int,
            secrets: self.secrets@.map_values(|s: String| s@),
            allowed: targets(self.allowed@),
            key: key_seen(self.key),
            clock_ms: self.clock_ms,
            fail_next: self.fail_next_commit,
        }
    }
}

impl Catalog {
    /// The bounds and ties that every write keeps: histories within their caps,
    /// every pipeline with a revision and with its two states.
    pub open spec fn sound(self) -> bool {
        &&& self.attempts.len() <= ATTEMPT_CAP
        &&& self.audits.len() <= AUDIT_CAP
        &&& 0 <= self.attempts_made
        &&& 0 <= self.audits_made
        &&& forall|k: Seq<char>| #[trigger]
            self.pipelines.dom().contains(k) ==> {
                &&& self.pipelines[k].len() >= 1
                &&& self.wanted.dom().contains(k)
                &&& self.doing.dom().contains(k)
            }
    }
}

impl Store {
    /// The tables are in order, and what the catalog holds is sound.
    pub open spec fn wf(&self) -> bool {
        &&& self.streams.wf()
        &&& self.pipelines.wf()
        &&& self.wanted.wf()
        &&& self.doing.wf()
        &&& self.secrets.wf()
        &&& (self.key matches Ok(k) ==> k.wf())
        &&& self@.sound()
    }
}

/// The fault of a write that was cut off.
pub open spec fn injected() -> Fault {
    fault(ErrorCode::Internal, "injected catalog crash before COMMIT"@)
}

/// A write that would lead from `c` to `next` either did so, or was cut off and
/// changed nothing.
pub open spec fn wrote<T>(
    c: Catalog,
    next: Catalog,
    r: Result<T, SparrowError>,
    after: Catalog,
) -> bool {
    if c.fail_next {
        r is Err && r->Err_0@ == injected() && after == (Catalog { fail_next: false, ..c })
    } else {
        r is Ok && after == next
    }
}

/// Why a name is refused.
pub open spec fn name_fault(name: Seq<char>) -> Option<Fault> {
    if name.len() == 0 || encode_utf8(name).len() > 64 {
        Some(fault(ErrorCode::InvalidArgument, "name must be 1..=64 characters"@))
    } else if exists|i: int| 0 <= i < name.len() && !name_char(#[trigger] name[i]) {
        Some(fault(ErrorCode::InvalidArgument, "name may contain only [A-Za-z0-9_.-]"@))
    } else {
        None
    }
}

/// Whether a name may hold the character.
pub open spec fn name_char(c: char) -> bool {
    ('a' <= c <= 'z') || ('A' <= c <= 'Z') || ('0' <= c <= '9') || c == '_' || c == '-' || c == '.'
}

/// Checks the name of a stream, a pipeline or a secret.
pub fn check_name(name: &str) -> (r: Result<(), SparrowError>)
    ensures
        match r {
            Ok(()) => name_fault(name@) is None,
            Err(e) => name_fault(name@) == Some(e@),
        },
{
    if name.is_empty() || name.as_bytes().len() > 64 {
        return Err(err(ErrorCode::InvalidArgument, "name must be 1..=64 characters"));
    }
    let a: Vec<char> = chars(name);
    let mut i: usize = 0;
    while i < a.len()
        invariant
            i <= a.len(),
            a@ == name@,
            forall|j: int| 0 <= j < i ==> name_char(#[trigger] name@[j]),
            name@.len() > 0,
            encode_utf8(name@).len() <= 64,
        decreases a.len() - i,
    {
        let c: char = a[i];
        let ok: bool = ('a' <= c && c <= 'z') || ('A' <= c && c <= 'Z') || ('0' <= c && c <= '9')
            || c == '_' || c == '-' || c == '.';
        if !ok {
            assert(!name_char(name@[i as int]));
            return Err(err(ErrorCode::InvalidArgument, "name may contain only [A-Za-z0-9_.-]"));
        }
        i = i + 1;
    }
    Ok(())
}

/// The tag of a revision.
pub open spec fn etag_of(n: nat) -> Seq<char> {
    "rev-"@ + decimal(n)
}

fn etag(n: u64) -> (r: String)
    ensures
        r@ == etag_of(n as nat),
{
    cat2("rev-", dec(n).as_str())
}

/// The fault of a pipeline that is not known.
pub open spec fn unknown_pipeline(name: Seq<char>) -> Fault {
    fault(ErrorCode::InvalidArgument, "unknown pipeline `"@ + name + "`"@)
}

fn no_pipeline(name: &str) -> (r: SparrowError)
    ensures
        r@ == unknown_pipeline(name@),
{
    SparrowError::new(ErrorCode::InvalidArgument, cat3("unknown pipeline `", name, "`"))
}

/// Why a pipeline cannot be written: a name that is refused, or a pipeline that
/// exists and whose latest tag was not given.
pub open spec fn put_fault(
    c: Catalog,
    name: Seq<char>,
    expected: Option<Seq<char>>,
) -> Option<Fault> {
    if name_fault(name) is Some {
        name_fault(name)
    } else if c.pipelines.dom().contains(name) {
        let tag = etag_of(c.pipelines[name].len());
        match expected {
            None => Some(
                Fault {
                    code: ErrorCode::InvalidArgument,
                    text: "If-Match is required to update an existing pipeline"@,
                    context: Some(("hint"@, "If-Match: rev-N"@)),
                },
            ),
            Some(want) => if want != tag && want != "\""@ + tag + "\""@ {
                Some(
                    Fault {
                        code: ErrorCode::InvalidArgument,
                        text: "If-Match `"@ + want + "` does not match current `"@ + tag + "`"@,
                        context: Some(("etag"@, tag)),
                    },
                )
            } else {
                None
            },
        }
    } else {
        None
    }
}

/// A pipeline that was never started.
pub open spec fn idle() -> Activity {
    Activity {
        revision: None,
        status: PipelineStatus::Stopped,
        attempt_id: 0,
        failures: 0,
        error: None,
        blocked: false,
    }
}

/// The revisions of a pipeline with one more.
pub open spec fn revised(c: Catalog, name: Seq<char>, spec: PipelineSpec) -> Seq<PipelineSpec> {
    if c.pipelines.dom().contains(name) {
        c.pipelines[name].push(spec)
    } else {
        seq![spec]
    }
}

/// The catalog with one more revision of a pipeline. A new pipeline is wanted
/// to be stopped, and is.
pub open spec fn with_pipeline(c: Catalog, name: Seq<char>, spec: PipelineSpec) -> Catalog {
    Catalog {
        pipelines: c.pipelines.insert(name, revised(c, name, spec)),
        wanted: if c.wanted.dom().contains(name) {
            c.wanted
        } else {
            c.wanted.insert(name, Wanted { revision: None, status: PipelineStatus::Stopped })
        },
        doing: if c.doing.dom().contains(name) {
            c.doing
        } else {
            c.doing.insert(name, idle())
        },
        ..c
    }
}

/// Failures in a row after a status was reported.
pub open spec fn failures_after(status: PipelineStatus, before: u64) -> u64 {
    match status {
        PipelineStatus::Running => 0,
        PipelineStatus::Completed => 0,
        PipelineStatus::Failed => if before < u64::MAX {
            (before + 1) as u64
        } else {
            u64::MAX
        },
        _ => before,
    }
}

/// Whether a restart is blocked after a status was reported.
pub open spec fn blocked_after(status: PipelineStatus, before: bool) -> bool {
    match status {
        PipelineStatus::Failed => true,
        PipelineStatus::Running => false,
        PipelineStatus::Completed => false,
        PipelineStatus::Starting => false,
        _ => before,
    }
}

/// What a pipeline does after a status was reported.
pub open spec fn reported_activity(
    c: Catalog,
    name: Seq<char>,
    status: PipelineStatus,
    revision: Option<u64>,
    attempt_id: u64,
    error: Option<Seq<char>>,
) -> Activity {
    let before = if c.doing.dom().contains(name) {
        c.doing[name]
    } else {
        idle()
    };
    Activity {
        revision,
        status,
        attempt_id,
        failures: failures_after(status, before.failures),
        error,
        blocked: blocked_after(status, before.blocked),
    }
}

/// What a pipeline does after the process was started again: nothing. Why it
/// was blocked is remembered.
pub open spec fn after_restart(a: Activity) -> Activity {
    Activity {
        status: PipelineStatus::Stopped,
        error: if a.blocked {
            a.error
        } else {
            None
        },
        ..a
    }
}

/// The last `cap` elements.
pub open spec fn newest<T>(s: Seq<T>, cap: int) -> Seq<T> {
    if s.len() > cap {
        s.skip(s.len() - cap)
    } else {
        s
    }
}

/// The latest attempt of a pipeline that is kept.
pub open spec fn latest_attempt(s: Seq<Attempted>, pipeline: Seq<char>) -> Option<Attempted>
    decreases s.len(),
{
    if s.len() == 0 {
        None
    } else if s.last().pipeline == pipeline {
        Some(s.last())
    } else {
        latest_attempt(s.drop_last(), pipeline)
    }
}

fn owned(o: Option<&str>) -> (r: Option<String>)
    ensures
        seen_text(r) == (match o {
            Some(s) => Some(s@),
            None => None::<Seq<char>>,
        }),
{
    match o {
        Some(s) => Some(s.to_owned()),
        None => None,
    }
}

/// An optional borrowed text by what it holds.
pub open spec fn seen_str(o: Option<&str>) -> Option<Seq<char>> {
    match o {
        Some(s) => Some(s@),
        None => None,
    }
}

/// Looks at the version that a stored catalog has, zero where it has none; says
/// whether the version still has to be written. Any other version than this
/// one's is refused.
pub fn check_catalog_version(found: u32) -> (r: Result<bool, SparrowError>)
    ensures
        outcome(r) == if found == 0 {
            Ok(true)
        } else if found == CATALOG_SCHEMA_VERSION {
            Ok(false)
        } else {
            Err(
                fault(
                    ErrorCode::FeatureUnavailable,
                    "catalog_schema_version "@ + decimal(found as nat)
                        + " is not supported (want "@ + decimal(CATALOG_SCHEMA_VERSION as nat)
                        + ")"@,
                ),
            )
        },
{
    if found == 0 {
        Ok(true)
    } else if found == CATALOG_SCHEMA_VERSION {
        Ok(false)
    } else {
        Err(
            SparrowError::new(
                ErrorCode::FeatureUnavailable,
                cat5(
                    "catalog_schema_version ",
                    dec(found as u64).as_str(),
                    " is not supported (want ",
                    dec(CATALOG_SCHEMA_VERSION as u64).as_str(),
                    ")",
                ),
            ),
        )
    }
}

impl Store {
    /// An empty catalog that seals secrets with a key of this process.
    pub fn open_memory() -> (r: Self)
        ensures
            r.wf(),
            r@.streams == Map::<Seq<char>, Seq<char>>::empty(),
            r@.pipelines == Map::<Seq<char>, Seq<PipelineSpec>>::empty(),
            r@.wanted == Map::<Seq<char>, Wanted>::empty(),
            r@.doing == Map::<Seq<char>, Activity>::empty(),
            r@.attempts == Seq::<Attempted>::empty(),
            r@.attempts_made == 0,
            r@.audits == Seq::<Audited>::empty(),
            r@.audits_made == 0,
            r@.secrets == Map::<Seq<char>, Seq<char>>::empty(),
            r@.allowed == Seq::<(Seq<char>, u16)>::empty(),
            exists|drawn: Option<Vec<u8>>| #[trigger]
                drew(KEY_BYTES, drawn) && r@.key == Ok::<Seq<u8>, Fault>(drawn_key(drawn)),
            r@.clock_ms == 0,
            !r@.fail_next,
    {
        let key: SecretsKey = random_key();
        Store {
            streams: Table::new(),
            pipelines: Table::new(),
            wanted: Table::new(),
            doing: Table::new(),
            attempts: Vec::new(),
            attempts_made: 0,
            audits: Vec::new(),
            audits_made: 0,
            secrets: Table::new(),
            allowed: Vec::new(),
            key: Ok(key),
            clock_ms: 0,
            fail_next_commit: false,
        }
    }

    /// The version of the catalog's tables.
    pub fn schema_version(&self) -> (r: u32)
        ensures
            r == CATALOG_SCHEMA_VERSION,
    {
        CATALOG_SCHEMA_VERSION
    }

    /// The next write fails as if the process had died before it was complete.
    pub fn debug_fail_next_commit(&mut self)
        requires
            old(self).wf(),
        ensures
            final(self).wf(),
            final(self)@ == (Catalog { fail_next: true, ..old(self)@ }),
    {
        self.fail_next_commit = true;
    }

    /// Lets a write take effect unless it is to be cut off.
    fn commit(&mut self) -> (r: Result<(), SparrowError>)
        requires
            old(self).wf(),
        ensures
            final(self).wf(),
            old(self)@.fail_next ==> r is Err && r->Err_0@ == injected() && final(self)@ == (
            Catalog { fail_next: false, ..old(self)@ }),
            !old(self)@.fail_next ==> r is Ok && *final(self) == *old(self),
    {
        if self.fail_next_commit {
            self.fail_next_commit = false;
            return Err(err(ErrorCode::Internal, "injected catalog crash before COMMIT"));
        }
        Ok(())
    }

    /// Writes a stream.
    pub fn put_stream(&mut self, name: &str, schema_json: &str) -> (r: Result<(), SparrowError>)
        requires
            old(self).wf(),
        ensures
            final(self).wf(),
            match name_fault(name@) {
                Some(f) => r is Err && r->Err_0@ == f && final(self)@ == old(self)@,
                None => wrote(
                    old(self)@,
                    Catalog {
                        streams: old(self)@.streams.insert(name@, schema_json@),
                        ..old(self)@
                    },
                    r,
                    final(self)@,
                ),
            },
    {
        match check_name(name) {
            Ok(()) => {},
            Err(e) => {
                return Err(e);
            },
        }
        match self.commit() {
            Ok(()) => {},
            Err(e) => {
                return Err(e);
            },
        }
        let value: String = schema_json.to_owned();
        self.streams.put(name.to_owned(), value);
        assert(self@ =~= Catalog {
            streams: old(self)@.streams.insert(name@, schema_json@),
            ..old(self)@
        });
        Ok(())
    }

    /// The stream of that name.
    pub fn get_stream(&self, name: &str) -> (r: Result<StreamRow, SparrowError>)
        requires
            self.wf(),
        ensures
            match r {
                Ok(s) => self@.streams.dom().contains(name@) && s.name@ == name@ && s.schema_json@
                    == self@.streams[name@],
                Err(e) => !self@.streams.dom().contains(name@) && e@ == fault(
                    ErrorCode::InvalidArgument,
                    "unknown stream `"@ + name@ + "`"@,
                ),
            },
    {
        match self.streams.get(name) {
            Some(s) => Ok(StreamRow { name: name.to_owned(), schema_json: s.clone() }),
            None => Err(
                SparrowError::new(
                    ErrorCode::InvalidArgument,
                    cat3("unknown stream `", name, "`"),
                ),
            ),
        }
    }

    /// All streams, by name.
    pub fn list_streams(&self) -> (r: Vec<StreamRow>)
        requires
            self.wf(),
        ensures
            r@.len() == self.streams.names().len(),
            forall|i: int|
                0 <= i < r@.len() ==> (#[trigger] r@[i]).name@ == self.streams.names()[i]
                    && r@[i].schema_json@ == self@.streams[self.streams.names()[i]],
    {
        let mut r: Vec<StreamRow> = Vec::new();
        let mut i: usize = 0;
        while i < self.streams.len()
            invariant
                i <= self.streams.names().len(),
                self.wf(),
                r@.len() == i,
                forall|j: int|
                    0 <= j < i ==> (#[trigger] r@[j]).name@ == self.streams.names()[j]
                        && r@[j].schema_json@ == self@.streams[self.streams.names()[j]],
            decreases self.streams.names().len() - i,
        {
            let (name, schema): (&String, &String) = self.streams.row(i);
            r.push(StreamRow { name: name.clone(), schema_json: schema.clone() });
            i = i + 1;
        }
        r
    }

    /// Writes one more revision of a pipeline. A pipeline that exists is only
    /// written by who names its latest tag.
    pub fn put_pipeline(
        &mut self,
        name: &str,
        spec: &PipelineSpec,
        expected_etag: Option<&str>,
    ) -> (r: Result<PipelineRow, SparrowError>)
        requires
            old(self).wf(),
        ensures
            final(self).wf(),
            match put_fault(old(self)@, name@, seen_str(expected_etag)) {
                Some(f) => r is Err && r->Err_0@ == f && final(self)@ == old(self)@,
                None => wrote(
                    old(self)@,
                    with_pipeline(old(self)@, name@, *spec),
                    r,
                    final(self)@,
                ),
            },
            r matches Ok(row) ==> {
                let n = revised(old(self)@, name@, *spec).len();
                &&& row.name@ == name@
                &&& row.latest_revision == n
                &&& row.spec == *spec
                &&& row.etag@ == etag_of(n)
            },
    {
        match check_name(name) {
            Ok(()) => {},
            Err(e) => {
                return Err(e);
            },
        }
        let exists: bool = match self.pipelines.get(name) {
            Some(specs) => {
                let tag: String = etag(specs.len() as u64);
                match expected_etag {
                    None => {
                        return Err(
                            SparrowError {
                                code: ErrorCode::InvalidArgument,
                                message: "If-Match is required to update an existing pipeline".to_owned(),
                                context: Some(("hint".to_owned(), "If-Match: rev-N".to_owned())),
                            },
                        );
                    },
                    Some(want) => {
                        let quoted: String = cat3("\"", tag.as_str(), "\"");
                        if !same(want, tag.as_str()) && !same(want, quoted.as_str()) {
                            return Err(
                                SparrowError {
                                    code: ErrorCode::InvalidArgument,
                                    message: cat5(
                                        "If-Match `",
                                        want,
                                        "` does not match current `",
                                        tag.as_str(),
                                        "`",
                                    ),
                                    context: Some(("etag".to_owned(), tag)),
                                },
                            );
                        }
                    },
                }
                true
            },
            None => false,
        };
        match self.commit() {
            Ok(()) => {},
            Err(e) => {
                return Err(e);
            },
        }
        let ghost before = self@;
        let mut specs: Vec<PipelineSpec> = match self.pipelines.take(name) {
            Some(v) => v,
            None => Vec::new(),
        };
        let ghost had = specs@;
        specs.push(spec.clone());
        let n: u64 = specs.len() as u64;
        let ghost now = specs;
        assert(now@ =~= revised(before, name@, *spec));
        self.pipelines.put(name.to_owned(), specs);
        assert(self.pipelines@ =~= old(self).pipelines@.insert(name@, now));
        if self.wanted.get(name).is_none() {
            self.wanted.put(
                name.to_owned(),
                Wanted { revision: None, status: PipelineStatus::Stopped },
            );
        }
        if self.doing.get(name).is_none() {
            self.doing.put(
                name.to_owned(),
                Doing {
                    revision: None,
                    status: PipelineStatus::Stopped,
                    attempt_id: 0,
                    consecutive_failures: 0,
                    last_error: None,
                    restart_blocked: false,
                },
            );
        }
        assert(self@ =~= with_pipeline(before, name@, *spec));
        Ok(
            PipelineRow {
                name: name.to_owned(),
                latest_revision: n,
                spec: spec.clone(),
                etag: etag(n),
            },
        )
    }

    /// A revision of a pipeline, or why there is none.
    pub open spec fn revision_fault(c: Catalog, name: Seq<char>, revision: int) -> Option<Fault> {
        if !c.pipelines.dom().contains(name) {
            Some(unknown_pipeline(name))
        } else if !(1 <= revision <= c.pipelines[name].len()) {
            Some(
                fault(
                    ErrorCode::InvalidArgument,
                    "pipeline `"@ + name + "` has no revision "@ + decimal(revision as nat),
                ),
            )
        } else {
            None
        }
    }

    /// A revision of a pipeline. The latest stays what it is.
    pub fn get_pipeline_revision(&self, name: &str, revision: u64) -> (r: Result<
        PipelineRow,
        SparrowError,
    >)
        requires
            self.wf(),
        ensures
            match r {
                Ok(row) => {
                    &&& Self::revision_fault(self@, name@, revision as int) is None
                    &&& row.name@ == name@
                    &&& row.latest_revision == self@.pipelines[name@].len()
                    &&& row.spec == self@.pipelines[name@][revision - 1]
                    &&& row.etag@ == etag_of(revision as nat)
                },
                Err(e) => Self::revision_fault(self@, name@, revision as int) == Some(e@),
            },
    {
        match self.pipelines.get(name) {
            None => Err(no_pipeline(name)),
            Some(specs) => {
                if revision < 1 || revision > specs.len() as u64 {
                    return Err(
                        SparrowError::new(
                            ErrorCode::InvalidArgument,
                            cat4("pipeline `", name, "` has no revision ", dec(revision).as_str()),
                        ),
                    );
                }
                Ok(
                    PipelineRow {
                        name: name.to_owned(),
                        latest_revision: specs.len() as u64,
                        spec: specs[(revision - 1) as usize].clone(),
                        etag: etag(revision),
                    },
                )
            },
        }
    }

    /// The latest revision of a pipeline.
    pub fn get_pipeline(&self, name: &str) -> (r: Result<PipelineRow, SparrowError>)
        requires
            self.wf(),
        ensures
            match r {
                Ok(row) => {
                    &&& self@.pipelines.dom().contains(name@)
                    &&& row.name@ == name@
                    &&& row.latest_revision == self@.pipelines[name@].len()
                    &&& row.spec == self@.pipelines[name@].last()
                    &&& row.etag@ == etag_of(self@.pipelines[name@].len())
                },
                Err(e) => !self@.pipelines.dom().contains(name@) && e@ == unknown_pipeline(name@),
            },
    {
        match self.pipelines.get(name) {
            None => Err(no_pipeline(name)),
            Some(specs) => {
                let ghost m = self@.pipelines;
                assert(m.dom().contains(name@));
                assert(m[name@] == specs@);
                Ok(
                    PipelineRow {
                        name: name.to_owned(),
                        latest_revision: specs.len() as u64,
                        spec: specs[specs.len() - 1].clone(),
                        etag: etag(specs.len() as u64),
                    },
                )
            },
        }
    }

    /// The names of all pipelines, in order.
    pub fn list_pipeline_names(&self) -> (r: Vec<String>)
        requires
            self.wf(),
        ensures
            crate::text::texts(r@) == self.pipelines.names(),
    {
        let mut r: Vec<String> = Vec::new();
        let mut i: usize = 0;
        while i < self.pipelines.len()
            invariant
                i <= self.pipelines.names().len(),
                self.wf(),
                r@.len() == i,
                forall|j: int| 0 <= j < i ==> (#[trigger] r@[j])@ == self.pipelines.names()[j],
            decreases self.pipelines.names().len() - i,
        {
            let (name, _): (&String, &Vec<PipelineSpec>) = self.pipelines.row(i);
            r.push(name.clone());
            i = i + 1;
        }
        assert(crate::text::texts(r@) =~= self.pipelines.names());
        r
    }

    /// Why a wish for a pipeline cannot be written.
    pub open spec fn wish_fault(c: Catalog, name: Seq<char>, status: Seq<char>) -> Option<Fault> {
        match PipelineStatus::named(status) {
            Err(f) => Some(f),
            Ok(s) => if !s.wanted() {
                Some(
                    fault(
                        ErrorCode::InvalidArgument,
                        "pipeline status '"@ + status + "' cannot be desired"@,
                    ),
                )
            } else if !c.pipelines.dom().contains(name) {
                Some(unknown_pipeline(name))
            } else {
                None
            },
        }
    }

    /// Writes what is wanted of a pipeline.
    pub fn set_desired(&mut self, name: &str, status: &str, revision: Option<u64>) -> (r: Result<
        (),
        SparrowError,
    >)
        requires
            old(self).wf(),
        ensures
            final(self).wf(),
            match Self::wish_fault(old(self)@, name@, status@) {
                Some(f) => r is Err && r->Err_0@ == f && final(self)@ == old(self)@,
                None => wrote(
                    old(self)@,
                    Catalog {
                        wanted: old(self)@.wanted.insert(
                            name@,
                            Wanted { revision, status: PipelineStatus::named(status@)->Ok_0 },
                        ),
                        ..old(self)@
                    },
                    r,
                    final(self)@,
                ),
            },
    {
        let status_: PipelineStatus = match PipelineStatus::parse(status) {
            Ok(s) => s,
            Err(e) => {
                return Err(e);
            },
        };
        if !status_.is_desired() {
            return Err(
                SparrowError::new(
                    ErrorCode::InvalidArgument,
                    cat3("pipeline status '", status, "' cannot be desired"),
                ),
            );
        }
        if self.pipelines.get(name).is_none() {
            return Err(no_pipeline(name));
        }
        match self.commit() {
            Ok(()) => {},
            Err(e) => {
                return Err(e);
            },
        }
        self.wanted.put(name.to_owned(), Wanted { revision, status: status_ });
        assert(self@ =~= Catalog {
            wanted: old(self)@.wanted.insert(
                name@,
                Wanted { revision, status: PipelineStatus::named(status@)->Ok_0 },
            ),
            ..old(self)@
        });
        Ok(())
    }

    /// Writes what a pipeline does.
    pub fn set_actual(
        &mut self,
        name: &str,
        status: &str,
        revision: Option<u64>,
        attempt_id: u64,
        last_error: Option<&str>,
    ) -> (r: Result<(), SparrowError>)
        requires
            old(self).wf(),
        ensures
            final(self).wf(),
            match PipelineStatus::named(status@) {
                Err(f) => r is Err && r->Err_0@ == f && final(self)@ == old(self)@,
                Ok(s) => wrote(
                    old(self)@,
                    Catalog {
                        doing: old(self)@.doing.insert(
                            name@,
                            reported_activity(
                                old(self)@,
                                name@,
                                s,
                                revision,
                                attempt_id,
                                seen_str(last_error),
                            ),
                        ),
                        ..old(self)@
                    },
                    r,
                    final(self)@,
                ),
            },
    {
        let s: PipelineStatus = match PipelineStatus::parse(status) {
            Ok(s) => s,
            Err(e) => {
                return Err(e);
            },
        };
        match self.commit() {
            Ok(()) => {},
            Err(e) => {
                return Err(e);
            },
        }
        let (failures, blocked): (u64, bool) = match self.doing.get(name) {
            Some(d) => (d.consecutive_failures, d.restart_blocked),
            None => (0, false),
        };
        let next: Doing = Doing {
            revision,
            status: s,
            attempt_id,
            consecutive_failures: match s {
                PipelineStatus::Running | PipelineStatus::Completed => 0,
                PipelineStatus::Failed => failures.saturating_add(1),
                _ => failures,
            },
            last_error: owned(last_error),
            restart_blocked: match s {
                PipelineStatus::Failed => true,
                PipelineStatus::Running | PipelineStatus::Completed
                | PipelineStatus::Starting => false,
                _ => blocked,
            },
        };
        let ghost act = activity(next);
        assert(act == reported_activity(
            old(self)@,
            name@,
            s,
            revision,
            attempt_id,
            seen_str(last_error),
        ));
        self.doing.put(name.to_owned(), next);
        assert(self@ =~= Catalog { doing: old(self)@.doing.insert(name@, act), ..old(self)@ });
        Ok(())
    }

    /// Changes the error of a pipeline and nothing else.
    pub fn set_last_error(&mut self, name: &str, last_error: Option<&str>) -> (r: Result<
        (),
        SparrowError,
    >)
        requires
            old(self).wf(),
        ensures
            final(self).wf(),
            wrote(
                old(self)@,
                if old(self)@.doing.dom().contains(name@) {
                    Catalog {
                        doing: old(self)@.doing.insert(
                            name@,
                            Activity {
                                error: seen_str(last_error),
                                ..old(self)@.doing[name@]
                            },
                        ),
                        ..old(self)@
                    }
                } else {
                    old(self)@
                },
                r,
                final(self)@,
            ),
    {
        match self.commit() {
            Ok(()) => {},
            Err(e) => {
                return Err(e);
            },
        }
        match self.doing.take(name) {
            Some(mut d) => {
                let ghost was = activity(d);
                d.last_error = owned(last_error);
                let ghost act = activity(d);
                self.doing.put(name.to_owned(), d);
                assert(self@ =~= Catalog {
                    doing: old(self)@.doing.insert(name@, act),
                    ..old(self)@
                });
            },
            None => {
                assert(self@ =~= old(self)@);
            },
        }
        Ok(())
    }

    /// Forgets the failures of a pipeline, so that it is tried again.
    pub fn reset_consecutive_failures(&mut self, name: &str) -> (r: Result<(), SparrowError>)
        requires
            old(self).wf(),
        ensures
            final(self).wf(),
            wrote(
                old(self)@,
                if old(self)@.doing.dom().contains(name@) {
                    Catalog {
                        doing: old(self)@.doing.insert(
                            name@,
                            Activity { failures: 0, blocked: false, ..old(self)@.doing[name@] },
                        ),
                        ..old(self)@
                    }
                } else {
                    old(self)@
                },
                r,
                final(self)@,
            ),
    {
        match self.commit() {
            Ok(()) => {},
            Err(e) => {
                return Err(e);
            },
        }
        match self.doing.take(name) {
            Some(mut d) => {
                d.consecutive_failures = 0;
                d.restart_blocked = false;
                let ghost act = activity(d);
                self.doing.put(name.to_owned(), d);
                assert(self@ =~= Catalog {
                    doing: old(self)@.doing.insert(name@, act),
                    ..old(self)@
                });
            },
            None => {
                assert(self@ =~= old(self)@);
            },
        }
        Ok(())
    }

    /// What is wanted of a pipeline.
    pub fn desired(&self, name: &str) -> (r: Result<DesiredState, SparrowError>)
        requires
            self.wf(),
        ensures
            match r {
                Ok(d) => {
                    &&& self@.wanted.dom().contains(name@)
                    &&& d.name@ == name@
                    &&& self@.wanted[name@] == (Wanted { revision: d.revision, status: d.status })
                },
                Err(e) => !self@.wanted.dom().contains(name@) && e@ == fault(
                    ErrorCode::InvalidArgument,
                    "no desired state for `"@ + name@ + "`"@,
                ),
            },
    {
        match self.wanted.get(name) {
            Some(w) => Ok(
                DesiredState { name: name.to_owned(), revision: w.revision, status: w.status },
            ),
            None => Err(
                SparrowError::new(
                    ErrorCode::InvalidArgument,
                    cat3("no desired state for `", name, "`"),
                ),
            ),
        }
    }

    /// What a pipeline does.
    pub fn actual(&self, name: &str) -> (r: Result<ActualState, SparrowError>)
        requires
            self.wf(),
        ensures
            match r {
                Ok(a) => {
                    &&& self@.doing.dom().contains(name@)
                    &&& a.name@ == name@
                    &&& self@.doing[name@] == (Activity {
                        revision: a.revision,
                        status: a.status,
                        attempt_id: a.attempt_id,
                        failures: a.consecutive_failures,
                        error: seen_text(a.last_error),
                        blocked: a.restart_blocked,
                    })
                },
                Err(e) => !self@.doing.dom().contains(name@) && e@ == fault(
                    ErrorCode::InvalidArgument,
                    "no actual state for `"@ + name@ + "`"@,
                ),
            },
    {
        match self.doing.get(name) {
            Some(d) => Ok(
                ActualState {
                    name: name.to_owned(),
                    revision: d.revision,
                    status: d.status,
                    attempt_id: d.attempt_id,
                    consecutive_failures: d.consecutive_failures,
                    last_error: copied(&d.last_error),
                    restart_blocked: d.restart_blocked,
                },
            ),
            None => Err(
                SparrowError::new(
                    ErrorCode::InvalidArgument,
                    cat3("no actual state for `", name, "`"),
                ),
            ),
        }
    }

    /// What is wanted of every pipeline, by name.
    pub fn list_desired(&self) -> (r: Vec<DesiredState>)
        requires
            self.wf(),
        ensures
            r@.len() == self.wanted.names().len(),
            forall|i: int|
                0 <= i < r@.len() ==> (#[trigger] r@[i]).name@ == self.wanted.names()[i]
                    && self@.wanted[self.wanted.names()[i]] == (Wanted {
                    revision: r@[i].revision,
                    status: r@[i].status,
                }),
    {
        let mut r: Vec<DesiredState> = Vec::new();
        let mut i: usize = 0;
        while i < self.wanted.len()
            invariant
                i <= self.wanted.names().len(),
                self.wf(),
                r@.len() == i,
                forall|j: int|
                    0 <= j < i ==> (#[trigger] r@[j]).name@ == self.wanted.names()[j]
                        && self@.wanted[self.wanted.names()[j]] == (Wanted {
                        revision: r@[j].revision,
                        status: r@[j].status,
                    }),
            decreases self.wanted.names().len() - i,
        {
            let (name, w): (&String, &Wanted) = self.wanted.row(i);
            r.push(DesiredState { name: name.clone(), revision: w.revision, status: w.status });
            i = i + 1;
        }
        r
    }

    /// The names of the pipelines that have an activity, in order.
    fn doing_names(&self) -> (r: Vec<String>)
        requires
            self.wf(),
        ensures
            crate::text::texts(r@) == self.doing.names(),
    {
        let mut r: Vec<String> = Vec::new();
        let mut i: usize = 0;
        while i < self.doing.len()
            invariant
                i <= self.doing.names().len(),
                self.wf(),
                r@.len() == i,
                forall|j: int| 0 <= j < i ==> (#[trigger] r@[j])@ == self.doing.names()[j],
            decreases self.doing.names().len() - i,
        {
            let (name, _): (&String, &Doing) = self.doing.row(i);
            r.push(name.clone());
            i = i + 1;
        }
        assert(crate::text::texts(r@) =~= self.doing.names());
        r
    }

    /// The process was started again: no job runs. Nothing is restored, and why
    /// a pipeline was blocked is remembered.
    pub fn reset_actual_after_process_restart(&mut self) -> (r: Result<(), SparrowError>)
        requires
            old(self).wf(),
        ensures
            final(self).wf(),
            wrote(
                old(self)@,
                Catalog {
                    doing: old(self)@.doing.map_values(|a: Activity| after_restart(a)),
                    ..old(self)@
                },
                r,
                final(self)@,
            ),
    {
        match self.commit() {
            Ok(()) => {},
            Err(e) => {
                return Err(e);
            },
        }
        let ghost before = self@;
        let names: Vec<String> = self.doing_names();
        let ghost ns = crate::text::texts(names@);
        proof {
            self.doing.lemma_names();
        }
        let mut i: usize = 0;
        while i < names.len()
            invariant
                i <= names.len(),
                self.wf(),
                before == old(self)@,
                before.sound(),
                !before.fail_next,
                ns == crate::text::texts(names@),
                ns.no_duplicates(),
                forall|k: Seq<char>| ns.contains(k) <==> before.doing.dom().contains(k),
                self@ == (Catalog { doing: self@.doing, ..before }),
                self@.doing.dom() == before.doing.dom(),
                forall|j: int|
                    0 <= j < i ==> self@.doing[#[trigger] ns[j]] == after_restart(
                        before.doing[ns[j]],
                    ),
                forall|j: int|
                    i <= j < ns.len() ==> self@.doing[#[trigger] ns[j]] == before.doing[ns[j]],
            decreases names.len() - i,
        {
            let ghost mid = self@;
            assert(ns[i as int] == names@[i as int]@);
            assert(ns.contains(ns[i as int]));
            match self.doing.take(names[i].as_str()) {
                Some(mut d) => {
                    let ghost was = activity(d);
                    d.status = PipelineStatus::Stopped;
                    if !d.restart_blocked {
                        d.last_error = None;
                    }
                    let ghost act = activity(d);
                    assert(act == after_restart(was));
                    self.doing.put(names[i].clone(), d);
                    assert(self@.doing =~= mid.doing.insert(ns[i as int], act));
                    assert(self@ =~= Catalog { doing: self@.doing, ..before });
                },
                None => {},
            }
            i = i + 1;
        }
        proof {
            let want = before.doing.map_values(|a: Activity| after_restart(a));
            assert forall|k: Seq<char>| want.dom().contains(k) implies self@.doing[k]
                == want[k] by {
                assert(ns.contains(k));
                let j = choose|j: int| 0 <= j < ns.len() && ns[j] == k;
                assert(self@.doing[ns[j]] == after_restart(before.doing[ns[j]]));
            }
            assert(self@.doing =~= want);
            assert(self@ =~= Catalog { doing: want, ..before });
        }
        Ok(())
    }

    /// Records an attempt and gives its number. Only the newest are kept.
    pub fn insert_attempt(
        &mut self,
        pipeline: &str,
        revision: u64,
        outcome: &str,
        detail: Option<&str>,
    ) -> (r: Result<i64, SparrowError>)
        requires
            old(self).wf(),
            old(self).attempts_made < i64::MAX,
        ensures
            final(self).wf(),
            wrote(
                old(self)@,
                Catalog {
                    attempts: newest(
                        old(self)@.attempts.push(
                            Attempted {
                                id: (old(self)@.attempts_made + 1) as i64,
                                pipeline: pipeline@,
                                revision,
                                outcome: outcome@,
                                detail: seen_str(detail),
                            },
                        ),
                        ATTEMPT_CAP as int,
                    ),
                    attempts_made: old(self)@.attempts_made + 1,
                    ..old(self)@
                },
                r,
                final(self)@,
            ),
            r matches Ok(id) ==> id == old(self)@.attempts_made + 1,
    {
        match self.commit() {
            Ok(()) => {},
            Err(e) => {
                return Err(e);
            },
        }
        let id: i64 = self.attempts_made + 1;
        let row: AttemptRow = AttemptRow {
            id,
            pipeline: pipeline.to_owned(),
            revision,
            outcome: outcome.to_owned(),
            detail: owned(detail),
        };
        let ghost entry = attempted(row);
        self.attempts.push(row);
        self.attempts_made = id;
        assert(attempted_all(self.attempts@) =~= old(self)@.attempts.push(entry));
        if self.attempts.len() > ATTEMPT_CAP {
            self.attempts.remove(0);
            assert(attempted_all(self.attempts@) =~= old(self)@.attempts.push(entry).skip(1));
        }
        assert(self@ =~= Catalog {
            attempts: newest(old(self)@.attempts.push(entry), ATTEMPT_CAP as int),
            attempts_made: old(self)@.attempts_made + 1,
            ..old(self)@
        });
        Ok(id)
    }

    /// The latest attempt of a pipeline that is kept.
    pub fn last_attempt(&self, pipeline: &str) -> (r: Option<&AttemptRow>)
        requires
            self.wf(),
        ensures
            match r {
                Some(a) => latest_attempt(self@.attempts, pipeline@) == Some(attempted(*a)),
                None => latest_attempt(self@.attempts, pipeline@) is None,
            },
    {
        let ghost all = self@.attempts;
        let mut i: usize = self.attempts.len();
        assert(all.take(i as int) =~= all);
        while i > 0
            invariant
                i <= self.attempts.len(),
                all == attempted_all(self.attempts@),
                all == self@.attempts,
                latest_attempt(all, pipeline@) == latest_attempt(all.take(i as int), pipeline@),
            decreases i,
        {
            assert(all.take(i as int).drop_last() =~= all.take(i - 1));
            assert(all.take(i as int).last() == attempted(self.attempts@[i - 1]));
            if same(self.attempts[i - 1].pipeline.as_str(), pipeline) {
                return Some(&self.attempts[i - 1]);
            }
            i = i - 1;
        }
        None
    }

    /// Adds an entry to the audit trail. Only the newest are kept.
    pub fn audit(
        &mut self,
        actor: &str,
        action: &str,
        target: Option<&str>,
        detail: Option<&str>,
        outcome: &str,
    ) -> (r: Result<(), SparrowError>)
        requires
            old(self).wf(),
            old(self).audits_made < i64::MAX,
        ensures
            final(self).wf(),
            wrote(
                old(self)@,
                with_audit(
                    old(self)@,
                    actor@,
                    action@,
                    seen_str(target),
                    seen_str(detail),
                    outcome@,
                ),
                r,
                final(self)@,
            ),
    {
        match self.commit() {
            Ok(()) => {},
            Err(e) => {
                return Err(e);
            },
        }
        let id: i64 = self.audits_made + 1;
        let row: AuditRow = AuditRow {
            id,
            at_ms: self.clock_ms,
            actor: actor.to_owned(),
            action: action.to_owned(),
            target: owned(target),
            detail: owned(detail),
            outcome: outcome.to_owned(),
        };
        let ghost entry = audited(row);
        self.audits.push(row);
        self.audits_made = id;
        assert(audited_all(self.audits@) =~= old(self)@.audits.push(entry));
        if self.audits.len() > AUDIT_CAP {
            self.audits.remove(0);
            assert(audited_all(self.audits@) =~= old(self)@.audits.push(entry).skip(1));
        }
        assert(self@ =~= with_audit(
            old(self)@,
            actor@,
            action@,
            seen_str(target),
            seen_str(detail),
            outcome@,
        ));
        Ok(())
    }

    /// The newest entries of the audit trail, newest first: at least one and at
    /// most as many as are kept.
    pub fn list_audit(&self, limit: usize) -> (r: Vec<AuditRow>)
        requires
            self.wf(),
        ensures
            audited_all(r@) == newest(self@.audits, shown_audits(limit)).reverse(),
    {
        let cap: usize = if limit > AUDIT_CAP {
            AUDIT_CAP
        } else if limit < 1 {
            1
        } else {
            limit
        };
        let n: usize = self.audits.len();
        let count: usize = if n > cap {
            cap
        } else {
            n
        };
        let mut r: Vec<AuditRow> = Vec::new();
        let mut i: usize = 0;
        while i < count
            invariant
                i <= count <= n,
                n == self.audits@.len(),
                r@.len() == i,
                forall|j: int|
                    0 <= j < i ==> audited(#[trigger] r@[j]) == audited(self.audits@[n - 1 - j]),
            decreases count - i,
        {
            let a: &AuditRow = &self.audits[n - 1 - i];
            r.push(
                AuditRow {
                    id: a.id,
                    at_ms: a.at_ms,
                    actor: a.actor.clone(),
                    action: a.action.clone(),
                    target: copied(&a.target),
                    detail: copied(&a.detail),
                    outcome: a.outcome.clone(),
                },
            );
            i = i + 1;
        }
        assert(audited_all(r@) =~= newest(self@.audits, shown_audits(limit)).reverse());
        r
    }

    /// Why a secret cannot be written before it is sealed.
    pub open spec fn secret_fault(name: Seq<char>, value: Seq<char>) -> Option<Fault> {
        if name_fault(name) is Some {
            name_fault(name)
        } else if encode_utf8(value).len() > MAX_SECRET_BYTES {
            Some(fault(ErrorCode::MaxRecordSize, "secret value exceeds 4KiB"@))
        } else {
            None
        }
    }

    /// What writing a sealed secret gives: where it could not be sealed, nothing
    /// is written.
    pub open spec fn sealed_put(
        c: Catalog,
        name: Seq<char>,
        sealed: Result<String, SparrowError>,
        r: Result<(), SparrowError>,
        after: Catalog,
    ) -> bool {
        match sealed {
            Err(e) => r == Err::<(), SparrowError>(e) && after == c,
            Ok(t) => wrote(c, Catalog { secrets: c.secrets.insert(name, t@), ..c }, r, after),
        }
    }

    /// Writes a secret that was sealed, where it could be.
    pub fn put_sealed(&mut self, name: &str, sealed: Result<String, SparrowError>) -> (r: Result<
        (),
        SparrowError,
    >)
        requires
            old(self).wf(),
        ensures
            final(self).wf(),
            match name_fault(name@) {
                Some(f) => r is Err && r->Err_0@ == f && final(self)@ == old(self)@,
                None => Self::sealed_put(old(self)@, name@, sealed, r, final(self)@),
            },
    {
        match check_name(name) {
            Ok(()) => {},
            Err(e) => {
                return Err(e);
            },
        }
        let stored: String = match sealed {
            Ok(t) => t,
            Err(e) => {
                return Err(e);
            },
        };
        match self.commit() {
            Ok(()) => {},
            Err(e) => {
                return Err(e);
            },
        }
        let ghost text = stored@;
        self.secrets.put(name.to_owned(), stored);
        assert(self@ =~= Catalog {
            secrets: old(self)@.secrets.insert(name@, text),
            ..old(self)@
        });
        Ok(())
    }

    /// Seals a secret under a nonce that is drawn for it, and writes it. What was
    /// written is read back by [`Store::get_secret`].
    pub fn put_secret(&mut self, name: &str, value: &str) -> (r: Result<(), SparrowError>)
        requires
            old(self).wf(),
        ensures
            final(self).wf(),
            match Self::secret_fault(name@, value@) {
                Some(f) => r is Err && r->Err_0@ == f && final(self)@ == old(self)@,
                None => match old(self)@.key {
                    Err(f) => r is Err && r->Err_0@ == f && final(self)@ == old(self)@,
                    Ok(k) => {
                        &&& exists|drawn: Option<Vec<u8>>, sealed: Result<String, SparrowError>|
                            #![trigger drew(NONCE_BYTES, drawn), sealing(value@, k, drawn, sealed)]
                            drew(NONCE_BYTES, drawn) && sealing(
                                value@,
                                k,
                                drawn,
                                sealed,
                            ) && (sealed is Err ==> drawn is None) && Self::sealed_put(
                                old(self)@,
                                name@,
                                sealed,
                                r,
                                final(self)@,
                            )
                        &&& r is Ok ==> unsealed(final(self)@.secrets[name@], final(self)@.key)
                            == Ok::<Seq<char>, Fault>(value@)
                    },
                },
            },
    {
        match check_name(name) {
            Ok(()) => {},
            Err(e) => {
                return Err(e);
            },
        }
        if value.as_bytes().len() > MAX_SECRET_BYTES {
            return Err(err(ErrorCode::MaxRecordSize, "secret value exceeds 4KiB"));
        }
        let sealed: Result<String, SparrowError> = match &self.key {
            Ok(k) => seal_secret(value, k),
            Err(e) => {
                return Err(e.clone());
            },
        };
        self.put_sealed(name, sealed)
    }

    /// The secret of that name, where there is one.
    pub fn get_secret(&self, name: &str) -> (r: Result<Option<String>, SparrowError>)
        requires
            self.wf(),
        ensures
            if self@.secrets.dom().contains(name@) {
                match r {
                    Ok(Some(v)) => unsealed(self@.secrets[name@], self@.key) == Ok::<
                        Seq<char>,
                        Fault,
                    >(v@),
                    Ok(None) => false,
                    Err(e) => unsealed(self@.secrets[name@], self@.key) == Err::<Seq<char>, Fault>(
                        e@,
                    ),
                }
            } else {
                r == Ok::<Option<String>, SparrowError>(None)
            },
    {
        match self.secrets.get(name) {
            None => Ok(None),
            Some(s) => match unseal_secret(s.as_str(), &self.key) {
                Ok(v) => Ok(Some(v)),
                Err(e) => Err(e),
            },
        }
    }

    /// The text that is kept for a secret.
    pub fn debug_raw_secret(&self, name: &str) -> (r: Option<&String>)
        requires
            self.wf(),
        ensures
            match r {
                Some(s) => self@.secrets.dom().contains(name@) && s@ == self@.secrets[name@],
                None => !self@.secrets.dom().contains(name@),
            },
    {
        self.secrets.get(name)
    }

    /// Allows a target. One that is allowed already stays so.
    pub fn put_allow(&mut self, host: &str, port: u16) -> (r: Result<(), SparrowError>)
        requires
            old(self).wf(),
        ensures
            final(self).wf(),
            wrote(
                old(self)@,
                if old(self)@.allowed.contains((host@, port)) {
                    old(self)@
                } else {
                    Catalog { allowed: old(self)@.allowed.push((host@, port)), ..old(self)@ }
                },
                r,
                final(self)@,
            ),
    {
        match self.commit() {
            Ok(()) => {},
            Err(e) => {
                return Err(e);
            },
        }
        let ghost all = targets(self.allowed@);
        let mut i: usize = 0;
        while i < self.allowed.len()
            invariant
                i <= self.allowed.len(),
                *self == *old(self),
                self.wf(),
                !old(self)@.fail_next,
                all == old(self)@.allowed,
                all == targets(self.allowed@),
                forall|j: int| 0 <= j < i ==> all[j] != (host@, port),
            decreases self.allowed.len() - i,
        {
            assert(all[i as int] == (self.allowed@[i as int].0@, self.allowed@[i as int].1));
            if same(self.allowed[i].0.as_str(), host) && self.allowed[i].1 == port {
                assert(all.contains((host@, port)));
                return Ok(());
            }
            i = i + 1;
        }
        assert(!all.contains((host@, port)));
        self.allowed.push((host.to_owned(), port));
        assert(targets(self.allowed@) =~= all.push((host@, port)));
        assert(self@ =~= Catalog { allowed: all.push((host@, port)), ..old(self)@ });
        Ok(())
    }

    /// The targets that are allowed.
    pub fn allowlist(&self) -> (r: &Vec<(String, u16)>)
        ensures
            targets(r@) == self@.allowed,
    {
        &self.allowed
    }
}

/// How many entries of the audit trail are shown.
pub open spec fn shown_audits(limit: usize) -> int {
    if limit > AUDIT_CAP {
        AUDIT_CAP as int
    } else if limit < 1 {
        1
    } else {
        limit as int
    }
}

/// The catalog with one more entry in its audit trail.
pub open spec fn with_audit(
    c: Catalog,
    actor: Seq<char>,
    action: Seq<char>,
    target: Option<Seq<char>>,
    detail: Option<Seq<char>>,
    outcome: Seq<char>,
) -> Catalog {
    Catalog {
        audits: newest(
            c.audits.push(
                Audited {
                    id: (c.audits_made + 1) as i64,
                    at_ms: c.clock_ms,
                    actor,
                    action,
                    target,
                    detail,
                    outcome,
                },
            ),
            AUDIT_CAP as int,
        ),
        audits_made: c.audits_made + 1,
        ..c
    }
}

/// Writing a pipeline never changes a revision that exists, of this or of any
/// other pipeline, and leaves what is wanted of it and what it does alone.
pub proof fn law_revisions_are_kept(
    c: Catalog,
    name: Seq<char>,
    spec: PipelineSpec,
    other: Seq<char>,
    revision: int,
)
    requires
        c.pipelines.dom().contains(other),
        1 <= revision <= c.pipelines[other].len(),
    ensures
        with_pipeline(c, name, spec).pipelines.dom().contains(other),
        revision <= with_pipeline(c, name, spec).pipelines[other].len(),
        with_pipeline(c, name, spec).pipelines[other][revision - 1] == c.pipelines[other][revision
            - 1],
        c.wanted.dom().contains(other) ==> with_pipeline(c, name, spec).wanted[other]
            == c.wanted[other],
        c.doing.dom().contains(other) ==> with_pipeline(c, name, spec).doing[other]
            == c.doing[other],
{
}

proof fn lemma_decimal_distinct(a: nat, b: nat)
    requires
        decimal(a) == decimal(b),
    ensures
        a == b,
{
    crate::text::law_decimal_is_read_back(a, a + b);
    crate::text::law_decimal_is_read_back(b, a + b);
}

/// No update is lost: of two writers who saw the same revision only the first
/// succeeds, because its write changes the tag that the second one names.
pub proof fn law_no_update_is_lost(
    c: Catalog,
    name: Seq<char>,
    first: PipelineSpec,
    want: Seq<char>,
)
    requires
        c.pipelines.dom().contains(name),
        put_fault(c, name, Some(want)) is None,
    ensures
        put_fault(with_pipeline(c, name, first), name, Some(want)) is Some,
{
    let n = c.pipelines[name].len();
    let tag = etag_of(n);
    let next = etag_of((n + 1) as nat);
    let quote = "\""@;
    assert(with_pipeline(c, name, first).pipelines[name].len() == n + 1);
    reveal_strlit("\"");
    reveal_strlit("rev-");
    if tag == next {
        assert(decimal(n) =~= tag.skip(4));
        assert(decimal(n + 1) =~= next.skip(4));
        lemma_decimal_distinct(n, n + 1);
    }
    if quote + tag + quote == quote + next + quote {
        let a = quote + tag + quote;
        let b = quote + next + quote;
        assert(tag =~= a.subrange(1, a.len() - 1));
        assert(next =~= b.subrange(1, b.len() - 1));
    }
    assert((quote + tag + quote)[0] == '"');
    assert((quote + next + quote)[0] == '"');
    assert(tag[0] == 'r');
    assert(next[0] == 'r');
}

} // verus!
