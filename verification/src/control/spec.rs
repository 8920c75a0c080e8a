//! What a pipeline is made of: its stream, its query, its source and its sink.

use crate::capabilities::{
    recoverable, recovery_fault, refuse_unsupported_recovery, Claim, DeliveryGuarantee,
    RecoveryPolicy, RestoreClaim,
};
use crate::error::io;
use crate::model::{err, fault, outcome, ErrorCode, Fault, SparrowError};
use crate::text::{cat2, cat3, cat4, dec, decimal, same, trim, trimmed};
use vstd::prelude::*;
use vstd::string::*;
use vstd::utf8::encode_utf8;

verus! {

/// The version of the specification that is read.
pub const PIPELINE_SPEC_VERSION: u32 = 1;

/// The longest query, in bytes.
pub const MAX_SQL_BYTES: usize = 8192;

/// The longest specification, in bytes.
pub const MAX_SPEC_BYTES: usize = 65536;

/// A copy of an optional text.
pub fn copied(o: &Option<String>) -> (r: Option<String>)
    ensures
        r == *o,
{
    match o {
        Some(s) => Some(s.clone()),
        None => None,
    }
}

/// Where the rows of a pipeline come from.
#[derive(Debug)]
pub struct SourceSpec {
    pub kind: String,
    pub host: Option<String>,
    pub port: Option<u16>,
    pub topic: String,
    pub client_id: Option<String>,
    pub qos: u8,
    pub clean_session: bool,
    pub username_secret: Option<String>,
    pub password_secret: Option<String>,
    pub skip_verify: bool,
    pub inbox_capacity: usize,
    pub use_demo_io: bool,
    pub bind: Option<String>,
    pub path: Option<String>,
    /// Credentials require TLS.
    pub tls: bool,
    /// How a file may change.
    pub file_contract: Option<String>,
}

impl Clone for SourceSpec {
    fn clone(&self) -> (r: Self)
        ensures
            r == *self,
    {
        SourceSpec {
            kind: self.kind.clone(),
            host: copied(&self.host),
            port: self.port,
            topic: self.topic.clone(),
            client_id: copied(&self.client_id),
            qos: self.qos,
            clean_session: self.clean_session,
            username_secret: copied(&self.username_secret),
            password_secret: copied(&self.password_secret),
            skip_verify: self.skip_verify,
            inbox_capacity: self.inbox_capacity,
            use_demo_io: self.use_demo_io,
            bind: copied(&self.bind),
            path: copied(&self.path),
            tls: self.tls,
            file_contract: copied(&self.file_contract),
        }
    }
}

/// Where the rows of a pipeline go.
#[derive(Debug)]
pub struct SinkSpec {
    pub kind: String,
    pub url: Option<String>,
    pub skip_verify: bool,
    pub outbox_capacity: usize,
    pub use_demo_io: bool,
    pub header_secret: Option<String>,
    pub host: Option<String>,
    pub port: Option<u16>,
    pub topic: Option<String>,
    pub client_id: Option<String>,
    pub qos: u8,
    pub clean_session: bool,
    pub tls: bool,
}

impl Clone for SinkSpec {
    fn clone(&self) -> (r: Self)
        ensures
            r == *self,
    {
        SinkSpec {
            kind: self.kind.clone(),
            url: copied(&self.url),
            skip_verify: self.skip_verify,
            outbox_capacity: self.outbox_capacity,
            use_demo_io: self.use_demo_io,
            header_secret: copied(&self.header_secret),
            host: copied(&self.host),
            port: self.port,
            topic: copied(&self.topic),
            client_id: copied(&self.client_id),
            qos: self.qos,
            clean_session: self.clean_session,
            tls: self.tls,
        }
    }
}

/// The state that a pipeline wants to start from.
#[derive(Debug)]
pub struct RestoreSpec {
    pub kind: String,
    pub snapshot_id: Option<String>,
    pub client_id: Option<String>,
}

impl Clone for RestoreSpec {
    fn clone(&self) -> (r: Self)
        ensures
            r == *self,
    {
        RestoreSpec {
            kind: self.kind.clone(),
            snapshot_id: copied(&self.snapshot_id),
            client_id: copied(&self.client_id),
        }
    }
}

/// A pipeline.
#[derive(Debug)]
pub struct PipelineSpec {
    pub version: u32,
    pub stream: String,
    pub sql: Option<String>,
    /// The text of a dataflow graph.
    pub graph: Option<String>,
    pub source: SourceSpec,
    pub sink: SinkSpec,
    pub delivery: String,
    pub recovery: String,
    pub restore: Option<RestoreSpec>,
    /// Where checkpoints go; next to the file where none is given.
    pub checkpoint_dir: Option<String>,
    /// A record that cannot be decoded fails the job.
    pub fail_on_decode: bool,
}

impl Clone for PipelineSpec {
    fn clone(&self) -> (r: Self)
        ensures
            r == *self,
    {
        PipelineSpec {
            version: self.version,
            stream: self.stream.clone(),
            sql: copied(&self.sql),
            graph: copied(&self.graph),
            source: self.source.clone(),
            sink: self.sink.clone(),
            delivery: self.delivery.clone(),
            recovery: self.recovery.clone(),
            restore: match &self.restore {
                Some(x) => Some(x.clone()),
                None => None,
            },
            checkpoint_dir: copied(&self.checkpoint_dir),
            fail_on_decode: self.fail_on_decode,
        }
    }
}

/// What stands for a value that was left out.
pub struct SpecDefaults;

impl SpecDefaults {
    /// The version of the specification.
    pub fn one() -> (r: u32)
        ensures
            r == 1,
    {
        1
    }

    /// The delivery guarantee.
    pub fn live() -> (r: String)
        ensures
            r@ == "live_best_effort"@,
    {
        "live_best_effort".to_owned()
    }

    /// The recovery policy.
    pub fn fresh() -> (r: String)
        ensures
            r@ == "restart_fresh"@,
    {
        "restart_fresh".to_owned()
    }

    /// The topic of a source.
    pub fn default_topic() -> (r: String)
        ensures
            r@ == "sensors/json"@,
    {
        "sensors/json".to_owned()
    }

    /// The capacity of an inbox.
    pub fn default_inbox() -> (r: usize)
        ensures
            r == 16,
    {
        16
    }

    /// The capacity of an outbox.
    pub fn default_outbox() -> (r: usize)
        ensures
            r == 16,
    {
        16
    }
}

/// Whether a source of the kind is a file, which alone can be read again.
pub open spec fn is_file_kind(kind: Seq<char>) -> bool {
    kind == "file"@ || kind == "file_replay"@ || kind == "replay"@
}

/// Whether a source of the kind is a file.
pub fn file_kind(kind: &str) -> (r: bool)
    ensures
        r == is_file_kind(kind@),
{
    same(kind, "file") || same(kind, "file_replay") || same(kind, "replay")
}

/// The text, or none.
pub open spec fn or_empty(o: Option<String>) -> Seq<char> {
    match o {
        Some(s) => s@,
        None => Seq::empty(),
    }
}

fn text_or_empty(o: &Option<String>) -> (r: String)
    ensures
        r@ == or_empty(*o),
{
    match o {
        Some(s) => s.clone(),
        None => String::new(),
    }
}

impl PipelineSpec {
    /// Why the specification is refused.
    pub open spec fn fault(self) -> Option<Fault> {
        if self.version != PIPELINE_SPEC_VERSION {
            Some(
                fault(
                    ErrorCode::FeatureUnavailable,
                    "pipeline spec version "@ + decimal(self.version as nat) + " unsupported"@,
                ),
            )
        } else if self.stream@.len() == 0 {
            Some(fault(ErrorCode::InvalidArgument, "stream is required"@))
        } else {
            match (self.sql, self.graph) {
                (Some(sql), None) => if trimmed(sql@).len() == 0 {
                    Some(fault(ErrorCode::InvalidArgument, "SQL must not be empty"@))
                } else if encode_utf8(sql@).len() > MAX_SQL_BYTES {
                    Some(
                        fault(
                            ErrorCode::MaxRecordSize,
                            "SQL "@ + decimal(encode_utf8(sql@).len()) + "B exceeds "@ + decimal(
                                MAX_SQL_BYTES as nat,
                            ),
                        ),
                    )
                } else {
                    None
                },
                (None, Some(_)) => None,
                _ => Some(
                    fault(
                        ErrorCode::InvalidArgument,
                        "exactly one of `sql` or `graph` is required"@,
                    ),
                ),
            }
        }
    }

    /// Checks the version, the stream and the query.
    pub fn basic_check(&self) -> (r: Result<(), SparrowError>)
        ensures
            match r {
                Ok(()) => self.fault() is None,
                Err(e) => self.fault() == Some(e@),
            },
    {
        if self.version != PIPELINE_SPEC_VERSION {
            return Err(
                SparrowError::new(
                    ErrorCode::FeatureUnavailable,
                    cat3(
                        "pipeline spec version ",
                        dec(self.version as u64).as_str(),
                        " unsupported",
                    ),
                ),
            );
        }
        if self.stream.as_str().is_empty() {
            return Err(err(ErrorCode::InvalidArgument, "stream is required"));
        }
        match (&self.sql, &self.graph) {
            (Some(sql), None) => {
                let t: String = trim(sql.as_str());
                if t.as_str().is_empty() {
                    return Err(err(ErrorCode::InvalidArgument, "SQL must not be empty"));
                }
                let n: usize = sql.as_str().as_bytes().len();
                if n > MAX_SQL_BYTES {
                    return Err(
                        SparrowError::new(
                            ErrorCode::MaxRecordSize,
                            cat4(
                                "SQL ",
                                dec(n as u64).as_str(),
                                "B exceeds ",
                                dec(MAX_SQL_BYTES as u64).as_str(),
                            ),
                        ),
                    );
                }
                Ok(())
            },
            (None, Some(_)) => Ok(()),
            _ => Err(
                err(ErrorCode::InvalidArgument, "exactly one of `sql` or `graph` is required"),
            ),
        }
    }

    /// Checks the specification.
    pub fn validate(&self) -> (r: Result<(), SparrowError>)
        ensures
            match r {
                Ok(()) => self.fault() is None,
                Err(e) => self.fault() == Some(e@),
            },
    {
        self.basic_check()
    }

    /// Reads a specification with a parser that gives the value or the text of
    /// its error. Nothing longer than the limit is parsed.
    pub fn from_json<P: Fn(&[u8]) -> Result<PipelineSpec, String>>(bytes: &[u8], parse: &P) -> (r:
        Result<Self, SparrowError>)
        requires
            forall|b: &[u8]| #[trigger] call_requires(*parse, (b,)),
        ensures
            if bytes@.len() > MAX_SPEC_BYTES {
                r is Err && r->Err_0@ == fault(
                    ErrorCode::MaxRecordSize,
                    "pipeline spec "@ + decimal(bytes@.len()) + "B exceeds "@ + decimal(
                        MAX_SPEC_BYTES as nat,
                    ),
                )
            } else {
                exists|reply: Result<PipelineSpec, String>| #[trigger]
                    call_ensures(*parse, (bytes,), reply) && match reply {
                        Err(t) => r is Err && r->Err_0@ == fault(
                            ErrorCode::InvalidArgument,
                            "pipeline spec JSON: "@ + t@,
                        ),
                        Ok(s) => match s.fault() {
                            Some(f) => r is Err && r->Err_0@ == f,
                            None => r == Ok::<PipelineSpec, SparrowError>(s),
                        },
                    }
            },
    {
        if bytes.len() > MAX_SPEC_BYTES {
            return Err(
                SparrowError::new(
                    ErrorCode::MaxRecordSize,
                    cat4(
                        "pipeline spec ",
                        dec(bytes.len() as u64).as_str(),
                        "B exceeds ",
                        dec(MAX_SPEC_BYTES as u64).as_str(),
                    ),
                ),
            );
        }
        let reply: Result<PipelineSpec, String> = parse(bytes);
        match reply {
            Err(t) => Err(
                SparrowError::new(
                    ErrorCode::InvalidArgument,
                    cat2("pipeline spec JSON: ", t.as_str()),
                ),
            ),
            Ok(s) => match s.validate() {
                Ok(()) => Ok(s),
                Err(e) => Err(e),
            },
        }
    }

    /// The state that the pipeline claims to start from.
    pub open spec fn claim(self) -> Claim {
        match self.restore {
            None => Claim::Absent,
            Some(r) => if r.kind@ == "none"@ || r.kind@.len() == 0 {
                Claim::Absent
            } else if r.kind@ == "checkpoint"@ {
                Claim::Checkpoint(or_empty(r.snapshot_id))
            } else if r.kind@ == "mqtt_session"@ {
                Claim::MqttSession(or_empty(r.client_id))
            } else {
                Claim::External(r.kind@, or_empty(r.snapshot_id))
            },
        }
    }

    /// The state that the pipeline claims to start from.
    pub fn restore_claim(&self) -> (r: RestoreClaim)
        ensures
            r@ == self.claim(),
    {
        match &self.restore {
            None => RestoreClaim::Absent,
            Some(r) => {
                let kind: &str = r.kind.as_str();
                if same(kind, "none") || kind.is_empty() {
                    RestoreClaim::Absent
                } else if same(kind, "checkpoint") {
                    RestoreClaim::Checkpoint { snapshot_id: text_or_empty(&r.snapshot_id) }
                } else if same(kind, "mqtt_session") {
                    RestoreClaim::MqttSession { client_id: text_or_empty(&r.client_id) }
                } else {
                    RestoreClaim::External {
                        kind: r.kind.clone(),
                        detail: text_or_empty(&r.snapshot_id),
                    }
                }
            },
        }
    }

    /// The guarantee and the policy that the pipeline asks for, or why they
    /// cannot be kept.
    pub open spec fn promised(self) -> Result<(DeliveryGuarantee, RecoveryPolicy), Fault> {
        match DeliveryGuarantee::named(self.delivery@) {
            Err(f) => Err(f),
            Ok(g) => match RecoveryPolicy::named(self.recovery@) {
                Err(f) => Err(f),
                Ok(p) => if recoverable(is_file_kind(self.source.kind@), p, self.claim()) {
                    Ok((g, p))
                } else {
                    Err(recovery_fault(self.source.kind@))
                },
            },
        }
    }

    /// Checks that what the pipeline asks for can be kept by its source.
    pub fn check_delivery(&self) -> (r: Result<(DeliveryGuarantee, RecoveryPolicy), SparrowError>)
        ensures
            outcome(r) == self.promised(),
    {
        let g: DeliveryGuarantee = match DeliveryGuarantee::parse(self.delivery.as_str()) {
            Ok(g) => g,
            Err(e) => {
                return Err(io(e));
            },
        };
        let p: RecoveryPolicy = match RecoveryPolicy::parse(self.recovery.as_str()) {
            Ok(p) => p,
            Err(e) => {
                return Err(io(e));
            },
        };
        let claim: RestoreClaim = self.restore_claim();
        let kind: &str = self.source.kind.as_str();
        match refuse_unsupported_recovery(kind, file_kind(kind), p, &claim) {
            Ok(()) => Ok((g, p)),
            Err(e) => Err(io(e)),
        }
    }
}

/// A pipeline whose promises can be kept is restored from a checkpoint only
/// with aligned recovery of a file; every other one starts fresh.
pub proof fn law_only_files_are_restored(s: PipelineSpec)
    requires
        s.promised() is Ok,
    ensures
        s.promised()->Ok_0.0 == DeliveryGuarantee::LiveBestEffort,
        s.promised()->Ok_0.1 == RecoveryPolicy::Aligned ==> is_file_kind(s.source.kind@),
        !(s.claim() is Absent) ==> s.claim() is Checkpoint && s.promised()->Ok_0.1
            == RecoveryPolicy::Aligned,
{
}

/// A column of a stream.
#[derive(Debug)]
pub struct FieldSpec {
    pub name: String,
    pub data_type: crate::model::DataType,
    pub nullable: bool,
}

/// The columns of a stream.
#[derive(Debug)]
pub struct StreamSpec {
    pub fields: Vec<FieldSpec>,
}

impl StreamSpec {
    /// Reads a stream with a parser that gives the value or the text of its
    /// error. Nothing longer than the limit is parsed.
    pub fn from_json<P: Fn(&[u8]) -> Result<StreamSpec, String>>(bytes: &[u8], parse: &P) -> (r:
        Result<Self, SparrowError>)
        requires
            forall|b: &[u8]| #[trigger] call_requires(*parse, (b,)),
        ensures
            if bytes@.len() > MAX_SPEC_BYTES {
                r is Err && r->Err_0@ == fault(
                    ErrorCode::MaxRecordSize,
                    "stream spec "@ + decimal(bytes@.len()) + "B exceeds "@ + decimal(
                        MAX_SPEC_BYTES as nat,
                    ),
                )
            } else {
                exists|reply: Result<StreamSpec, String>| #[trigger]
                    call_ensures(*parse, (bytes,), reply) && match reply {
                        Err(t) => r is Err && r->Err_0@ == fault(
                            ErrorCode::InvalidArgument,
                            "stream spec JSON: "@ + t@,
                        ),
                        Ok(s) => r == Ok::<StreamSpec, SparrowError>(s),
                    }
            },
    {
        if bytes.len() > MAX_SPEC_BYTES {
            return Err(
                SparrowError::new(
                    ErrorCode::MaxRecordSize,
                    cat4(
                        "stream spec ",
                        dec(bytes.len() as u64).as_str(),
                        "B exceeds ",
                        dec(MAX_SPEC_BYTES as u64).as_str(),
                    ),
                ),
            );
        }
        let reply: Result<StreamSpec, String> = parse(bytes);
        match reply {
            Err(t) => Err(
                SparrowError::new(
                    ErrorCode::InvalidArgument,
                    cat2("stream spec JSON: ", t.as_str()),
                ),
            ),
            Ok(s) => Ok(s),
        }
    }
}

} // verus!
