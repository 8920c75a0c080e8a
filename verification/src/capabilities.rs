//! What connectors declare, and the refusal of what they cannot keep.

use crate::error::{refuse, ConnectorError};
use crate::model::{fault, ErrorCode, Fault};
use crate::text::{cat3, cat5, dec, decimal, same};
use vstd::prelude::*;

verus! {

/// Whether a source can be read again from a position.
#[derive(Clone, Copy, Debug, PartialEq, Eq, Structural)]
pub enum ReplaySupport {
    Unsupported,
    Replayable,
}

impl ReplaySupport {
    /// The name of the support.
    pub open spec fn name(self) -> Seq<char> {
        match self {
            ReplaySupport::Unsupported => "unsupported"@,
            ReplaySupport::Replayable => "replayable"@,
        }
    }

    /// The name of the support.
    pub fn as_str(self) -> (r: &'static str)
        ensures
            r@ == self.name(),
    {
        match self {
            ReplaySupport::Unsupported => "unsupported",
            ReplaySupport::Replayable => "replayable",
        }
    }

    /// Whether the source can be read again.
    pub fn is_replayable(self) -> (r: bool)
        ensures
            r == (self == ReplaySupport::Replayable),
    {
        self == ReplaySupport::Replayable
    }
}

/// What is promised of delivery: events may be lost.
#[derive(Clone, Copy, Debug, PartialEq, Eq, Structural)]
pub enum DeliveryGuarantee {
    LiveBestEffort,
}

impl DeliveryGuarantee {
    /// The name of the guarantee.
    pub fn as_str(self) -> (r: &'static str)
        ensures
            r@ == "live_best_effort"@,
    {
        "live_best_effort"
    }

    /// The guarantee of that name, or the fault: no stronger one is offered.
    pub open spec fn named(name: Seq<char>) -> Result<DeliveryGuarantee, Fault> {
        if name == "live_best_effort"@ {
            Ok(DeliveryGuarantee::LiveBestEffort)
        } else {
            Err(
                fault(
                    ErrorCode::UnsupportedDelivery,
                    "delivery `"@ + name + "` is not supported (live_best_effort only)"@,
                ),
            )
        }
    }

    /// Reads the name of a guarantee.
    pub fn parse(name: &str) -> (r: Result<Self, ConnectorError>)
        ensures
            crate::error::reported(r) == Self::named(name@),
    {
        if same(name, "live_best_effort") {
            Ok(DeliveryGuarantee::LiveBestEffort)
        } else {
            Err(
                ConnectorError::new(
                    ErrorCode::UnsupportedDelivery,
                    cat3("delivery `", name, "` is not supported (live_best_effort only)"),
                ),
            )
        }
    }
}

/// How a pipeline comes back after a stop.
#[derive(Clone, Copy, Debug, PartialEq, Eq, Structural)]
pub enum RecoveryPolicy {
    RestartFresh,
    Aligned,
}

impl RecoveryPolicy {
    /// The name of the policy.
    pub open spec fn name(self) -> Seq<char> {
        match self {
            RecoveryPolicy::RestartFresh => "restart_fresh"@,
            RecoveryPolicy::Aligned => "aligned"@,
        }
    }

    /// The name of the policy.
    pub fn as_str(self) -> (r: &'static str)
        ensures
            r@ == self.name(),
    {
        match self {
            RecoveryPolicy::RestartFresh => "restart_fresh",
            RecoveryPolicy::Aligned => "aligned",
        }
    }

    /// Whether the policy restores from aligned checkpoints.
    pub fn is_aligned(self) -> (r: bool)
        ensures
            r == (self == RecoveryPolicy::Aligned),
    {
        self == RecoveryPolicy::Aligned
    }

    /// The policy of that name, or the fault.
    pub open spec fn named(name: Seq<char>) -> Result<RecoveryPolicy, Fault> {
        if name == "restart_fresh"@ {
            Ok(RecoveryPolicy::RestartFresh)
        } else if name == "aligned"@ {
            Ok(RecoveryPolicy::Aligned)
        } else {
            Err(
                fault(
                    ErrorCode::UnsupportedRestore,
                    "recovery `"@ + name + "` is not supported (restart_fresh|aligned)"@,
                ),
            )
        }
    }

    /// Reads the name of a policy.
    pub fn parse(name: &str) -> (r: Result<Self, ConnectorError>)
        ensures
            crate::error::reported(r) == Self::named(name@),
    {
        if same(name, "restart_fresh") {
            Ok(RecoveryPolicy::RestartFresh)
        } else if same(name, "aligned") {
            Ok(RecoveryPolicy::Aligned)
        } else {
            Err(
                ConnectorError::new(
                    ErrorCode::UnsupportedRestore,
                    cat3("recovery `", name, "` is not supported (restart_fresh|aligned)"),
                ),
            )
        }
    }
}

/// State that a pipeline claims to be restored from.
#[derive(Debug, PartialEq, Eq)]
pub enum RestoreClaim {
    Absent,
    Checkpoint { snapshot_id: String },
    MqttSession { client_id: String },
    External { kind: String, detail: String },
}

/// What a [`RestoreClaim`] says.
pub ghost enum Claim {
    Absent,
    Checkpoint(Seq<char>),
    MqttSession(Seq<char>),
    External(Seq<char>, Seq<char>),
}

impl View for RestoreClaim {
    type V = Claim;

    open spec fn view(&self) -> Claim {
        match self {
            RestoreClaim::Absent => Claim::Absent,
            RestoreClaim::Checkpoint { snapshot_id } => Claim::Checkpoint(snapshot_id@),
            RestoreClaim::MqttSession { client_id } => Claim::MqttSession(client_id@),
            RestoreClaim::External { kind, detail } => Claim::External(kind@, detail@),
        }
    }
}

impl Clone for RestoreClaim {
    fn clone(&self) -> (r: Self)
        ensures
            r == *self,
    {
        match self {
            RestoreClaim::Absent => RestoreClaim::Absent,
            RestoreClaim::Checkpoint { snapshot_id } => RestoreClaim::Checkpoint {
                snapshot_id: snapshot_id.clone(),
            },
            RestoreClaim::MqttSession { client_id } => RestoreClaim::MqttSession {
                client_id: client_id.clone(),
            },
            RestoreClaim::External { kind, detail } => RestoreClaim::External {
                kind: kind.clone(),
                detail: detail.clone(),
            },
        }
    }
}

/// What a connector declares of itself.
#[derive(Clone, Copy, Debug, PartialEq, Eq)]
pub struct ConnectorCapabilities {
    pub kind: &'static str,
    pub replay: ReplaySupport,
    pub delivery: DeliveryGuarantee,
    pub recovery: RecoveryPolicy,
}

impl ConnectorCapabilities {
    /// A connector whose events come once.
    pub open spec fn live(self, kind: Seq<char>) -> bool {
        &&& self.kind@ == kind
        &&& self.replay == ReplaySupport::Unsupported
        &&& self.delivery == DeliveryGuarantee::LiveBestEffort
        &&& self.recovery == RecoveryPolicy::RestartFresh
    }

    fn live_connector(kind: &'static str) -> (r: Self)
        ensures
            r.live(kind@),
    {
        ConnectorCapabilities {
            kind,
            replay: ReplaySupport::Unsupported,
            delivery: DeliveryGuarantee::LiveBestEffort,
            recovery: RecoveryPolicy::RestartFresh,
        }
    }

    /// The MQTT source.
    pub fn mqtt_source() -> (r: Self)
        ensures
            r.live("mqtt"@),
    {
        Self::live_connector("mqtt")
    }

    /// The MQTT sink.
    pub fn mqtt_sink() -> (r: Self)
        ensures
            r.live("mqtt_sink"@),
    {
        Self::live_connector("mqtt_sink")
    }

    /// The HTTP sink.
    pub fn http_sink() -> (r: Self)
        ensures
            r.live("http"@),
    {
        Self::live_connector("http")
    }

    /// The HTTP push source.
    pub fn http_push() -> (r: Self)
        ensures
            r.live("http_push"@),
    {
        Self::live_connector("http_push")
    }

    /// The log sink.
    pub fn log_sink() -> (r: Self)
        ensures
            r.live("log"@),
    {
        Self::live_connector("log")
    }

    /// The file source, which alone can be read again and restored.
    pub fn file_replay() -> (r: Self)
        ensures
            r.kind@ == "file"@,
            r.replay == ReplaySupport::Replayable,
            r.delivery == DeliveryGuarantee::LiveBestEffort,
            r.recovery == RecoveryPolicy::Aligned,
    {
        ConnectorCapabilities {
            kind: "file",
            replay: ReplaySupport::Replayable,
            delivery: DeliveryGuarantee::LiveBestEffort,
            recovery: RecoveryPolicy::Aligned,
        }
    }
}

/// The fault for a live connector that claims restored state.
pub open spec fn durable_fault() -> Fault {
    fault(
        ErrorCode::UnsupportedRestore,
        "restore is not supported on a live connector (restart_fresh only)"@,
    )
}

/// Refuses every claim of restored state.
pub fn refuse_durable_recovery(claim: &RestoreClaim) -> (r: Result<(), ConnectorError>)
    ensures
        match r {
            Ok(()) => claim is Absent,
            Err(e) => !(claim is Absent) && e@ == durable_fault(),
        },
{
    match claim {
        RestoreClaim::Absent => Ok(()),
        _ => Err(
            refuse(
                ErrorCode::UnsupportedRestore,
                "restore is not supported on a live connector (restart_fresh only)",
            ),
        ),
    }
}

/// Reads the name of a delivery guarantee, refusing what is not kept.
pub fn refuse_delivery_name(name: &str) -> (r: Result<DeliveryGuarantee, ConnectorError>)
    ensures
        crate::error::reported(r) == DeliveryGuarantee::named(name@),
{
    DeliveryGuarantee::parse(name)
}

/// Reads the name of a recovery policy, refusing what is not kept.
pub fn refuse_recovery_name(name: &str) -> (r: Result<RecoveryPolicy, ConnectorError>)
    ensures
        crate::error::reported(r) == RecoveryPolicy::named(name@),
{
    RecoveryPolicy::parse(name)
}

/// The fault for a quality of service above 0.
pub open spec fn qos_fault(qos: u8) -> Fault {
    fault(
        ErrorCode::UnsupportedDelivery,
        "MQTT QoS "@ + decimal(qos as nat)
            + " implies durable / at-least-once delivery; V0.1 is live_best_effort QoS 0 only (replay="@
            + ReplaySupport::Unsupported.name() + ")"@,
    )
}

/// Refuses a quality of service above 0.
pub fn refuse_qos_durable(qos: u8) -> (r: Result<(), ConnectorError>)
    ensures
        match r {
            Ok(()) => qos == 0,
            Err(e) => qos != 0 && e@ == qos_fault(qos),
        },
{
    if qos == 0 {
        Ok(())
    } else {
        Err(
            ConnectorError::new(
                ErrorCode::UnsupportedDelivery,
                cat5(
                    "MQTT QoS ",
                    dec(qos as u64).as_str(),
                    " implies durable / at-least-once delivery; V0.1 is live_best_effort QoS 0 only (replay=",
                    ReplaySupport::Unsupported.as_str(),
                    ")",
                ),
            ),
        )
    }
}

/// The fault for a session that the broker should keep.
pub open spec fn session_fault() -> Fault {
    fault(
        ErrorCode::UnsupportedRestore,
        "MQTT clean_session=false requests session restore; V0.1 is restart_fresh (replay=unsupported)"@,
    )
}

/// Refuses a session that the broker should keep.
pub fn refuse_dirty_session(clean_session: bool) -> (r: Result<(), ConnectorError>)
    ensures
        match r {
            Ok(()) => clean_session,
            Err(e) => !clean_session && e@ == session_fault(),
        },
{
    if clean_session {
        Ok(())
    } else {
        Err(
            refuse(
                ErrorCode::UnsupportedRestore,
                "MQTT clean_session=false requests session restore; V0.1 is restart_fresh (replay=unsupported)",
            ),
        )
    }
}

/// Whether a source of the kind can be recovered as asked: aligned recovery
/// needs a source that can be read again, and only it restores a checkpoint.
pub open spec fn recoverable(replayable: bool, recovery: RecoveryPolicy, claim: Claim) -> bool {
    &&& recovery == RecoveryPolicy::Aligned ==> replayable
    &&& claim is Absent || (claim is Checkpoint && recovery == RecoveryPolicy::Aligned)
}

/// The fault for a recovery that the source cannot keep.
pub open spec fn recovery_fault(kind: Seq<char>) -> Fault {
    fault(
        ErrorCode::UnsupportedRestore,
        "source `"@ + kind + "` cannot keep the requested recovery"@,
    )
}

/// Refuses a recovery that the source cannot keep.
pub fn refuse_unsupported_recovery(
    kind: &str,
    replayable: bool,
    recovery: RecoveryPolicy,
    claim: &RestoreClaim,
) -> (r: Result<(), ConnectorError>)
    ensures
        match r {
            Ok(()) => recoverable(replayable, recovery, claim@),
            Err(e) => !recoverable(replayable, recovery, claim@) && e@ == recovery_fault(kind@),
        },
{
    let claim_kept: bool = match claim {
        RestoreClaim::Absent => true,
        RestoreClaim::Checkpoint { .. } => recovery.is_aligned(),
        _ => false,
    };
    if (recovery.is_aligned() && !replayable) || !claim_kept {
        Err(
            ConnectorError::new(
                ErrorCode::UnsupportedRestore,
                cat3("source `", kind, "` cannot keep the requested recovery"),
            ),
        )
    } else {
        Ok(())
    }
}

/// A live connector is never restored: whatever is claimed, a source that
/// cannot be read again recovers only by starting fresh without a claim.
pub proof fn law_live_sources_only_start_fresh(recovery: RecoveryPolicy, claim: RestoreClaim)
    ensures
        recoverable(false, recovery, claim@) ==> recovery == RecoveryPolicy::RestartFresh
            && claim is Absent,
{
}

} // verus!
