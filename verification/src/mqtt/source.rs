//! The MQTT source: settings, and when a lost session is opened again.

use super::client::{connect_packet, keepalive_secs};
use super::codec::{part, Packet};
use crate::capabilities::{
    durable_fault, qos_fault, refuse_dirty_session, refuse_durable_recovery, refuse_qos_durable,
    session_fault, ConnectorCapabilities, RestoreClaim,
};
use crate::error::{refuse, ConnectorError};
use crate::model::{fault, ErrorCode, Fault, JsonLimits, Schema, COMPACT_QUEUE_BYTES};
use crate::policy::{target_fault, TargetPolicy};
use crate::secret::{looked_up, lookup, SecretResolver};
use crate::text::{cat2, cat3, cat5, dec, decimal};
use crate::tls::{skip_verify_fault, TlsConfig};
use vstd::prelude::*;
use vstd::string::*;
use vstd::utf8::encode_utf8;

verus! {

/// The largest inbox, in rows.
pub const MAX_INBOX: usize = 1024;

/// The largest inbox whose rows are charged by their size.
pub const MAX_CHARGED_INBOX: usize = 4096;

/// Bytes that an inbox may take at worst.
pub const INBOX_BYTES: usize = 4194304;

/// Settings of the MQTT source. Durations are in milliseconds.
#[derive(Debug)]
pub struct MqttSourceConfig {
    pub host: String,
    pub port: u16,
    pub client_id: String,
    pub topic: String,
    pub qos: u8,
    pub clean_session: bool,
    pub username_secret: Option<String>,
    pub password_secret: Option<String>,
    pub tls: TlsConfig,
    pub connect_timeout_ms: u64,
    pub keepalive_ms: u64,
    pub reconnect_min_ms: u64,
    pub reconnect_max_ms: u64,
    pub inbox_capacity: usize,
    /// How long a row waits for a full inbox; zero drops it at once.
    pub inbox_wait_ms: u64,
    pub tcp_quickack: bool,
    /// Whether the platform can acknowledge quickly.
    pub quickack_available: bool,
    /// Rows are charged by their size, up to this many bytes.
    pub inbox_bytes: Option<usize>,
    /// Bytes that the channel of a charged inbox takes itself.
    pub channel_bytes: usize,
    pub restore: RestoreClaim,
    pub schema: Schema,
    pub json_limits: JsonLimits,
    /// A record that cannot be decoded fails the source.
    pub fail_on_decode: bool,
}

impl MqttSourceConfig {
    /// What the source declares.
    pub fn capabilities() -> (r: ConnectorCapabilities)
        ensures
            r.live("mqtt"@),
    {
        ConnectorCapabilities::mqtt_source()
    }

    /// Settings for a demonstration.
    pub fn demo(host: &str, port: u16, schema: Schema) -> (r: Self)
        ensures
            r.host@ == host@,
            r.port == port,
            r.client_id@ == "sparrow-mqtt-source"@,
            r.topic@ == "sensors/json"@,
            r.qos == 0,
            r.clean_session,
            r.username_secret is None,
            r.password_secret is None,
            !r.tls.enabled,
            !r.tls.skip_verify,
            r.connect_timeout_ms == 2000,
            r.keepalive_ms == 30000,
            r.reconnect_min_ms == 50,
            r.reconnect_max_ms == 2000,
            r.inbox_capacity == 32,
            r.inbox_wait_ms == 5,
            !r.tcp_quickack,
            r.quickack_available,
            r.inbox_bytes is None,
            r.channel_bytes == 0,
            r.restore is Absent,
            r.schema == schema,
            r.json_limits.max_bytes == 65536,
            !r.fail_on_decode,
    {
        MqttSourceConfig {
            host: host.to_owned(),
            port,
            client_id: "sparrow-mqtt-source".to_owned(),
            topic: "sensors/json".to_owned(),
            qos: 0,
            clean_session: true,
            username_secret: None,
            password_secret: None,
            tls: TlsConfig::disabled(),
            connect_timeout_ms: 2000,
            keepalive_ms: 30000,
            reconnect_min_ms: 50,
            reconnect_max_ms: 2000,
            inbox_capacity: 32,
            inbox_wait_ms: 5,
            tcp_quickack: false,
            quickack_available: true,
            inbox_bytes: None,
            channel_bytes: 0,
            restore: RestoreClaim::Absent,
            schema,
            json_limits: JsonLimits::default(),
            fail_on_decode: false,
        }
    }

    /// The largest inbox.
    pub open spec fn max_inbox(self) -> usize {
        if self.inbox_bytes is Some {
            MAX_CHARGED_INBOX
        } else {
            MAX_INBOX
        }
    }

    /// Why the settings are refused before any secret is looked up.
    pub open spec fn fault(self, policy: TargetPolicy) -> Option<Fault> {
        if self.qos != 0 {
            Some(qos_fault(self.qos))
        } else if self.tcp_quickack && !self.quickack_available {
            Some(fault(ErrorCode::FeatureUnavailable, "TCP_QUICKACK requires Linux"@))
        } else if !self.clean_session {
            Some(session_fault())
        } else if !(self.restore is Absent) {
            Some(durable_fault())
        } else if self.tls.skip_verify {
            Some(skip_verify_fault())
        } else if self.host@.len() == 0 || self.client_id@.len() == 0 || self.topic@.len() == 0 {
            Some(
                fault(
                    ErrorCode::InvalidArgument,
                    "MQTT host, client_id, and topic are required"@,
                ),
            )
        } else if self.inbox_capacity == 0 || self.inbox_capacity > self.max_inbox() {
            Some(
                fault(
                    ErrorCode::BoundExceeded,
                    "MQTT inbox_capacity "@ + decimal(self.inbox_capacity as nat)
                        + " is outside 1..="@ + decimal(self.max_inbox() as nat)
                        + " (buffers are bounded)"@,
                ),
            )
        } else if self.inbox_wait_ms > 1000 {
            Some(fault(ErrorCode::BoundExceeded, "MQTT inbox_wait_ms must be in 0..=1000"@))
        } else if target_fault(policy.allowed@, self.host@, self.port) is Some {
            target_fault(policy.allowed@, self.host@, self.port)
        } else if (self.username_secret is Some || self.password_secret is Some)
            && !self.tls.enabled {
            Some(
                fault(
                    ErrorCode::PolicyDenied,
                    "MQTT credentials require TLS; refusing plaintext username/password"@,
                ),
            )
        } else {
            None
        }
    }

    /// The bytes that a full inbox of the largest records takes.
    pub open spec fn worst_case(self) -> int {
        let n = self.inbox_capacity * self.json_limits.max_bytes;
        if n > usize::MAX {
            usize::MAX as int
        } else {
            n
        }
    }

    /// Why the inbox does not fit a queue budget.
    pub open spec fn budget_fault(self, queue_budget: usize) -> Option<Fault> {
        match self.inbox_bytes {
            Some(bytes) => if bytes == 0 || bytes + self.channel_bytes > queue_budget || bytes
                + self.channel_bytes > INBOX_BYTES || self.json_limits.max_bytes > 65536 {
                Some(
                    fault(
                        ErrorCode::BoundExceeded,
                        "MQTT inbox_bytes plus channel metadata must fit queue budget/4MiB; wire records remain <=64KiB"@,
                    ),
                )
            } else {
                None
            },
            None => if self.worst_case() > INBOX_BYTES {
                Some(
                    fault(
                        ErrorCode::BoundExceeded,
                        "MQTT inbox worst-case "@ + decimal(self.worst_case() as nat)
                            + "B exceeds 4MiB byte bound (inbox_capacity × max_record)"@,
                    ),
                )
            } else if self.worst_case() > queue_budget {
                Some(
                    fault(
                        ErrorCode::BoundExceeded,
                        "MQTT inbox worst-case "@ + decimal(self.worst_case() as nat)
                            + "B exceeds queue budget "@ + decimal(queue_budget as nat)
                            + "B (inbox_capacity × max_record)"@,
                    ),
                )
            } else {
                None
            },
        }
    }

    /// The bytes that a full inbox of the largest records takes.
    pub fn inbox_worst_case_bytes(&self) -> (r: usize)
        ensures
            r == self.worst_case(),
    {
        let a: u128 = self.inbox_capacity as u128;
        let b: u128 = self.json_limits.max_bytes as u128;
        assert(a * b <= 18446744073709551615 * 18446744073709551615) by (nonlinear_arith)
            requires
                0 <= a <= 18446744073709551615,
                0 <= b <= 18446744073709551615,
        ;
        let n: u128 = a * b;
        if n > usize::MAX as u128 {
            usize::MAX
        } else {
            n as usize
        }
    }

    /// Refuses an inbox that does not fit a queue budget.
    pub fn check_inbox_budget(&self, queue_budget: usize) -> (r: Result<(), ConnectorError>)
        ensures
            match r {
                Ok(()) => self.budget_fault(queue_budget) is None,
                Err(e) => self.budget_fault(queue_budget) == Some(e@),
            },
    {
        match self.inbox_bytes {
            Some(bytes) => {
                let all: usize = bytes.saturating_add(self.channel_bytes);
                if bytes == 0 || all > queue_budget || all > INBOX_BYTES
                    || self.json_limits.max_bytes > 65536 || bytes.checked_add(
                    self.channel_bytes,
                ).is_none() {
                    return Err(
                        refuse(
                            ErrorCode::BoundExceeded,
                            "MQTT inbox_bytes plus channel metadata must fit queue budget/4MiB; wire records remain <=64KiB",
                        ),
                    );
                }
                Ok(())
            },
            None => {
                let worst: usize = self.inbox_worst_case_bytes();
                if worst > INBOX_BYTES {
                    return Err(
                        ConnectorError::new(
                            ErrorCode::BoundExceeded,
                            cat3(
                                "MQTT inbox worst-case ",
                                dec(worst as u64).as_str(),
                                "B exceeds 4MiB byte bound (inbox_capacity × max_record)",
                            ),
                        ),
                    );
                }
                if worst > queue_budget {
                    return Err(
                        ConnectorError::new(
                            ErrorCode::BoundExceeded,
                            cat5(
                                "MQTT inbox worst-case ",
                                dec(worst as u64).as_str(),
                                "B exceeds queue budget ",
                                dec(queue_budget as u64).as_str(),
                                "B (inbox_capacity × max_record)",
                            ),
                        ),
                    );
                }
                Ok(())
            },
        }
    }

    /// Checks the settings up to the secrets.
    pub fn check(&self, policy: &TargetPolicy) -> (r: Result<(), ConnectorError>)
        ensures
            match r {
                Ok(()) => self.fault(*policy) is None,
                Err(e) => self.fault(*policy) == Some(e@),
            },
    {
        match refuse_qos_durable(self.qos) {
            Ok(()) => {},
            Err(e) => {
                return Err(e);
            },
        }
        if self.tcp_quickack && !self.quickack_available {
            return Err(refuse(ErrorCode::FeatureUnavailable, "TCP_QUICKACK requires Linux"));
        }
        match refuse_dirty_session(self.clean_session) {
            Ok(()) => {},
            Err(e) => {
                return Err(e);
            },
        }
        match refuse_durable_recovery(&self.restore) {
            Ok(()) => {},
            Err(e) => {
                return Err(e);
            },
        }
        match self.tls.validate() {
            Ok(()) => {},
            Err(e) => {
                return Err(e);
            },
        }
        if self.host.as_str().is_empty() || self.client_id.as_str().is_empty()
            || self.topic.as_str().is_empty() {
            return Err(
                refuse(ErrorCode::InvalidArgument, "MQTT host, client_id, and topic are required"),
            );
        }
        let max: usize = if self.inbox_bytes.is_some() {
            MAX_CHARGED_INBOX
        } else {
            MAX_INBOX
        };
        if self.inbox_capacity == 0 || self.inbox_capacity > max {
            return Err(
                ConnectorError::new(
                    ErrorCode::BoundExceeded,
                    cat5(
                        "MQTT inbox_capacity ",
                        dec(self.inbox_capacity as u64).as_str(),
                        " is outside 1..=",
                        dec(max as u64).as_str(),
                        " (buffers are bounded)",
                    ),
                ),
            );
        }
        if self.inbox_wait_ms > 1000 {
            return Err(refuse(ErrorCode::BoundExceeded, "MQTT inbox_wait_ms must be in 0..=1000"));
        }
        match policy.check_host_port(self.host.as_str(), self.port) {
            Ok(()) => {},
            Err(e) => {
                return Err(e);
            },
        }
        if (self.username_secret.is_some() || self.password_secret.is_some())
            && !self.tls.enabled {
            return Err(
                refuse(
                    ErrorCode::PolicyDenied,
                    "MQTT credentials require TLS; refusing plaintext username/password",
                ),
            );
        }
        Ok(())
    }

    /// What checking the settings may give, whatever the secrets are.
    pub open spec fn checked<S: SecretResolver>(
        self,
        secrets: S,
        policy: TargetPolicy,
        r: Result<(), ConnectorError>,
    ) -> bool {
        match self.fault(policy) {
            Some(f) => r is Err && r->Err_0@ == f,
            None => exists|user: Result<Option<String>, ConnectorError>| #[trigger]
                looked_up(secrets, self.username_secret, user) && match user {
                    Err(e) => r == Err::<(), ConnectorError>(e),
                    Ok(_) => exists|pass: Result<Option<String>, ConnectorError>| #[trigger]
                        looked_up(secrets, self.password_secret, pass) && match pass {
                            Err(e) => r == Err::<(), ConnectorError>(e),
                            Ok(_) => match self.budget_fault(COMPACT_QUEUE_BYTES) {
                                Some(f) => r is Err && r->Err_0@ == f,
                                None => r is Ok,
                            },
                        },
                },
        }
    }

    /// Checks the settings; the secrets that are named must be known, and the
    /// inbox must fit the queue of one job.
    pub fn validate<S: SecretResolver>(&self, secrets: &S, policy: &TargetPolicy) -> (r: Result<
        (),
        ConnectorError,
    >)
        ensures
            self.checked(*secrets, *policy, r),
    {
        match self.check(policy) {
            Ok(()) => {},
            Err(e) => {
                return Err(e);
            },
        }
        let user: Result<Option<String>, ConnectorError> = lookup(secrets, &self.username_secret);
        let ghost seen = user;
        assert(looked_up(*secrets, self.username_secret, seen));
        match user {
            Ok(_) => {},
            Err(e) => {
                return Err(e);
            },
        }
        let pass: Result<Option<String>, ConnectorError> = lookup(secrets, &self.password_secret);
        let ghost seen_pass = pass;
        assert(looked_up(*secrets, self.password_secret, seen_pass));
        match pass {
            Ok(_) => {},
            Err(e) => {
                return Err(e);
            },
        }
        self.check_inbox_budget(COMPACT_QUEUE_BYTES)
    }
}

/// A source whose settings were checked and whose secrets were looked up.
#[derive(Debug)]
pub struct MqttSource {
    pub config: MqttSourceConfig,
    pub username: Option<String>,
    pub password: Option<Vec<u8>>,
}

impl MqttSource {
    /// Checks the settings and looks the secrets up.
    pub fn bind<S: SecretResolver>(
        config: MqttSourceConfig,
        secrets: &S,
        policy: &TargetPolicy,
    ) -> (r: Result<Self, ConnectorError>)
        ensures
            match r {
                Ok(s) => {
                    &&& config.checked(*secrets, *policy, Ok(()))
                    &&& s.config == config
                    &&& looked_up(*secrets, config.username_secret, Ok(s.username))
                    &&& exists|p: Option<String>| #[trigger]
                        looked_up(*secrets, config.password_secret, Ok(p)) && match p {
                            None => s.password is None,
                            Some(t) => s.password is Some && s.password->0@ == encode_utf8(t@),
                        }
                },
                Err(e) => {
                    ||| config.checked(*secrets, *policy, Err(e))
                    ||| looked_up(*secrets, config.username_secret, Err(e))
                    ||| looked_up(*secrets, config.password_secret, Err(e))
                },
            },
    {
        match config.validate(secrets, policy) {
            Ok(()) => {},
            Err(e) => {
                return Err(e);
            },
        }
        let username: Option<String> = match lookup(secrets, &config.username_secret) {
            Ok(u) => u,
            Err(e) => {
                return Err(e);
            },
        };
        let text: Option<String> = match lookup(secrets, &config.password_secret) {
            Ok(p) => p,
            Err(e) => {
                return Err(e);
            },
        };
        let ghost p = text;
        assert(looked_up(*secrets, config.password_secret, Ok(p)));
        let password: Option<Vec<u8>> = match text {
            Some(t) => {
                let b: &[u8] = t.as_str().as_bytes();
                let v: Vec<u8> = part(b, 0, b.len());
                assert(v@ =~= encode_utf8(t@));
                Some(v)
            },
            None => None,
        };
        Ok(MqttSource { config, username, password })
    }

    /// The packet that opens a session.
    pub fn hello(&self) -> (r: Packet)
        ensures
            r is Connect,
            r->Connect_0.client_id@ == self.config.client_id@,
            r->Connect_0.clean_session == self.config.clean_session,
            r->Connect_0.keepalive == keepalive_secs(self.config.keepalive_ms),
            match (self.username, r->Connect_0.username) {
                (Some(a), Some(b)) => a@ == b@,
                (None, None) => true,
                _ => false,
            },
            match (self.password, r->Connect_0.password) {
                (Some(a), Some(b)) => a@ == b@,
                (None, None) => true,
                _ => false,
            },
    {
        let username: Option<String> = match &self.username {
            Some(u) => Some(u.clone()),
            None => None,
        };
        let password: Option<Vec<u8>> = match &self.password {
            Some(p) => {
                let v: Vec<u8> = part(p.as_slice(), 0, p.len());
                assert(v@ =~= p@);
                Some(v)
            },
            None => None,
        };
        connect_packet(
            self.config.client_id.as_str(),
            self.config.clean_session,
            self.config.keepalive_ms,
            username,
            password,
        )
    }

    /// Refuses to run without charging where the settings ask for it.
    pub fn check_run(&self) -> (r: Result<(), ConnectorError>)
        ensures
            match r {
                Ok(()) => self.config.inbox_bytes is None,
                Err(e) => self.config.inbox_bytes is Some && e@ == fault(
                    ErrorCode::InvalidArgument,
                    "inbox_bytes requires run_budgeted"@,
                ),
            },
    {
        if self.config.inbox_bytes.is_some() {
            Err(refuse(ErrorCode::InvalidArgument, "inbox_bytes requires run_budgeted"))
        } else {
            Ok(())
        }
    }

    /// Checks the channel and the budget of a run that charges its rows; gives
    /// the bytes that the inbox may hold.
    pub fn check_run_budgeted(&self, channel_capacity: usize, queue_budget: usize) -> (r: Result<
        usize,
        ConnectorError,
    >)
        ensures
            match r {
                Ok(n) => {
                    &&& channel_capacity == self.config.inbox_capacity
                    &&& self.config.inbox_bytes == Some(n)
                    &&& self.config.budget_fault(queue_budget) is None
                },
                Err(e) => if channel_capacity != self.config.inbox_capacity {
                    e@ == fault(
                        ErrorCode::InvalidArgument,
                        "MQTT inbox_capacity does not match channel"@,
                    )
                } else if self.config.inbox_bytes is None {
                    e@ == fault(ErrorCode::InvalidArgument, "inbox_bytes required"@)
                } else {
                    self.config.budget_fault(queue_budget) == Some(e@)
                },
            },
    {
        if channel_capacity != self.config.inbox_capacity {
            return Err(
                refuse(ErrorCode::InvalidArgument, "MQTT inbox_capacity does not match channel"),
            );
        }
        match self.config.inbox_bytes {
            None => Err(refuse(ErrorCode::InvalidArgument, "inbox_bytes required")),
            Some(n) => match self.config.check_inbox_budget(queue_budget) {
                Ok(()) => Ok(n),
                Err(e) => Err(e),
            },
        }
    }
}

/// What follows the end of a session.
#[derive(Clone, Copy, Debug, PartialEq, Eq, Structural)]
pub enum PumpStep {
    /// The source is done.
    Done,
    /// The source fails.
    Fail,
    /// The session is opened again after a pause; the next pause is given too.
    Reconnect { sleep_ms: u64, next_ms: u64 },
}

/// Errors that come from what was received, not from the connection.
pub open spec fn is_data_error(code: ErrorCode) -> bool {
    code == ErrorCode::CodecViolation || code == ErrorCode::MaxRecordSize || code
        == ErrorCode::InvalidSchema || code == ErrorCode::TypeMismatch || code
        == ErrorCode::BoundExceeded
}

/// The pause after this one: twice as long, up to the longest.
pub open spec fn doubled(ms: u64, max_ms: u64) -> u64 {
    if 2 * ms < max_ms {
        (2 * ms) as u64
    } else {
        max_ms
    }
}

/// Decides what follows the end of a session.
pub fn after_session(
    ended: Result<(), ErrorCode>,
    fail_on_decode: bool,
    backoff_ms: u64,
    max_ms: u64,
) -> (r: PumpStep)
    ensures
        r == match ended {
            Ok(()) => PumpStep::Done,
            Err(code) => if fail_on_decode && is_data_error(code) {
                PumpStep::Fail
            } else {
                PumpStep::Reconnect { sleep_ms: backoff_ms, next_ms: doubled(backoff_ms, max_ms) }
            },
        },
{
    match ended {
        Ok(()) => PumpStep::Done,
        Err(code) => {
            let data: bool = code == ErrorCode::CodecViolation || code == ErrorCode::MaxRecordSize
                || code == ErrorCode::InvalidSchema || code == ErrorCode::TypeMismatch || code
                == ErrorCode::BoundExceeded;
            if fail_on_decode && data {
                PumpStep::Fail
            } else {
                let twice: u128 = 2 * backoff_ms as u128;
                let next_ms: u64 = if twice < max_ms as u128 {
                    twice as u64
                } else {
                    max_ms
                };
                PumpStep::Reconnect { sleep_ms: backoff_ms, next_ms }
            }
        },
    }
}

/// The pause before the `n`-th reconnect in a row.
pub open spec fn pause(n: nat, min_ms: u64, max_ms: u64) -> u64
    decreases n,
{
    if n == 0 {
        min_ms
    } else {
        doubled(pause((n - 1) as nat, min_ms, max_ms), max_ms)
    }
}

/// Pauses never shrink and never pass the longest one, where the first does
/// not.
pub proof fn law_pauses_grow_to_the_longest(n: nat, min_ms: u64, max_ms: u64)
    requires
        min_ms <= max_ms,
    ensures
        min_ms <= pause(n, min_ms, max_ms) <= pause(n + 1, min_ms, max_ms) <= max_ms,
    decreases n,
{
    if n > 0 {
        law_pauses_grow_to_the_longest((n - 1) as nat, min_ms, max_ms);
    }
}

/// The error of a record that fails the source; `shown` is the text of the
/// decoder's error.
pub fn decode_failure(code: ErrorCode, shown: &str) -> (r: ConnectorError)
    ensures
        r@ == fault(code, "MQTT decode failed (fail_on_decode): "@ + shown@),
{
    ConnectorError::new(code, cat2("MQTT decode failed (fail_on_decode): ", shown))
}

} // verus!
