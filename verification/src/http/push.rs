//! The HTTP push source: one JSON object per request into a bounded inbox.

use super::wire::{lossy_text, MAX_REQUEST};
use crate::capabilities::{
    durable_fault, refuse_durable_recovery, ConnectorCapabilities, RestoreClaim,
};
use crate::error::{refuse, ConnectorError};
use crate::model::{fault, ErrorCode, Fault, JsonLimits, Schema};
use crate::mqtt::codec::{part, put_all};
use crate::policy::{check_bind_addr, listen_fault, TargetPolicy};
use crate::text::{cat3, cat4, dec, decimal};
use vstd::prelude::*;

verus! {

/// The largest inbox, in rows.
pub const MAX_INBOX: usize = 1024;

/// Settings of the push source.
#[derive(Debug)]
pub struct HttpPushSourceConfig {
    pub bind: String,
    pub path: String,
    pub inbox_capacity: usize,
    pub restore: RestoreClaim,
    pub schema: Schema,
    pub json_limits: JsonLimits,
}

impl HttpPushSourceConfig {
    /// What the source declares.
    pub fn capabilities() -> (r: ConnectorCapabilities)
        ensures
            r.live("http_push"@),
    {
        ConnectorCapabilities::http_push()
    }

    /// Settings for a demonstration on this machine.
    pub fn demo(schema: Schema) -> (r: Self)
        ensures
            r.bind@ == "127.0.0.1:0"@,
            r.path@ == "/push"@,
            r.inbox_capacity == 32,
            r.restore is Absent,
            r.schema == schema,
            r.json_limits.max_bytes == 65536,
    {
        HttpPushSourceConfig {
            bind: "127.0.0.1:0".to_owned(),
            path: "/push".to_owned(),
            inbox_capacity: 32,
            restore: RestoreClaim::Absent,
            schema,
            json_limits: JsonLimits::default(),
        }
    }

    /// Why the settings are refused: a bound, no path, or an address that may not
    /// be listened on.
    pub open spec fn fault(self, policy: TargetPolicy) -> Option<Fault> {
        if !(self.restore is Absent) {
            Some(durable_fault())
        } else if self.inbox_capacity == 0 || self.inbox_capacity > MAX_INBOX {
            Some(
                fault(
                    ErrorCode::BoundExceeded,
                    "HTTP push inbox_capacity "@ + decimal(self.inbox_capacity as nat)
                        + " is outside 1..="@ + decimal(MAX_INBOX as nat),
                ),
            )
        } else if self.path@.len() == 0 {
            Some(fault(ErrorCode::InvalidArgument, "HTTP push path is required"@))
        } else {
            listen_fault(policy.allowed@, self.bind@)
        }
    }

    /// Checks the settings.
    pub fn validate(&self, policy: &TargetPolicy) -> (r: Result<(), ConnectorError>)
        ensures
            match r {
                Ok(()) => self.fault(*policy) is None,
                Err(e) => self.fault(*policy) == Some(e@),
            },
    {
        match refuse_durable_recovery(&self.restore) {
            Ok(()) => {},
            Err(e) => {
                return Err(e);
            },
        }
        if self.inbox_capacity == 0 || self.inbox_capacity > MAX_INBOX {
            return Err(
                ConnectorError::new(
                    ErrorCode::BoundExceeded,
                    cat4(
                        "HTTP push inbox_capacity ",
                        dec(self.inbox_capacity as u64).as_str(),
                        " is outside 1..=",
                        dec(MAX_INBOX as u64).as_str(),
                    ),
                ),
            );
        }
        if self.path.as_str().is_empty() {
            return Err(refuse(ErrorCode::InvalidArgument, "HTTP push path is required"));
        }
        check_bind_addr(self.bind.as_str(), policy)
    }
}

/// The address that a push source is reached at.
pub fn push_url(port: u16, path: &str) -> (r: String)
    ensures
        r@ == "http://127.0.0.1:"@ + decimal(port as nat) + path@,
{
    cat3("http://127.0.0.1:", dec(port as u64).as_str(), path)
}

/// A connection to the push source: one request is read, then it is closed.
#[derive(Debug)]
pub struct PushConn {
    pub buf: Vec<u8>,
}

/// What is to be done on a connection to the push source.
pub ghost enum PushStep {
    ReadHead,
    ReadBody,
    Body(Seq<u8>),
}

/// What the bytes of a connection hold. Where the peer has closed it, a body
/// that is shorter than announced is taken as it is.
pub open spec fn push_with(b: Seq<u8>, h: int, text: Seq<char>, ended: bool) -> Result<
    PushStep,
    Fault,
> {
    let n = super::wire::content_length(super::wire::text_lines(text));
    if n > super::wire::MAX_BODY {
        Err(fault(ErrorCode::MaxRecordSize, "HTTP push body exceeds 64KiB"@))
    } else if b.len() < h + 4 + n {
        if ended {
            Ok(PushStep::Body(b.skip(h + 4)))
        } else {
            Ok(PushStep::ReadBody)
        }
    } else {
        Ok(PushStep::Body(b.subrange(h + 4, h + 4 + n)))
    }
}

/// What is to be done on a connection to the push source.
#[derive(Debug)]
pub enum PushAction {
    ReadHead,
    ReadBody,
    Body(Vec<u8>),
}

/// A result with the action and the error taken by what they hold.
pub open spec fn push_seen(r: Result<PushAction, ConnectorError>) -> Result<PushStep, Fault> {
    match r {
        Ok(PushAction::ReadHead) => Ok(PushStep::ReadHead),
        Ok(PushAction::ReadBody) => Ok(PushStep::ReadBody),
        Ok(PushAction::Body(b)) => Ok(PushStep::Body(b@)),
        Err(e) => Err(e@),
    }
}

/// Looks for the body of a pushed request whose head ends at `h` and reads
/// `text`.
pub fn push_after_head(buf: &[u8], h: usize, text: &str, ended: bool) -> (r: Result<
    PushAction,
    ConnectorError,
>)
    requires
        h + 4 <= buf.len(),
    ensures
        push_seen(r) == push_with(buf@, h as int, text@, ended),
{
    let lines: Vec<String> = super::wire::read_lines(text);
    let n: usize = super::wire::find_content_length(&lines);
    if n > super::wire::MAX_BODY {
        return Err(refuse(ErrorCode::MaxRecordSize, "HTTP push body exceeds 64KiB"));
    }
    if buf.len() - (h + 4) < n {
        if ended {
            let b: Vec<u8> = part(buf, h + 4, buf.len());
            assert(b@ =~= buf@.skip(h + 4));
            Ok(PushAction::Body(b))
        } else {
            Ok(PushAction::ReadBody)
        }
    } else {
        Ok(PushAction::Body(part(buf, h + 4, h + 4 + n)))
    }
}

impl PushConn {
    /// A connection without any bytes.
    pub fn new() -> (r: Self)
        ensures
            r.buf@ == Seq::<u8>::empty(),
    {
        PushConn { buf: Vec::new() }
    }

    /// Says what is to be done next.
    pub fn step(&self, ended: bool) -> (r: Result<PushAction, ConnectorError>)
        ensures
            push_seen(r) == match super::wire::header_end(self.buf@, 0) {
                None => Ok::<PushStep, Fault>(PushStep::ReadHead),
                Some(h) => push_with(self.buf@, h, lossy_text(self.buf@.take(h)), ended),
            },
    {
        match super::wire::find_header_end(self.buf.as_slice()) {
            None => Ok(PushAction::ReadHead),
            Some(h) => {
                let head: Vec<u8> = part(self.buf.as_slice(), 0, h);
                assert(head@ =~= self.buf@.take(h as int));
                let text: String = super::wire::lossy(head.as_slice());
                push_after_head(self.buf.as_slice(), h, text.as_str(), ended)
            },
        }
    }

    /// Takes in bytes of the request head, which is bounded.
    pub fn feed_head(&mut self, bytes: &[u8]) -> (r: Result<(), ConnectorError>)
        ensures
            final(self).buf@ == old(self).buf@ + bytes@,
            match r {
                Ok(()) => final(self).buf@.len() <= MAX_REQUEST,
                Err(e) => final(self).buf@.len() > MAX_REQUEST && e@ == fault(
                    ErrorCode::MaxRecordSize,
                    "HTTP push request exceeded 128KiB"@,
                ),
            },
    {
        put_all(&mut self.buf, bytes);
        if self.buf.len() > MAX_REQUEST {
            return Err(refuse(ErrorCode::MaxRecordSize, "HTTP push request exceeded 128KiB"));
        }
        Ok(())
    }

    /// Takes in bytes of the request body.
    pub fn feed_body(&mut self, bytes: &[u8])
        ensures
            final(self).buf@ == old(self).buf@ + bytes@,
    {
        put_all(&mut self.buf, bytes);
    }
}

/// What became of a row that was handed to the inbox.
#[derive(Clone, Copy, Debug, PartialEq, Eq, Structural)]
pub enum Handoff {
    Sent,
    Full,
    Closed,
}

/// Whether a pushed request counts as dropped: its body was no row, or the
/// inbox was full.
pub fn push_dropped(decoded: bool, handoff: Handoff) -> (r: bool)
    ensures
        r == (!decoded || handoff == Handoff::Full),
{
    !decoded || handoff == Handoff::Full
}

/// The reply to a pushed request, whatever became of it.
pub fn push_reply() -> (r: &'static str)
    ensures
        r@ == "HTTP/1.1 202 Accepted\r\ncontent-length: 2\r\nconnection: close\r\n\r\nok"@,
{
    "HTTP/1.1 202 Accepted\r\ncontent-length: 2\r\nconnection: close\r\n\r\nok"
}

} // verus!
