//! The HTTP sink: settings, grouping of encoded batches, the sending loop and
//! its retries.

use crate::capabilities::{
    durable_fault, refuse_durable_recovery, ConnectorCapabilities, RestoreClaim,
};
use crate::error::{refuse, ConnectorError};
use crate::model::{fault, ErrorCode, Fault};
use crate::mqtt::codec::{part, put_all};
use crate::policy::{url_fault, url_parts, TargetPolicy};
use crate::secret::SecretResolver;
use crate::text::{begins, cat4, dec, decimal, starts_with};
use crate::tls::{skip_verify_fault, TlsConfig};
use vstd::prelude::*;

verus! {

/// The largest outbox, in batches.
pub const MAX_OUTBOX: usize = 1024;

/// The most retries of one request.
pub const MAX_RETRIES: u32 = 8;

/// Bytes that are charged for a group besides its body.
pub const DELIVERY_OVERHEAD: usize = 512;

/// Settings of the HTTP sink. Durations are in milliseconds.
#[derive(Debug)]
pub struct HttpSinkConfig {
    pub url: String,
    pub tls: TlsConfig,
    pub timeout_ms: u64,
    pub connect_timeout_ms: u64,
    pub max_retries: u32,
    pub retry_backoff_ms: u64,
    pub outbox_capacity: usize,
    pub restore: RestoreClaim,
    pub header_secret: Option<String>,
    /// Rows that a group is filled up to.
    pub batch_rows: usize,
    /// The largest request body; a batch that is larger by itself fails.
    pub batch_bytes: usize,
    pub linger_ms: u64,
    /// Requests under way at once; above one they may complete out of order.
    pub max_inflight: usize,
}

impl HttpSinkConfig {
    /// What the sink declares.
    pub fn capabilities() -> (r: ConnectorCapabilities)
        ensures
            r.live("http"@),
    {
        ConnectorCapabilities::http_sink()
    }

    /// Settings for a demonstration.
    pub fn demo(url: &str) -> (r: Self)
        ensures
            r.url@ == url@,
            !r.tls.enabled,
            !r.tls.skip_verify,
            r.timeout_ms == 1500,
            r.connect_timeout_ms == 500,
            r.max_retries == 2,
            r.retry_backoff_ms == 40,
            r.outbox_capacity == 16,
            r.restore is Absent,
            r.header_secret is None,
            r.batch_rows == 1,
            r.batch_bytes == 262144,
            r.linger_ms == 0,
            r.max_inflight == 1,
    {
        HttpSinkConfig {
            url: url.to_owned(),
            tls: TlsConfig::disabled(),
            timeout_ms: 1500,
            connect_timeout_ms: 500,
            max_retries: 2,
            retry_backoff_ms: 40,
            outbox_capacity: 16,
            restore: RestoreClaim::Absent,
            header_secret: None,
            batch_rows: 1,
            batch_bytes: 262144,
            linger_ms: 0,
            max_inflight: 1,
        }
    }

    /// The bounds of grouping hold, and all buffers together fit four MiB.
    pub open spec fn bounds_hold(self) -> bool {
        &&& 1 <= self.batch_rows <= 65536
        &&& 2 <= self.batch_bytes <= 1048576
        &&& self.linger_ms <= 1000
        &&& 1 <= self.max_inflight <= 8
        &&& (self.batch_bytes + 512) * (self.max_inflight + 2) <= 4194304
    }

    /// Why the settings are refused, given what the URL's parts are, before any
    /// secret is looked up.
    pub open spec fn fault(
        self,
        policy: TargetPolicy,
        parts: Result<(Seq<char>, Option<Seq<char>>, Option<u16>), Seq<char>>,
    ) -> Option<Fault> {
        if !(self.restore is Absent) {
            Some(durable_fault())
        } else if !self.bounds_hold() {
            Some(
                fault(
                    ErrorCode::BoundExceeded,
                    "HTTP batch_rows 1..65536, batch_bytes 2..1048576, linger_ms 0..1000, max_inflight 1..8; combined buffers must fit 4MiB"@,
                ),
            )
        } else if self.tls.skip_verify {
            Some(skip_verify_fault())
        } else if self.tls.enabled && !begins(self.url@, "https://"@) {
            Some(
                fault(
                    ErrorCode::InvalidArgument,
                    "HTTP sink tls.enabled requires an https:// URL (reqwest rustls verifies certificates)"@,
                ),
            )
        } else if self.outbox_capacity == 0 || self.outbox_capacity > MAX_OUTBOX {
            Some(
                fault(
                    ErrorCode::BoundExceeded,
                    "HTTP outbox_capacity "@ + decimal(self.outbox_capacity as nat)
                        + " is outside 1..="@ + decimal(MAX_OUTBOX as nat),
                ),
            )
        } else if self.max_retries > MAX_RETRIES {
            Some(
                fault(
                    ErrorCode::BoundExceeded,
                    "HTTP max_retries "@ + decimal(self.max_retries as nat) + " exceeds "@
                        + decimal(MAX_RETRIES as nat),
                ),
            )
        } else {
            match url_fault(policy.allowed@, parts) {
                Some(f) => Some(f),
                None => if self.header_secret is Some && !begins(self.url@, "https://"@) {
                    Some(
                        fault(
                            ErrorCode::PolicyDenied,
                            "HTTP header_secret requires an https:// URL (refusing plaintext credentials)"@,
                        ),
                    )
                } else {
                    None
                },
            }
        }
    }

    fn bounds_ok(&self) -> (r: bool)
        ensures
            r == self.bounds_hold(),
    {
        if self.batch_rows < 1 || self.batch_rows > 65536 || self.batch_bytes < 2
            || self.batch_bytes > 1048576 || self.linger_ms > 1000 || self.max_inflight < 1
            || self.max_inflight > 8 {
            return false;
        }
        let a: u64 = self.batch_bytes as u64 + 512;
        let b: u64 = self.max_inflight as u64 + 2;
        assert(a * b <= 1049088 * 10) by (nonlinear_arith)
            requires
                a <= 1049088,
                b <= 10,
                a >= 0,
                b >= 0,
        ;
        a * b <= 4194304
    }

    /// Checks the settings up to the secret.
    pub fn check(&self, policy: &TargetPolicy) -> (r: Result<(), ConnectorError>)
        ensures
            match r {
                Ok(()) => self.fault(*policy, url_parts(self.url@)) is None,
                Err(e) => self.fault(*policy, url_parts(self.url@)) == Some(e@),
            },
    {
        match refuse_durable_recovery(&self.restore) {
            Ok(()) => {},
            Err(e) => {
                return Err(e);
            },
        }
        if !self.bounds_ok() {
            return Err(
                refuse(
                    ErrorCode::BoundExceeded,
                    "HTTP batch_rows 1..65536, batch_bytes 2..1048576, linger_ms 0..1000, max_inflight 1..8; combined buffers must fit 4MiB",
                ),
            );
        }
        match self.tls.validate() {
            Ok(()) => {},
            Err(e) => {
                return Err(e);
            },
        }
        let https: bool = starts_with(self.url.as_str(), "https://");
        if self.tls.enabled && !https {
            return Err(
                refuse(
                    ErrorCode::InvalidArgument,
                    "HTTP sink tls.enabled requires an https:// URL (reqwest rustls verifies certificates)",
                ),
            );
        }
        if self.outbox_capacity == 0 || self.outbox_capacity > MAX_OUTBOX {
            return Err(
                ConnectorError::new(
                    ErrorCode::BoundExceeded,
                    cat4(
                        "HTTP outbox_capacity ",
                        dec(self.outbox_capacity as u64).as_str(),
                        " is outside 1..=",
                        dec(MAX_OUTBOX as u64).as_str(),
                    ),
                ),
            );
        }
        if self.max_retries > MAX_RETRIES {
            return Err(
                ConnectorError::new(
                    ErrorCode::BoundExceeded,
                    cat4(
                        "HTTP max_retries ",
                        dec(self.max_retries as u64).as_str(),
                        " exceeds ",
                        dec(MAX_RETRIES as u64).as_str(),
                    ),
                ),
            );
        }
        match policy.check_http_url(self.url.as_str()) {
            Ok(()) => {},
            Err(e) => {
                return Err(e);
            },
        }
        if self.header_secret.is_some() && !https {
            return Err(
                refuse(
                    ErrorCode::PolicyDenied,
                    "HTTP header_secret requires an https:// URL (refusing plaintext credentials)",
                ),
            );
        }
        Ok(())
    }

    /// Checks the settings; a secret that is named must be known.
    pub fn validate<S: SecretResolver>(&self, secrets: &S, policy: &TargetPolicy) -> (r: Result<
        (),
        ConnectorError,
    >)
        ensures
            match self.fault(*policy, url_parts(self.url@)) {
                Some(f) => r is Err && r->Err_0@ == f,
                None => match self.header_secret {
                    None => r is Ok,
                    Some(n) => exists|found: Result<String, ConnectorError>, name: &str|
                        name@ == n@ && #[trigger] call_ensures(
                            S::resolve,
                            (secrets, name),
                            found,
                        ) && match found {
                            Ok(_) => r is Ok,
                            Err(e) => r == Err::<(), ConnectorError>(e),
                        },
                },
            },
    {
        match self.check(policy) {
            Ok(()) => {},
            Err(e) => {
                return Err(e);
            },
        }
        match &self.header_secret {
            None => Ok(()),
            Some(n) => {
                let name: &str = n.as_str();
                let found: Result<String, ConnectorError> = secrets.resolve(name);
                assert(call_ensures(S::resolve, (secrets, name), found));
                match found {
                    Ok(_) => Ok(()),
                    Err(e) => Err(e),
                }
            },
        }
    }
}

/// A group of encoded batches that is sent as one request.
#[derive(Debug)]
pub struct Delivery {
    /// A JSON array with one element per row.
    pub bytes: Vec<u8>,
    /// Identifies the schema of the rows.
    pub schema: u64,
    /// Identifies who is charged for the bytes.
    pub owner: u64,
    pub rows: usize,
    /// Batches that have to be acknowledged or failed.
    pub batches: usize,
    /// When the first batch came, in milliseconds.
    pub first_ms: u64,
}

/// The elements of an array with commas between them.
pub open spec fn joined(items: Seq<Seq<u8>>) -> Seq<u8>
    decreases items.len(),
{
    if items.len() == 0 {
        Seq::empty()
    } else if items.len() == 1 {
        items[0]
    } else {
        joined(items.drop_last()) + seq![44u8] + items.last()
    }
}

/// The text of an array with these elements.
pub open spec fn array_text(items: Seq<Seq<u8>>) -> Seq<u8> {
    seq![91u8] + joined(items) + seq![93u8]
}

/// One where both groups have rows: a comma stands between them.
pub open spec fn comma(a: Delivery, b: Delivery) -> int {
    if a.rows > 0 && b.rows > 0 {
        1
    } else {
        0
    }
}

/// The bytes of two groups together.
pub open spec fn merged_size(a: Delivery, b: Delivery) -> int {
    a.bytes@.len() + b.bytes@.len() - 2 + comma(a, b)
}

/// Whether two groups may be sent as one: within the bounds, of one schema and
/// at one owner's charge.
pub open spec fn mergeable(a: Delivery, b: Delivery, cap: usize, target_rows: usize) -> bool {
    &&& merged_size(a, b) <= cap
    &&& a.rows + b.rows <= target_rows
    &&& a.schema == b.schema
    &&& a.owner == b.owner
}

/// The text of two arrays as one.
pub open spec fn merged_bytes(a: Delivery, b: Delivery) -> Seq<u8> {
    let sep = if comma(a, b) == 1 {
        seq![44u8]
    } else {
        Seq::empty()
    };
    a.bytes@.drop_last() + sep + b.bytes@.subrange(1, b.bytes@.len() - 1) + seq![93u8]
}

/// The smallest power of two that is not below `n`.
pub open spec fn power_above(n: int, p: int) -> int
    decreases (if n > p { n - p } else { 0 }),
{
    if p >= n || p <= 0 {
        p
    } else {
        power_above(n, 2 * p)
    }
}

/// The capacity that a group of `size` bytes grows to: the next power of two,
/// within the cap.
pub open spec fn growth(size: int, cap: int) -> int {
    let p = power_above(size, 1);
    if p < cap {
        p
    } else {
        cap
    }
}

fn grow_capacity(size: usize, cap: usize) -> (r: usize)
    requires
        size <= cap,
    ensures
        r == growth(size as int, cap as int),
{
    let mut p: usize = 1;
    while p < size
        invariant
            1 <= p,
            size <= cap,
            power_above(size as int, 1) == power_above(size as int, p as int),
        decreases (if size > p { size - p } else { 0 }),
    {
        if p > cap / 2 {
            proof {
                assert(2 * p >= cap);
                assert(power_above(size as int, p as int) == power_above(size as int, 2 * p));
                assert(power_above(size as int, 2 * p) == 2 * p);
            }
            return cap;
        }
        p = 2 * p;
    }
    if p < cap {
        p
    } else {
        cap
    }
}

/// What merging needs.
#[derive(Clone, Copy, Debug, PartialEq, Eq, Structural)]
pub enum MergePlan {
    /// The groups stay apart.
    Separate,
    /// There is room.
    InPlace,
    /// The buffer has to grow to this capacity first.
    Grow(usize),
}

impl Delivery {
    /// The body is at least an empty array.
    pub open spec fn wf(self) -> bool {
        self.bytes@.len() >= 2
    }

    /// Says what merging `next` needs; `capacity` is what the buffer has.
    pub fn plan_merge(&self, next: &Delivery, capacity: usize, cap: usize, target_rows: usize) -> (r:
        MergePlan)
        requires
            self.wf(),
            next.wf(),
        ensures
            r == if !mergeable(*self, *next, cap, target_rows) {
                MergePlan::Separate
            } else if merged_size(*self, *next) <= capacity {
                MergePlan::InPlace
            } else {
                MergePlan::Grow(growth(merged_size(*self, *next), cap as int) as usize)
            },
    {
        let extra: usize = if self.rows > 0 && next.rows > 0 {
            1
        } else {
            0
        };
        let rest: usize = next.bytes.len() - 2;
        if rest > cap || self.bytes.len() > cap || cap - self.bytes.len() < rest || cap
            - self.bytes.len() - rest < extra {
            return MergePlan::Separate;
        }
        let size: usize = self.bytes.len() + rest + extra;
        if self.rows > target_rows || target_rows - self.rows < next.rows || self.schema
            != next.schema || self.owner != next.owner {
            return MergePlan::Separate;
        }
        if size <= capacity {
            MergePlan::InPlace
        } else {
            MergePlan::Grow(grow_capacity(size, cap))
        }
    }

    /// Appends the rows of `next`, which then has nothing left to settle.
    pub fn merge(&mut self, next: Delivery)
        requires
            old(self).wf(),
            next.wf(),
            old(self).rows + next.rows <= usize::MAX,
            old(self).batches + next.batches <= usize::MAX,
        ensures
            final(self).wf(),
            final(self).bytes@ == merged_bytes(*old(self), next),
            final(self).rows == old(self).rows + next.rows,
            final(self).batches == old(self).batches + next.batches,
            final(self).schema == old(self).schema,
            final(self).owner == old(self).owner,
            final(self).first_ms == old(self).first_ms,
    {
        let ghost before = self.bytes@;
        self.bytes.pop();
        if self.rows > 0 && next.rows > 0 {
            self.bytes.push(44);
        }
        let inner: Vec<u8> = part(next.bytes.as_slice(), 1, next.bytes.len() - 1);
        put_all(&mut self.bytes, inner.as_slice());
        self.bytes.push(93);
        assert(self.bytes@ =~= merged_bytes(*old(self), next));
        self.rows = self.rows + next.rows;
        self.batches = self.batches + next.batches;
    }
}

proof fn lemma_joined(a: Seq<Seq<u8>>, b: Seq<Seq<u8>>)
    ensures
        joined(a + b) == joined(a) + (if a.len() > 0 && b.len() > 0 {
            seq![44u8]
        } else {
            Seq::empty()
        }) + joined(b),
    decreases b.len(),
{
    let w = a + b;
    if b.len() == 0 {
        assert(w =~= a);
        assert(joined(a) + Seq::<u8>::empty() + joined(b) =~= joined(a));
    } else if a.len() == 0 {
        assert(w =~= b);
        assert(joined(a) + Seq::<u8>::empty() + joined(b) =~= joined(b));
    } else {
        assert(w.last() == b.last());
        assert(w.drop_last() =~= a + b.drop_last());
        lemma_joined(a, b.drop_last());
        if b.len() == 1 {
            assert(b.drop_last() =~= Seq::<Seq<u8>>::empty());
            assert(joined(b.drop_last()) =~= Seq::<u8>::empty());
            assert(joined(w) =~= joined(a) + seq![44u8] + joined(b));
        } else {
            assert(joined(w) =~= joined(a) + seq![44u8] + joined(b));
        }
    }
}

/// Merging keeps every row, in order: two arrays become the array of the
/// elements of both.
pub proof fn law_merge_keeps_every_row(
    a: Delivery,
    b: Delivery,
    x: Seq<Seq<u8>>,
    y: Seq<Seq<u8>>,
)
    requires
        a.bytes@ == array_text(x),
        b.bytes@ == array_text(y),
        a.rows == x.len(),
        b.rows == y.len(),
    ensures
        merged_bytes(a, b) == array_text(x + y),
{
    lemma_joined(x, y);
    let sep = if comma(a, b) == 1 {
        seq![44u8]
    } else {
        Seq::empty()
    };
    assert(a.bytes@.drop_last() =~= seq![91u8] + joined(x));
    assert(b.bytes@.subrange(1, b.bytes@.len() - 1) =~= joined(y));
    assert(merged_bytes(a, b) =~= seq![91u8] + (joined(x) + sep + joined(y)) + seq![93u8]);
}

/// What became of the request for more memory.
#[derive(Clone, Copy, Debug, PartialEq, Eq, Structural)]
pub enum Growth {
    /// It was refused, and nothing changed.
    Refused,
    /// The buffer grew and is paid for.
    Granted,
    /// The buffer grew by more than is paid for.
    Unpaid,
}

/// The state of the sending loop.
#[derive(Debug)]
pub struct SinkLoop {
    /// The group that is being filled.
    pub group: Option<Delivery>,
    /// A batch that did not fit the group.
    pub carry: Option<Delivery>,
    /// No more batches will come.
    pub closed: bool,
    /// The group has waited long enough.
    pub flush: bool,
    /// A checkpoint wants everything sent.
    pub force_flush: bool,
    /// Requests under way.
    pub tasks: usize,
}

/// What the sending loop does next.
#[derive(Debug)]
pub enum SinkAction {
    /// The loop ends.
    Stop,
    /// The group is sent.
    Post(Delivery),
    /// The loop waits: for a request to complete where some are under way, for
    /// the moment where the group has waited long enough, for a batch.
    Wait { join: bool, linger_until: Option<u64>, receive: bool },
}

/// Batches that are held in an optional group.
pub open spec fn held(d: Option<Delivery>) -> int {
    match d {
        Some(g) => g.batches as int,
        None => 0,
    }
}

/// Batches that an action sends.
pub open spec fn posted(a: SinkAction) -> int {
    match a {
        SinkAction::Post(d) => d.batches as int,
        _ => 0,
    }
}

/// A group is complete: nothing more is waited for.
pub open spec fn due(
    g: Delivery,
    hurried: bool,
    batch_rows: usize,
    batch_bytes: usize,
    linger_ms: u64,
    now_ms: u64,
) -> bool {
    hurried || g.rows >= batch_rows || g.bytes@.len() >= batch_bytes || waited(g, now_ms)
        >= linger_ms
}

/// How long a group has waited.
pub open spec fn waited(g: Delivery, now_ms: u64) -> int {
    if now_ms >= g.first_ms {
        now_ms - g.first_ms
    } else {
        0
    }
}

impl SinkLoop {
    /// The bounds of the loop hold: no more requests are under way than may be,
    /// and nothing is held that is too large for a request.
    pub open spec fn wf(self, cfg: HttpSinkConfig) -> bool {
        &&& self.tasks <= cfg.max_inflight
        &&& (self.group matches Some(g) ==> g.wf() && g.bytes@.len() <= cfg.batch_bytes)
        &&& (self.carry matches Some(g) ==> g.wf() && g.bytes@.len() <= cfg.batch_bytes)
    }

    /// Batches that the loop holds.
    pub open spec fn batches(self) -> int {
        held(self.group) + held(self.carry)
    }

    /// The group after a carried batch has taken its place where there is none.
    pub open spec fn front(self, max_inflight: usize) -> Option<Delivery> {
        if self.group is None && self.tasks < max_inflight {
            self.carry
        } else {
            self.group
        }
    }

    /// What is still carried then.
    pub open spec fn back(self, max_inflight: usize) -> Option<Delivery> {
        if self.group is None && self.tasks < max_inflight {
            None
        } else {
            self.carry
        }
    }

    /// Nothing is held and nothing is under way.
    pub fn new() -> (r: Self)
        ensures
            r.group is None,
            r.carry is None,
            !r.closed,
            !r.flush,
            !r.force_flush,
            r.tasks == 0,
    {
        SinkLoop {
            group: None,
            carry: None,
            closed: false,
            flush: false,
            force_flush: false,
            tasks: 0,
        }
    }

    /// Decides what to do next. `outbox_empty` says that a checkpoint that
    /// wanted everything sent has what it wanted. No batch is lost or sent twice,
    /// no request is larger than it may be, and the loop ends by itself only when
    /// nothing is left.
    pub fn next_action(
        &mut self,
        cfg: &HttpSinkConfig,
        cancelled: bool,
        outbox_empty: bool,
        now_ms: u64,
    ) -> (r: SinkAction)
        requires
            old(self).wf(*cfg),
        ensures
            final(self).wf(*cfg),
            final(self).closed == old(self).closed,
            final(self).batches() + posted(r) == old(self).batches(),
            r matches SinkAction::Post(d) ==> d.bytes@.len() <= cfg.batch_bytes,
            r is Stop && !cancelled ==> final(self).batches() == 0 && final(self).tasks == 0,
            cancelled ==> r is Stop && *final(self) == *old(self),
            !cancelled ==> {
                let front = old(self).front(cfg.max_inflight);
                let back = old(self).back(cfg.max_inflight);
                let force = old(self).force_flush && !outbox_empty;
                let free = old(self).tasks < cfg.max_inflight;
                let hurried = old(self).flush || force || old(self).closed;
                &&& final(self).force_flush == force
                &&& final(self).carry == back
                &&& if front is Some && free && due(
                    front->0,
                    hurried,
                    cfg.batch_rows,
                    cfg.batch_bytes,
                    cfg.linger_ms,
                    now_ms,
                ) {
                    &&& r == SinkAction::Post(front->0)
                    &&& final(self).group is None
                    &&& !final(self).flush
                    &&& final(self).tasks == old(self).tasks + 1
                } else {
                    &&& final(self).group == front
                    &&& final(self).flush == old(self).flush
                    &&& final(self).tasks == old(self).tasks
                    &&& if old(self).closed && front is None && back is None && old(self).tasks
                        == 0 {
                        r is Stop
                    } else {
                        r == (SinkAction::Wait {
                            join: old(self).tasks > 0,
                            linger_until: if front is Some && !old(self).flush {
                                Some(saturated(front->0.first_ms + cfg.linger_ms))
                            } else {
                                None
                            },
                            receive: !old(self).closed && back is None && !old(self).flush && free,
                        })
                    }
                }
            },
    {
        if cancelled {
            return SinkAction::Stop;
        }
        if outbox_empty {
            self.force_flush = false;
        }
        if self.group.is_none() && self.tasks < cfg.max_inflight {
            let mut moved: Option<Delivery> = None;
            std::mem::swap(&mut moved, &mut self.carry);
            self.group = moved;
        }
        let hurried: bool = self.flush || self.force_flush || self.closed;
        let ready: bool = match &self.group {
            Some(g) => hurried || g.rows >= cfg.batch_rows || g.bytes.len() >= cfg.batch_bytes
                || now_ms.saturating_sub(g.first_ms) >= cfg.linger_ms,
            None => false,
        };
        if ready && self.tasks < cfg.max_inflight {
            let mut taken: Option<Delivery> = None;
            std::mem::swap(&mut taken, &mut self.group);
            match taken {
                Some(d) => {
                    self.tasks = self.tasks + 1;
                    self.flush = false;
                    return SinkAction::Post(d);
                },
                None => {},
            }
        }
        if self.closed && self.group.is_none() && self.carry.is_none() && self.tasks == 0 {
            return SinkAction::Stop;
        }
        let linger_until: Option<u64> = match &self.group {
            Some(g) => if !self.flush {
                Some(g.first_ms.saturating_add(cfg.linger_ms))
            } else {
                None
            },
            None => None,
        };
        SinkAction::Wait {
            join: self.tasks > 0,
            linger_until,
            receive: !self.closed && self.carry.is_none() && !self.flush && self.tasks
                < cfg.max_inflight,
        }
    }

    /// A request has completed.
    pub fn on_joined(&mut self)
        requires
            old(self).tasks > 0,
        ensures
            final(self).tasks == old(self).tasks - 1,
            final(self).group == old(self).group,
            final(self).carry == old(self).carry,
            final(self).closed == old(self).closed,
            final(self).force_flush == old(self).force_flush,
            final(self).flush == (old(self).flush && (old(self).group is Some || old(self).carry is Some)),
    {
        self.tasks = self.tasks - 1;
        self.settle();
    }

    /// A checkpoint wants everything sent.
    pub fn on_flush_request(&mut self)
        ensures
            final(self).force_flush,
            final(self).group == old(self).group,
            final(self).carry == old(self).carry,
            final(self).closed == old(self).closed,
            final(self).tasks == old(self).tasks,
            final(self).flush == (old(self).flush && (old(self).group is Some || old(self).carry is Some)),
    {
        self.force_flush = true;
        self.settle();
    }

    /// The group has waited long enough.
    pub fn on_linger(&mut self)
        ensures
            final(self).flush == (old(self).group is Some || old(self).carry is Some),
            final(self).group == old(self).group,
            final(self).carry == old(self).carry,
            final(self).closed == old(self).closed,
            final(self).force_flush == old(self).force_flush,
            final(self).tasks == old(self).tasks,
    {
        self.flush = true;
        self.settle();
    }

    /// No more batches will come.
    pub fn on_closed(&mut self)
        ensures
            final(self).closed,
            final(self).group == old(self).group,
            final(self).carry == old(self).carry,
            final(self).force_flush == old(self).force_flush,
            final(self).tasks == old(self).tasks,
            final(self).flush == (old(self).flush && (old(self).group is Some || old(self).carry is Some)),
    {
        self.closed = true;
        self.settle();
    }

    fn settle(&mut self)
        ensures
            final(self).flush == (old(self).flush && (old(self).group is Some || old(self).carry is Some)),
            final(self).group == old(self).group,
            final(self).carry == old(self).carry,
            final(self).closed == old(self).closed,
            final(self).force_flush == old(self).force_flush,
            final(self).tasks == old(self).tasks,
    {
        if self.group.is_none() && self.carry.is_none() {
            self.flush = false;
        }
    }

    /// Takes in an encoded batch. `plan` is what merging it into the group
    /// needs, `grown` what became of the request for memory where it needs any.
    /// A group that cannot be paid for is handed back to be failed.
    pub fn on_batch(
        &mut self,
        next: Delivery,
        plan: MergePlan,
        grown: Growth,
        cfg: &HttpSinkConfig,
    ) -> (r: Option<Delivery>)
        requires
            old(self).wf(*cfg),
            old(self).carry is None,
            next.wf(),
            next.bytes@.len() <= cfg.batch_bytes,
            old(self).group matches Some(g) ==> {
                &&& (plan is Separate <==> !mergeable(g, next, cfg.batch_bytes, cfg.batch_rows))
                &&& g.batches + next.batches <= usize::MAX
            },
        ensures
            final(self).wf(*cfg),
            final(self).closed == old(self).closed,
            final(self).force_flush == old(self).force_flush,
            final(self).tasks == old(self).tasks,
            final(self).batches() + held(r) == old(self).batches() + next.batches,
            match old(self).group {
                None => r is None && final(self).group == Some(next) && final(self).carry is None
                    && final(self).flush == old(self).flush,
                Some(g) => if plan is Separate || (plan is Grow && grown == Growth::Refused) {
                    &&& r is None
                    &&& final(self).group == Some(g)
                    &&& final(self).carry == Some(next)
                    &&& final(self).flush
                } else if plan is Grow && grown == Growth::Unpaid {
                    &&& r == Some(g)
                    &&& final(self).group is None
                    &&& final(self).carry == Some(next)
                    &&& final(self).flush == old(self).flush
                } else {
                    &&& r is None
                    &&& final(self).carry is None
                    &&& final(self).flush == old(self).flush
                    &&& final(self).group is Some
                    &&& final(self).group->0.bytes@ == merged_bytes(g, next)
                    &&& final(self).group->0.rows == g.rows + next.rows
                    &&& final(self).group->0.batches == g.batches + next.batches
                    &&& final(self).group->0.schema == g.schema
                    &&& final(self).group->0.owner == g.owner
                    &&& final(self).group->0.first_ms == g.first_ms
                },
            },
    {
        let mut current: Option<Delivery> = None;
        std::mem::swap(&mut current, &mut self.group);
        let mut dropped: Option<Delivery> = None;
        match current {
            None => {
                self.group = Some(next);
            },
            Some(mut g) => {
                let separate: bool = match plan {
                    MergePlan::Separate => true,
                    MergePlan::InPlace => false,
                    MergePlan::Grow(_) => grown == Growth::Refused,
                };
                let discard: bool = match plan {
                    MergePlan::Grow(_) => grown == Growth::Unpaid,
                    _ => false,
                };
                if separate {
                    self.group = Some(g);
                    self.carry = Some(next);
                    self.flush = true;
                } else if discard {
                    dropped = Some(g);
                    self.carry = Some(next);
                } else {
                    g.merge(next);
                    self.group = Some(g);
                }
            },
        }
        self.settle();
        dropped
    }
}

impl SinkLoop {
    /// How many batches fail when the loop ends: those it holds and those that
    /// still wait in the queue.
    pub fn unsent(&self, queued: usize) -> (r: usize)
        requires
            self.batches() + queued <= usize::MAX,
        ensures
            r == self.batches() + queued,
    {
        let mut n: usize = queued;
        match &self.group {
            Some(g) => {
                n = n + g.batches;
            },
            None => {},
        }
        match &self.carry {
            Some(g) => {
                n = n + g.batches;
            },
            None => {},
        }
        n
    }
}

/// A time that does not pass the end of the clock.
pub open spec fn saturated(t: int) -> u64 {
    if t > u64::MAX {
        u64::MAX
    } else {
        t as u64
    }
}

/// What a request came to.
#[derive(Clone, Copy, Debug, PartialEq, Eq, Structural)]
pub enum PostResult {
    /// A reply with this status.
    Status(u16),
    /// No reply.
    NoReply,
    /// The request could not be built.
    Unbuildable,
}

/// What follows a request.
#[derive(Clone, Copy, Debug, PartialEq, Eq, Structural)]
pub enum PostStep {
    /// It was accepted.
    Accepted,
    /// It failed for good.
    Failed,
    /// It is sent again after a pause.
    Retry,
}

/// A success status is final; so is a client error and a request that cannot
/// be built. Anything else is tried again while retries are left.
pub open spec fn post_step(result: PostResult, attempt: u32, max_retries: u32) -> PostStep {
    match result {
        PostResult::Status(s) => if 200 <= s <= 299 {
            PostStep::Accepted
        } else if 400 <= s <= 499 || attempt >= max_retries {
            PostStep::Failed
        } else {
            PostStep::Retry
        },
        PostResult::NoReply => if attempt >= max_retries {
            PostStep::Failed
        } else {
            PostStep::Retry
        },
        PostResult::Unbuildable => PostStep::Failed,
    }
}

/// Decides what follows a request. Attempts count from zero.
pub fn after_post(result: PostResult, attempt: u32, max_retries: u32) -> (r: PostStep)
    ensures
        r == post_step(result, attempt, max_retries),
{
    match result {
        PostResult::Status(s) => if 200 <= s && s <= 299 {
            PostStep::Accepted
        } else if (400 <= s && s <= 499) || attempt >= max_retries {
            PostStep::Failed
        } else {
            PostStep::Retry
        },
        PostResult::NoReply => if attempt >= max_retries {
            PostStep::Failed
        } else {
            PostStep::Retry
        },
        PostResult::Unbuildable => PostStep::Failed,
    }
}

/// How many requests are sent from an attempt on, given what each comes to.
pub open spec fn sends(results: spec_fn(u32) -> PostResult, attempt: u32, max_retries: u32) -> int
    decreases max_retries - attempt,
{
    if attempt < max_retries && post_step(results(attempt), attempt, max_retries)
        == PostStep::Retry {
        1 + sends(results, (attempt + 1) as u32, max_retries)
    } else {
        1
    }
}

/// A batch is sent at most once more than retries are allowed, and a client
/// error is never answered by another request.
pub proof fn law_requests_are_bounded(
    results: spec_fn(u32) -> PostResult,
    attempt: u32,
    max_retries: u32,
)
    requires
        attempt <= max_retries,
    ensures
        1 <= sends(results, attempt, max_retries) <= max_retries - attempt + 1,
        (results(attempt) matches PostResult::Status(s) && 400 <= s <= 499) ==> sends(
            results,
            attempt,
            max_retries,
        ) == 1,
    decreases max_retries - attempt,
{
    if attempt < max_retries {
        law_requests_are_bounded(results, (attempt + 1) as u32, max_retries);
    }
}

/// Counts what was read of a reply; says whether reading goes on.
pub fn drain_reply(drained: usize, chunk: usize) -> (r: (usize, bool))
    ensures
        r.0 == if drained + chunk > usize::MAX {
            usize::MAX as int
        } else {
            drained + chunk
        },
        r.1 == (r.0 <= 65536),
{
    let n: usize = drained.saturating_add(chunk);
    (n, n <= 65536)
}

/// What a failed encoding is counted as.
#[derive(Clone, Copy, Debug, PartialEq, Eq, Structural)]
pub enum EncodeDrop {
    /// There was no memory for it.
    Budget,
    /// The rows cannot be encoded.
    Encoding,
}

/// Decides what a failed encoding is counted as.
pub fn encode_drop(code: ErrorCode) -> (r: EncodeDrop)
    ensures
        r == if code == ErrorCode::ResourceExhausted {
            EncodeDrop::Budget
        } else {
            EncodeDrop::Encoding
        },
{
    if code == ErrorCode::ResourceExhausted {
        EncodeDrop::Budget
    } else {
        EncodeDrop::Encoding
    }
}

/// Whether a body can be sent: an array, and no larger than a request may be.
pub open spec fn sendable(body: Result<Vec<u8>, ErrorCode>, cap: usize) -> bool {
    body matches Ok(b) && 2 <= b@.len() <= cap
}

/// Makes a group of one batch out of its encoding. A batch that could not be
/// encoded, or whose encoding is too large for a request, is not sent.
pub fn encoded_delivery(
    body: Result<Vec<u8>, ErrorCode>,
    schema: u64,
    owner: u64,
    rows: usize,
    now_ms: u64,
    cfg: &HttpSinkConfig,
) -> (r: Result<Delivery, EncodeDrop>)
    ensures
        match r {
            Ok(d) => {
                &&& sendable(body, cfg.batch_bytes)
                &&& d.wf()
                &&& d.bytes@ == body->Ok_0@
                &&& d.schema == schema
                &&& d.owner == owner
                &&& d.rows == rows
                &&& d.batches == 1
                &&& d.first_ms == now_ms
            },
            Err(drop) => {
                &&& !sendable(body, cfg.batch_bytes)
                &&& drop == if body == Err::<Vec<u8>, ErrorCode>(ErrorCode::ResourceExhausted) {
                    EncodeDrop::Budget
                } else {
                    EncodeDrop::Encoding
                }
            },
        },
{
    let bytes: Vec<u8> = match body {
        Ok(b) => b,
        Err(code) => {
            return Err(encode_drop(code));
        },
    };
    if bytes.len() < 2 || bytes.len() > cfg.batch_bytes {
        return Err(EncodeDrop::Encoding);
    }
    Ok(Delivery { bytes, schema, owner, rows, batches: 1, first_ms: now_ms })
}

} // verus!
