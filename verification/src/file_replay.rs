//! A file of newline-separated records as a source that can be read again:
//! cuts lie between records, and the file is recognised by its content.

use crate::capabilities::{
    recoverable, recovery_fault, refuse_unsupported_recovery, ConnectorCapabilities,
    RecoveryPolicy, RestoreClaim,
};
use crate::error::{io, refuse, ConnectorError};
use crate::model::{fault, ErrorCode, Fault, Schema, SparrowError};
use crate::mqtt::codec::{part, put_all};
use crate::policy::{check_data_path_in, path_fault, resolved_seen};
use crate::text::{
    cat3, cat4, cat5, chars, dec, decimal, lowered, same, texts, to_lower, trim, trimmed,
};
use vstd::prelude::*;
use vstd::string::*;

verus! {

/// Bytes in one window of the content that the fingerprint reads.
pub const PREFIX: u64 = 4096;

/// The largest record, in bytes.
pub const MAX_RECORD: usize = 65536;

/// The watermark that closes every open window of a finite file.
pub const TERMINAL_WM_MICROS: i64 = 2305843009213693951;

/// How a file may change, and what its end means.
#[derive(Clone, Copy, Debug, PartialEq, Eq, Structural)]
pub enum FileContract {
    /// The content never changes; its end is the end of the stream.
    Immutable,
    /// As [`FileContract::Immutable`]: the file is finite and complete.
    Sealed,
    /// The file may grow; its end only means that nothing more is there yet.
    AppendOnly,
}

impl FileContract {
    /// The contract's name.
    pub open spec fn name(self) -> Seq<char> {
        match self {
            FileContract::AppendOnly => "append_only"@,
            FileContract::Sealed => "sealed"@,
            FileContract::Immutable => "immutable"@,
        }
    }

    /// The contract of that name, or the fault.
    pub open spec fn named(s: Seq<char>) -> Result<FileContract, Fault> {
        let n = lowered(trimmed(s));
        if n == "append_only"@ || n == "append-only"@ || n == "appendonly"@ {
            Ok(FileContract::AppendOnly)
        } else if n == "sealed"@ {
            Ok(FileContract::Sealed)
        } else if n == "immutable"@ {
            Ok(FileContract::Immutable)
        } else {
            Err(
                fault(
                    ErrorCode::InvalidArgument,
                    "file contract `"@ + n
                        + "` is not supported (append_only|sealed|immutable)"@,
                ),
            )
        }
    }

    /// Reads the name of a contract.
    pub fn parse(s: &str) -> (r: Result<Self, ConnectorError>)
        ensures
            crate::error::reported(r) == Self::named(s@),
    {
        let n: String = to_lower(trim(s).as_str());
        let n: &str = n.as_str();
        if same(n, "append_only") || same(n, "append-only") || same(n, "appendonly") {
            Ok(FileContract::AppendOnly)
        } else if same(n, "sealed") {
            Ok(FileContract::Sealed)
        } else if same(n, "immutable") {
            Ok(FileContract::Immutable)
        } else {
            Err(
                ConnectorError::new(
                    ErrorCode::InvalidArgument,
                    cat3(
                        "file contract `",
                        n,
                        "` is not supported (append_only|sealed|immutable)",
                    ),
                ),
            )
        }
    }

    /// The contract's name.
    pub fn as_str(self) -> (r: &'static str)
        ensures
            r@ == self.name(),
    {
        match self {
            FileContract::AppendOnly => "append_only",
            FileContract::Sealed => "sealed",
            FileContract::Immutable => "immutable",
        }
    }

    /// Whether the end of the file is the end of the stream.
    pub fn eof_is_terminal(self) -> (r: bool)
        ensures
            r == (self != FileContract::AppendOnly),
    {
        self != FileContract::AppendOnly
    }

    /// Whether the file may grow.
    pub fn allows_growth(self) -> (r: bool)
        ensures
            r == (self == FileContract::AppendOnly),
    {
        self == FileContract::AppendOnly
    }
}

/// Settings of a file source.
#[derive(Debug)]
pub struct FileReplayConfig {
    pub path: String,
    pub schema: Schema,
    pub restore: RestoreClaim,
    pub recovery: RecoveryPolicy,
    pub contract: FileContract,
    /// A record that cannot be decoded fails the source.
    pub fail_on_decode: bool,
}

impl FileReplayConfig {
    /// A file that never changes, read from its start.
    pub fn new(path: &str, schema: Schema) -> (r: Self)
        ensures
            r.path@ == path@,
            r.schema == schema,
            r.restore is Absent,
            r.recovery == RecoveryPolicy::RestartFresh,
            r.contract == FileContract::Immutable,
            !r.fail_on_decode,
    {
        FileReplayConfig {
            path: path.to_owned(),
            schema,
            restore: RestoreClaim::Absent,
            recovery: RecoveryPolicy::RestartFresh,
            contract: FileContract::Immutable,
            fail_on_decode: false,
        }
    }

    /// What the source declares.
    pub fn capabilities() -> (r: ConnectorCapabilities)
        ensures
            r.kind@ == "file"@,
            r.replay == crate::capabilities::ReplaySupport::Replayable,
            r.delivery == crate::capabilities::DeliveryGuarantee::LiveBestEffort,
            r.recovery == RecoveryPolicy::Aligned,
    {
        ConnectorCapabilities::file_replay()
    }

    /// Why the settings are refused.
    pub open spec fn fault(
        self,
        resolved: Result<Seq<char>, Fault>,
        roots: Seq<Seq<char>>,
    ) -> Option<Fault> {
        if !recoverable(true, self.recovery, self.restore@) {
            Some(recovery_fault("file"@))
        } else {
            path_fault(self.path@, resolved, roots)
        }
    }

    /// Checks the settings: the recovery must be one that a file can keep, and
    /// the file must lie in one of the roots.
    pub fn validate(&self, resolved: Result<String, ConnectorError>, roots: &Vec<String>) -> (r:
        Result<(), ConnectorError>)
        ensures
            match r {
                Ok(()) => self.fault(resolved_seen(resolved), texts(roots@)) is None,
                Err(e) => self.fault(resolved_seen(resolved), texts(roots@)) == Some(e@),
            },
    {
        match refuse_unsupported_recovery("file", true, self.recovery, &self.restore) {
            Ok(()) => {},
            Err(e) => {
                return Err(e);
            },
        }
        check_data_path_in(self.path.as_str(), resolved, roots)
    }
}

/// Where reading stands, and what of the next record has been seen.
pub ghost struct Cursor {
    /// Bytes before the next record.
    pub offset: int,
    /// Records before the next record.
    pub index: int,
    /// The bytes of the next record that were kept.
    pub pending: Seq<u8>,
    /// How many of its bytes were seen.
    pub seen: int,
    /// The record is too large and is being skipped.
    pub discarding: bool,
}

/// Splits a stream of bytes into records.
#[derive(Debug)]
pub struct RecordFramer {
    pub offset: u64,
    pub record_index: u64,
    pub pending: Vec<u8>,
    pub record_bytes: u64,
    pub discarding: bool,
}

impl View for RecordFramer {
    type V = Cursor;

    open spec fn view(&self) -> Cursor {
        Cursor {
            offset: self.offset as int,
            index: self.record_index as int,
            pending: self.pending@,
            seen: self.record_bytes as int,
            discarding: self.discarding,
        }
    }
}

impl Cursor {
    /// What is kept of a record is all that was seen of it and no more than a
    /// record may have; of a record that is being skipped nothing is kept.
    pub open spec fn wf(self) -> bool {
        if self.discarding {
            self.pending.len() == 0 && self.seen > MAX_RECORD
        } else {
            self.pending.len() == self.seen && self.seen <= MAX_RECORD
        }
    }
}

/// What the end of a record gives.
pub ghost enum Ending {
    Blank,
    Oversized,
    Frame(Seq<u8>),
}

/// A line without its newline and a carriage return before it.
pub open spec fn stripped(p: Seq<u8>) -> Seq<u8> {
    let a = if p.len() > 0 && p.last() == 10 {
        p.drop_last()
    } else {
        p
    };
    if a.len() > 0 && a.last() == 13 {
        a.drop_last()
    } else {
        a
    }
}

/// More bytes of the record: the newline at its end does not count towards its
/// size.
pub open spec fn absorbed(c: Cursor, more: Seq<u8>) -> Cursor {
    let newline = more.len() > 0 && more.last() == 10;
    let size = c.pending.len() + more.len() - if newline {
        1int
    } else {
        0int
    };
    if size > MAX_RECORD || c.discarding {
        Cursor {
            pending: Seq::empty(),
            seen: c.seen + more.len(),
            discarding: true,
            ..c
        }
    } else {
        Cursor { pending: c.pending + more, seen: c.seen + more.len(), ..c }
    }
}

/// The record is complete: the cut moves behind it.
pub open spec fn finished(c: Cursor) -> (Cursor, Ending) {
    (
        Cursor {
            offset: c.offset + c.seen,
            index: c.index + 1,
            pending: Seq::empty(),
            seen: 0,
            discarding: false,
        },
        if c.discarding {
            Ending::Oversized
        } else if stripped(c.pending).len() == 0 {
            Ending::Blank
        } else {
            Ending::Frame(stripped(c.pending))
        },
    )
}

/// Where the first newline stands.
pub open spec fn newline_at(b: Seq<u8>) -> Option<int>
    decreases b.len(),
{
    if b.len() == 0 {
        None
    } else if b[0] == 10 {
        Some(0)
    } else {
        match newline_at(b.skip(1)) {
            Some(i) => Some(i + 1),
            None => None,
        }
    }
}

/// What reading a chunk gives: the bytes taken, where reading then stands, and
/// the ending of the record where the chunk holds one.
pub open spec fn scanned(c: Cursor, chunk: Seq<u8>) -> (int, Cursor, Option<Ending>) {
    match newline_at(chunk) {
        None => (chunk.len() as int, absorbed(c, chunk), None),
        Some(i) => {
            let (d, e) = finished(absorbed(c, chunk.take(i + 1)));
            (i + 1, d, Some(e))
        },
    }
}

/// What reading a chunk gives.
#[derive(Debug)]
pub enum FrameEvent {
    /// The record goes on.
    More,
    /// An empty record was passed.
    Blank,
    /// A record that is too large was passed.
    Oversized,
    /// A record.
    Frame(Vec<u8>),
}

/// An event by what it holds.
pub open spec fn ending_of(e: FrameEvent) -> Option<Ending> {
    match e {
        FrameEvent::More => None,
        FrameEvent::Blank => Some(Ending::Blank),
        FrameEvent::Oversized => Some(Ending::Oversized),
        FrameEvent::Frame(b) => Some(Ending::Frame(b@)),
    }
}

fn find_newline(b: &[u8], limit: usize) -> (r: Option<usize>)
    requires
        limit <= b.len(),
    ensures
        match r {
            Some(i) => i < limit && newline_at(b@.take(limit as int)) == Some(i as int)
                && b@[i as int] == 10,
            None => newline_at(b@.take(limit as int)) is None && forall|j: int|
                0 <= j < limit ==> b@[j] != 10,
        },
{
    let ghost c = b@.take(limit as int);
    let mut i: usize = 0;
    assert(c.skip(0) == c);
    while i < limit
        invariant
            i <= limit <= b.len(),
            c == b@.take(limit as int),
            newline_at(c) == match newline_at(c.skip(i as int)) {
                Some(k) => Some(k + i),
                None => None::<int>,
            },
            forall|j: int| 0 <= j < i ==> b@[j] != 10,
        decreases limit - i,
    {
        assert(c.skip(i as int)[0] == b@[i as int]);
        if b[i] == 10 {
            return Some(i);
        }
        assert(c.skip(i as int).skip(1) == c.skip(i + 1));
        i = i + 1;
    }
    None
}

impl RecordFramer {
    /// Reading starts at the beginning.
    pub fn new() -> (r: Self)
        ensures
            r@.wf(),
            r@ == (Cursor {
                offset: 0,
                index: 0,
                pending: Seq::empty(),
                seen: 0,
                discarding: false,
            }),
    {
        RecordFramer {
            offset: 0,
            record_index: 0,
            pending: Vec::new(),
            record_bytes: 0,
            discarding: false,
        }
    }

    /// Completes the record.
    pub fn finish_record(&mut self) -> (r: FrameEvent)
        requires
            old(self)@.discarding ==> old(self)@.pending.len() == 0,
            old(self).offset + old(self).record_bytes <= u64::MAX,
            old(self).record_index < u64::MAX,
        ensures
            final(self)@.wf(),
            final(self)@ == finished(old(self)@).0,
            ending_of(r) == Some(finished(old(self)@).1),
    {
        self.offset = self.offset + self.record_bytes;
        self.record_index = self.record_index + 1;
        self.record_bytes = 0;
        if self.discarding {
            self.discarding = false;
            assert(self.pending@ =~= Seq::<u8>::empty());
            return FrameEvent::Oversized;
        }
        let mut line: Vec<u8> = Vec::new();
        std::mem::swap(&mut line, &mut self.pending);
        if line.len() > 0 && line[line.len() - 1] == 10 {
            line.pop();
        }
        if line.len() > 0 && line[line.len() - 1] == 13 {
            line.pop();
        }
        assert(line@ =~= stripped(old(self).pending@));
        assert(self.pending@ =~= Seq::<u8>::empty());
        if line.len() == 0 {
            FrameEvent::Blank
        } else {
            FrameEvent::Frame(line)
        }
    }

    /// Reads from a chunk of at most `budget` bytes up to the end of the record
    /// or of the chunk.
    pub fn scan(&mut self, available: &[u8], budget: usize) -> (r: (usize, FrameEvent))
        requires
            old(self)@.wf(),
            available.len() > 0,
            budget > 0,
            old(self).offset + old(self).record_bytes + available.len() <= u64::MAX,
            old(self).record_index < u64::MAX,
        ensures
            final(self)@.wf(),
            0 < r.0 <= available.len(),
            r.0 <= budget,
            ({
                let chunk = available@.take(
                    if available@.len() < budget {
                        available@.len() as int
                    } else {
                        budget as int
                    },
                );
                let (n, d, e) = scanned(old(self)@, chunk);
                r.0 == n && final(self)@ == d && ending_of(r.1) == e
            }),
    {
        let limit: usize = if available.len() < budget {
            available.len()
        } else {
            budget
        };
        let ghost chunk = available@.take(limit as int);
        let newline: Option<usize> = find_newline(available, limit);
        let take: usize = match newline {
            Some(i) => i + 1,
            None => limit,
        };
        let counted: usize = match newline {
            Some(i) => i,
            None => limit,
        };
        let ghost more = available@.take(take as int);
        assert(more.last() == available@[take - 1]);
        assert(newline is None ==> more =~= chunk);
        assert(newline is Some ==> more =~= chunk.take(take as int));
        if self.discarding || counted > MAX_RECORD || self.pending.len() + counted > MAX_RECORD {
            self.pending = Vec::new();
            self.discarding = true;
        } else {
            let piece: Vec<u8> = part(available, 0, take);
            assert(piece@ =~= more);
            put_all(&mut self.pending, piece.as_slice());
        }
        self.record_bytes = self.record_bytes + take as u64;
        assert(self@.pending =~= absorbed(old(self)@, more).pending);
        assert(self@ == absorbed(old(self)@, more));
        match newline {
            None => (take, FrameEvent::More),
            Some(_) => {
                let e: FrameEvent = self.finish_record();
                (take, e)
            },
        }
    }
}

/// What looking for the next record gives.
pub ghost enum Found {
    /// All bytes were read; more are needed.
    NeedMore,
    /// The budget is used up; this is not the end of the file.
    Pending,
    /// The end of the file.
    End,
    Oversized,
    Frame(Seq<u8>),
}

/// Reads from `b` until a record is complete, the bytes or the budget end.
/// Empty records are passed over.
pub open spec fn read_from(c: Cursor, b: Seq<u8>, budget: int) -> (int, Cursor, Found)
    decreases b.len(),
{
    if budget <= 0 {
        (0, c, Found::Pending)
    } else if b.len() == 0 {
        (0, c, Found::NeedMore)
    } else {
        let chunk = b.take(
            if b.len() < budget {
                b.len() as int
            } else {
                budget
            },
        );
        let (n, d, e) = scanned(c, chunk);
        if n <= 0 || n > b.len() {
            (0, c, Found::NeedMore)
        } else {
            match e {
                Some(Ending::Oversized) => (n, d, Found::Oversized),
                Some(Ending::Frame(f)) => (n, d, Found::Frame(f)),
                _ => {
                    let (m, x, f) = read_from(d, b.skip(n), budget - n);
                    (n + m, x, f)
                },
            }
        }
    }
}

/// What looking for the next record gives.
#[derive(Debug)]
pub enum ReadOutcome {
    NeedMore,
    Pending,
    End,
    Oversized,
    Frame(Vec<u8>),
}

/// An outcome by what it holds.
pub open spec fn found_of(r: ReadOutcome) -> Found {
    match r {
        ReadOutcome::NeedMore => Found::NeedMore,
        ReadOutcome::Pending => Found::Pending,
        ReadOutcome::End => Found::End,
        ReadOutcome::Oversized => Found::Oversized,
        ReadOutcome::Frame(b) => Found::Frame(b@),
    }
}

/// What the end of the file gives. A finite file may end without a newline;
/// of a growing one the incomplete record is kept.
pub open spec fn at_end(c: Cursor, terminal: bool) -> (Cursor, Found) {
    if !terminal || c.seen == 0 {
        (c, Found::End)
    } else {
        let (d, e) = finished(c);
        (
            d,
            match e {
                Ending::Blank => Found::End,
                Ending::Oversized => Found::Oversized,
                Ending::Frame(f) => Found::Frame(f),
            },
        )
    }
}

/// One step of reading: `b` are the bytes that are there, none at the end of the
/// file.
pub open spec fn stepped(c: Cursor, b: Seq<u8>, budget: int, terminal: bool) -> (
    int,
    Cursor,
    Found,
) {
    if budget <= 0 {
        (0, c, Found::Pending)
    } else if b.len() == 0 {
        let (d, f) = at_end(c, terminal);
        (0, d, f)
    } else {
        read_from(c, b, budget)
    }
}

impl RecordFramer {
    /// Looks for the next record in bytes that were read; says how many of them
    /// were taken.
    pub fn read_frame(&mut self, available: &[u8], scan_budget: usize) -> (r: (
        usize,
        ReadOutcome,
    ))
        requires
            old(self)@.wf(),
            old(self).offset + old(self).record_bytes + available.len() <= u64::MAX,
            old(self).record_index + available.len() <= u64::MAX,
        ensures
            final(self)@.wf(),
            r.0 <= available.len(),
            ({
                let (n, d, f) = read_from(old(self)@, available@, scan_budget as int);
                r.0 == n && final(self)@ == d && found_of(r.1) == f
            }),
    {
        let mut at: usize = 0;
        let mut budget: usize = scan_budget;
        assert(available@.skip(0) == available@);
        loop
            invariant
                at <= available.len(),
                self@.wf(),
                self.offset + self.record_bytes + (available.len() - at) <= u64::MAX,
                self.record_index + (available.len() - at) <= u64::MAX,
                ({
                    let (n, d, f) = read_from(old(self)@, available@, scan_budget as int);
                    let (m, x, g) = read_from(self@, available@.skip(at as int), budget as int);
                    n == at + m && d == x && f == g
                }),
            decreases available.len() - at,
        {
            if budget == 0 {
                return (at, ReadOutcome::Pending);
            }
            if at == available.len() {
                return (at, ReadOutcome::NeedMore);
            }
            let rest: Vec<u8> = part(available, at, available.len());
            assert(rest@ == available@.skip(at as int));
            let ghost before = self@;
            let (n, event): (usize, FrameEvent) = self.scan(rest.as_slice(), budget);
            assert(available@.skip(at as int).skip(n as int) == available@.skip(at + n));
            at = at + n;
            budget = budget - n;
            match event {
                FrameEvent::Frame(b) => {
                    return (at, ReadOutcome::Frame(b));
                },
                FrameEvent::Oversized => {
                    return (at, ReadOutcome::Oversized);
                },
                _ => {},
            }
        }
    }

    /// Takes note of the end of the file.
    pub fn end_of_file(&mut self, contract: FileContract) -> (r: ReadOutcome)
        requires
            old(self)@.wf(),
            old(self).offset + old(self).record_bytes <= u64::MAX,
            old(self).record_index < u64::MAX,
        ensures
            final(self)@.wf(),
            final(self)@ == at_end(old(self)@, contract != FileContract::AppendOnly).0,
            found_of(r) == at_end(old(self)@, contract != FileContract::AppendOnly).1,
    {
        if !contract.eof_is_terminal() || self.record_bytes == 0 {
            return ReadOutcome::End;
        }
        match self.finish_record() {
            FrameEvent::Frame(b) => ReadOutcome::Frame(b),
            FrameEvent::Oversized => ReadOutcome::Oversized,
            _ => ReadOutcome::End,
        }
    }

    /// Takes one step: looks at the bytes that are there, within the budget, or
    /// takes note of the end of the file where there are none. Says how many
    /// bytes were taken.
    pub fn step(&mut self, available: &[u8], budget: usize, contract: FileContract) -> (r: (
        usize,
        ReadOutcome,
    ))
        requires
            old(self)@.wf(),
            old(self).offset + old(self).record_bytes + available.len() <= u64::MAX,
            old(self).record_index + available.len() < u64::MAX,
        ensures
            final(self)@.wf(),
            r.0 <= available.len(),
            ({
                let (n, d, f) = stepped(
                    old(self)@,
                    available@,
                    budget as int,
                    contract != FileContract::AppendOnly,
                );
                r.0 == n && final(self)@ == d && found_of(r.1) == f
            }),
    {
        if budget == 0 {
            return (0, ReadOutcome::Pending);
        }
        if available.len() == 0 {
            return (0, self.end_of_file(contract));
        }
        self.read_frame(available, budget)
    }
}

/// How a record is cut into chunks does not matter: bytes without a newline
/// followed by more bytes are taken in as both together.
pub proof fn law_chunks_join(c: Cursor, a: Seq<u8>, b: Seq<u8>)
    requires
        c.wf(),
        !a.contains(10),
    ensures
        absorbed(absorbed(c, a), b) == absorbed(c, a + b),
{
    let whole = a + b;
    if a.len() > 0 {
        assert(a.contains(a.last()));
    }
    if b.len() == 0 {
        assert(whole =~= a);
        assert(absorbed(c, a).pending + b =~= absorbed(c, a).pending);
    } else {
        assert(whole.last() == b.last());
        assert((c.pending + a) + b =~= c.pending + whole);
    }
}

/// A line that is not too large is one record: exactly its text comes out, and
/// the cut moves behind its newline.
pub proof fn law_line_is_one_record(c: Cursor, line: Seq<u8>, rest: Seq<u8>)
    requires
        c.wf(),
        c.seen == 0,
        !line.contains(10),
        line.len() <= MAX_RECORD,
        stripped(line.push(10)).len() > 0,
    ensures
        ({
            let b = line.push(10) + rest;
            let (n, d, e) = scanned(c, b);
            &&& n == line.len() + 1
            &&& d.offset == c.offset + n
            &&& d.index == c.index + 1
            &&& d.wf()
            &&& d.seen == 0
            &&& e == Some(Ending::Frame(stripped(line.push(10))))
        }),
{
    let b = line.push(10) + rest;
    lemma_newline_found(line, rest);
    assert(b.take(line.len() as int + 1) =~= line.push(10));
    assert(c.pending =~= Seq::<u8>::empty());
    assert(c.pending + line.push(10) =~= line.push(10));
}

pub(crate) proof fn lemma_newline_found(line: Seq<u8>, rest: Seq<u8>)
    requires
        !line.contains(10),
    ensures
        newline_at(line.push(10) + rest) == Some(line.len() as int),
    decreases line.len(),
{
    let b = line.push(10) + rest;
    if line.len() == 0 {
        assert(b[0] == 10);
    } else {
        assert(line.contains(line[0]));
        assert(b[0] == line[0]);
        let tail = line.skip(1);
        assert(b.skip(1) =~= tail.push(10) + rest);
        assert forall|i: int| 0 <= i < tail.len() implies tail[i] != 10 by {
            assert(line.contains(line[i + 1]));
        }
        assert(!tail.contains(10));
        lemma_newline_found(tail, rest);
    }
}

/// Reading never loses its place: the cut and what was seen behind it move
/// together by the bytes that were taken.
pub proof fn law_every_byte_is_accounted_for(c: Cursor, b: Seq<u8>, budget: int)
    requires
        c.wf(),
    ensures
        ({
            let (n, d, f) = read_from(c, b, budget);
            d.offset + d.seen == c.offset + c.seen + n && d.offset >= c.offset && d.index
                >= c.index && 0 <= n <= b.len()
        }),
    decreases b.len(),
{
    if budget > 0 && b.len() > 0 {
        let chunk = b.take(
            if b.len() < budget {
                b.len() as int
            } else {
                budget
            },
        );
        let (n, d, e) = scanned(c, chunk);
        lemma_newline_range(chunk);
        if 0 < n <= b.len() {
            match e {
                Some(Ending::Oversized) => {},
                Some(Ending::Frame(_)) => {},
                _ => {
                    lemma_scanned_wf(c, chunk);
                    law_every_byte_is_accounted_for(d, b.skip(n), budget - n);
                },
            }
        }
    }
}

pub(crate) proof fn lemma_newline_range(b: Seq<u8>)
    ensures
        match newline_at(b) {
            Some(i) => 0 <= i < b.len() && b[i] == 10,
            None => forall|j: int| 0 <= j < b.len() ==> b[j] != 10,
        },
    decreases b.len(),
{
    if b.len() > 0 && b[0] != 10 {
        lemma_newline_range(b.skip(1));
        assert forall|j: int| newline_at(b) is None && 0 <= j < b.len() implies b[j] != 10 by {
            if j > 0 {
                assert(b.skip(1)[j - 1] == b[j]);
            }
        }
    }
}

proof fn lemma_scanned_wf(c: Cursor, chunk: Seq<u8>)
    requires
        c.wf(),
    ensures
        scanned(c, chunk).1.wf(),
{
    lemma_newline_range(chunk);
}

/// What a file is recognised by.
#[derive(Debug)]
pub struct SourceIdentity {
    pub path: String,
    pub size: u64,
    pub fingerprint: u64,
}

impl Clone for SourceIdentity {
    fn clone(&self) -> (r: Self)
        ensures
            r == *self,
    {
        SourceIdentity {
            path: self.path.clone(),
            size: self.size,
            fingerprint: self.fingerprint,
        }
    }
}

/// A cut between two records of a file.
#[derive(Clone, Debug)]
pub struct SourcePosition {
    pub offset_bytes: u64,
    pub record_index: u64,
    pub identity: SourceIdentity,
}

/// One step of the 64-bit FNV-1a hash.
pub open spec fn fnv_step(h: u64, b: u8) -> u64 {
    (h ^ (b as u64)).wrapping_mul(0x100000001b3)
}

/// The 64-bit FNV-1a hash from a state on.
pub open spec fn fnv_from(h: u64, b: Seq<u8>) -> u64
    decreases b.len(),
{
    if b.len() == 0 {
        h
    } else {
        fnv_step(fnv_from(h, b.drop_last()), b.last())
    }
}

/// The 64-bit FNV-1a hash.
pub open spec fn fnv(b: Seq<u8>) -> u64 {
    fnv_from(0xcbf29ce484222325, b)
}

/// Hashes bytes from a state on.
pub fn fnv_continue(h: u64, b: &[u8]) -> (r: u64)
    ensures
        r == fnv_from(h, b@),
{
    let mut x: u64 = h;
    let mut i: usize = 0;
    assert(b@.take(0) == Seq::<u8>::empty());
    while i < b.len()
        invariant
            i <= b.len(),
            x == fnv_from(h, b@.take(i as int)),
        decreases b.len() - i,
    {
        assert(b@.take(i + 1).drop_last() == b@.take(i as int));
        assert(b@.take(i + 1).last() == b@[i as int]);
        x = (x ^ (b[i] as u64)).wrapping_mul(0x100000001b3);
        i = i + 1;
    }
    assert(b@.take(b@.len() as int) == b@);
    x
}

/// Hashes bytes with 64-bit FNV-1a.
pub fn fnv1a64(b: &[u8]) -> (r: u64)
    ensures
        r == fnv(b@),
{
    fnv_continue(0xcbf29ce484222325, b)
}

/// The eight bytes of a number, lowest first.
pub open spec fn le_bytes(n: u64) -> Seq<u8> {
    seq![
        (n % 256) as u8,
        (n / 0x100 % 256) as u8,
        (n / 0x10000 % 256) as u8,
        (n / 0x1000000 % 256) as u8,
        (n / 0x100000000 % 256) as u8,
        (n / 0x10000000000 % 256) as u8,
        (n / 0x1000000000000 % 256) as u8,
        (n / 0x100000000000000 % 256) as u8,
    ]
}

fn put_le(out: &mut Vec<u8>, n: u64)
    ensures
        final(out)@ == old(out)@ + le_bytes(n),
{
    out.push((n % 256) as u8);
    out.push((n / 0x100 % 256) as u8);
    out.push((n / 0x10000 % 256) as u8);
    out.push((n / 0x1000000 % 256) as u8);
    out.push((n / 0x100000000 % 256) as u8);
    out.push((n / 0x10000000000 % 256) as u8);
    out.push((n / 0x1000000000000 % 256) as u8);
    out.push((n / 0x100000000000000 % 256) as u8);
    assert(out@ =~= old(out)@ + le_bytes(n));
}

/// Where a window starts that should start at `at`: at a byte of the file.
pub open spec fn window_start(size: u64, at: int) -> u64 {
    (if at < size - 1 {
        at
    } else {
        size - 1
    }) as u64
}

/// How long a window is.
pub open spec fn window_len(size: u64, start: u64) -> int {
    if size - start < PREFIX {
        size - start
    } else {
        PREFIX as int
    }
}

/// The starts of the three windows of a file that is not empty: at its
/// beginning, in its middle and at its end.
pub open spec fn window_starts(size: u64) -> Seq<u64> {
    if size == 0 {
        Seq::empty()
    } else {
        seq![
            window_start(size, 0),
            window_start(size, size as int / 2),
            window_start(
                size,
                if size < PREFIX {
                    0
                } else {
                    size - PREFIX
                },
            ),
        ]
    }
}

/// The windows to read, each with its start and its length.
pub fn fingerprint_windows(size: u64) -> (r: Vec<(u64, u64)>)
    ensures
        r@.len() == window_starts(size).len(),
        forall|i: int|
            0 <= i < r@.len() ==> (#[trigger] r@[i]).0 == window_starts(size)[i] && r@[i].1
                == window_len(size, r@[i].0) && r@[i].0 + r@[i].1 <= size && r@[i].1 > 0,
{
    let mut out: Vec<(u64, u64)> = Vec::new();
    if size == 0 {
        return out;
    }
    let last: u64 = size - 1;
    let mid: u64 = if size / 2 < last {
        size / 2
    } else {
        last
    };
    let tail_at: u64 = if size < PREFIX {
        0
    } else {
        size - PREFIX
    };
    let tail: u64 = if tail_at < last {
        tail_at
    } else {
        last
    };
    let head_len: u64 = if size < PREFIX {
        size
    } else {
        PREFIX
    };
    let mid_len: u64 = if size - mid < PREFIX {
        size - mid
    } else {
        PREFIX
    };
    let tail_len: u64 = if size - tail < PREFIX {
        size - tail
    } else {
        PREFIX
    };
    out.push((0, head_len));
    out.push((mid, mid_len));
    out.push((tail, tail_len));
    out
}

/// What the windows add to the mix: where each starts and the hash of what it
/// holds.
pub open spec fn window_mix(starts: Seq<u64>, parts: Seq<Seq<u8>>) -> Seq<u8>
    decreases starts.len(),
{
    if starts.len() == 0 {
        Seq::empty()
    } else {
        window_mix(starts.drop_last(), parts.drop_last()) + le_bytes(starts.last()) + le_bytes(
            fnv(parts.last()),
        )
    }
}

/// The fingerprint of a file from its size and the content of its windows.
pub open spec fn fingerprint_of(size: u64, parts: Seq<Seq<u8>>) -> u64 {
    fnv(le_bytes(size) + window_mix(window_starts(size), parts))
}

/// Byte strings by what they hold.
pub open spec fn contents(v: Seq<Vec<u8>>) -> Seq<Seq<u8>> {
    v.map_values(|b: Vec<u8>| b@)
}

/// Computes the fingerprint of a file from its size and the content of its
/// windows.
pub fn content_fingerprint(size: u64, parts: &Vec<Vec<u8>>) -> (r: u64)
    requires
        parts@.len() == window_starts(size).len(),
    ensures
        r == fingerprint_of(size, contents(parts@)),
{
    let mut mix: Vec<u8> = Vec::new();
    put_le(&mut mix, size);
    assert(mix@ =~= le_bytes(size));
    let windows: Vec<(u64, u64)> = fingerprint_windows(size);
    let ghost starts = window_starts(size);
    let ghost c = contents(parts@);
    let mut i: usize = 0;
    assert(starts.take(0) == Seq::<u64>::empty());
    assert(mix@ =~= le_bytes(size) + window_mix(starts.take(0), c.take(0)));
    while i < windows.len()
        invariant
            i <= windows.len(),
            windows@.len() == starts.len(),
            parts@.len() == starts.len(),
            c == contents(parts@),
            forall|j: int| 0 <= j < windows@.len() ==> (#[trigger] windows@[j]).0 == starts[j],
            mix@ == le_bytes(size) + window_mix(starts.take(i as int), c.take(i as int)),
        decreases windows.len() - i,
    {
        let ghost before = mix@;
        put_le(&mut mix, windows[i].0);
        put_le(&mut mix, fnv1a64(parts[i].as_slice()));
        proof {
            assert(starts.take(i + 1).drop_last() == starts.take(i as int));
            assert(starts.take(i + 1).last() == starts[i as int]);
            assert(c.take(i + 1).drop_last() == c.take(i as int));
            assert(c.take(i + 1).last() == parts@[i as int]@);
            assert(mix@ =~= le_bytes(size) + window_mix(starts.take(i + 1), c.take(i + 1)));
        }
        i = i + 1;
    }
    assert(starts.take(starts.len() as int) == starts);
    assert(c.take(c.len() as int) == c);
    fnv1a64(mix.as_slice())
}

/// Why a file is not the one that a position was taken in; where it may have
/// grown, how many of its bytes have to be recognised.
pub open spec fn identity_step(
    contract: FileContract,
    path: Seq<char>,
    stored: SourceIdentity,
    live: SourceIdentity,
) -> Result<Option<u64>, Fault> {
    if stored.path@ != live.path@ {
        Err(fault(ErrorCode::UnsupportedRestore, "file path identity mismatch"@))
    } else if contract != FileContract::AppendOnly {
        if stored.size != live.size || stored.fingerprint != live.fingerprint {
            Err(
                fault(
                    ErrorCode::UnsupportedRestore,
                    "file '"@ + path + "' was replaced or rotated ("@ + contract.name()
                        + " contract)"@,
                ),
            )
        } else {
            Ok(None)
        }
    } else if live.size < stored.size {
        Err(
            fault(
                ErrorCode::UnsupportedRestore,
                "file '"@ + path + "' truncated under append contract ("@ + decimal(
                    live.size as nat,
                ) + " < "@ + decimal(stored.size as nat) + ")"@,
            ),
        )
    } else {
        Ok(Some(stored.size))
    }
}

/// Compares a stored identity with the file as it is.
pub fn check_identity(
    contract: FileContract,
    path: &str,
    stored: &SourceIdentity,
    live: &SourceIdentity,
) -> (r: Result<Option<u64>, ConnectorError>)
    ensures
        crate::error::reported(r) == identity_step(contract, path@, *stored, *live),
{
    if !same(stored.path.as_str(), live.path.as_str()) {
        return Err(refuse(ErrorCode::UnsupportedRestore, "file path identity mismatch"));
    }
    if contract.eof_is_terminal() {
        if stored.size != live.size || stored.fingerprint != live.fingerprint {
            return Err(
                ConnectorError::new(
                    ErrorCode::UnsupportedRestore,
                    cat5(
                        "file '",
                        path,
                        "' was replaced or rotated (",
                        contract.as_str(),
                        " contract)",
                    ),
                ),
            );
        }
        return Ok(None);
    }
    if live.size < stored.size {
        let head: String = cat4(
            "file '",
            path,
            "' truncated under append contract (",
            dec(live.size).as_str(),
        );
        return Err(
            ConnectorError::new(
                ErrorCode::UnsupportedRestore,
                cat4(head.as_str(), " < ", dec(stored.size).as_str(), ")"),
            ),
        );
    }
    Ok(Some(stored.size))
}

/// The fault for a file whose content before the cut is another.
pub open spec fn prefix_fault(path: Seq<char>) -> Fault {
    fault(
        ErrorCode::UnsupportedRestore,
        "file '"@ + path + "' prefix before cut changed (append contract)"@,
    )
}

/// Compares the fingerprint of the content before the cut.
pub fn check_cut(path: &str, stored: &SourceIdentity, cut_fingerprint: u64) -> (r: Result<
    (),
    ConnectorError,
>)
    ensures
        match r {
            Ok(()) => cut_fingerprint == stored.fingerprint,
            Err(e) => cut_fingerprint != stored.fingerprint && e@ == prefix_fault(path@),
        },
{
    if cut_fingerprint != stored.fingerprint {
        return Err(
            ConnectorError::new(
                ErrorCode::UnsupportedRestore,
                cat3("file '", path, "' prefix before cut changed (append contract)"),
            ),
        );
    }
    Ok(())
}

/// Why reading cannot go on from an offset. `before` is the byte before it.
pub open spec fn seek_fault(
    contract: FileContract,
    path: Seq<char>,
    offset: u64,
    size: u64,
    before: Option<u8>,
) -> Option<Fault> {
    if offset > size {
        Some(
            fault(
                ErrorCode::UnsupportedRestore,
                "file '"@ + path + "' rotated/truncated: offset "@ + decimal(offset as nat)
                    + " > size "@ + decimal(size as nat),
            ),
        )
    } else if offset > 0 && before != Some(10u8) && !(contract != FileContract::AppendOnly && offset
        == size) {
        Some(
            fault(
                ErrorCode::InvalidArgument,
                "seek offset "@ + decimal(offset as nat)
                    + " is not a message boundary (mid-record cut rejected)"@,
            ),
        )
    } else {
        None
    }
}

/// Why reading cannot be resumed at a position: the file is another, its content
/// before the position is another, or the position is no cut. `start` is the
/// fingerprint of as many of its first bytes as the file had when the position
/// was taken.
pub open spec fn resume_fault(
    contract: FileContract,
    path: Seq<char>,
    pos: SourcePosition,
    live: SourceIdentity,
    start: u64,
    before: Option<u8>,
) -> Option<Fault> {
    match identity_step(contract, path, pos.identity, live) {
        Err(f) => Some(f),
        Ok(grown) => if grown is Some && start != pos.identity.fingerprint {
            Some(prefix_fault(path))
        } else {
            seek_fault(contract, path, pos.offset_bytes, live.size, before)
        },
    }
}

/// A cursor at a cut: nothing of the next record is read.
pub open spec fn sought(offset: u64, index: u64) -> Cursor {
    Cursor {
        offset: offset as int,
        index: index as int,
        pending: Seq::empty(),
        seen: 0,
        discarding: false,
    }
}

/// Checks whether reading can go on from an offset: only behind a newline, or
/// at the end of a finite file.
pub fn check_seek(
    contract: FileContract,
    path: &str,
    offset: u64,
    size: u64,
    before: Option<u8>,
) -> (r: Result<(), SparrowError>)
    ensures
        match r {
            Ok(()) => seek_fault(contract, path@, offset, size, before) is None,
            Err(e) => seek_fault(contract, path@, offset, size, before) == Some(e@),
        },
{
    if offset > size {
        let head: String = cat4(
            "file '",
            path,
            "' rotated/truncated: offset ",
            dec(offset).as_str(),
        );
        return Err(
            SparrowError::new(
                ErrorCode::UnsupportedRestore,
                cat3(head.as_str(), " > size ", dec(size).as_str()),
            ),
        );
    }
    let newline: bool = match before {
        Some(b) => b == 10,
        None => false,
    };
    if offset > 0 && !newline && !(contract.eof_is_terminal() && offset == size) {
        return Err(
            SparrowError::new(
                ErrorCode::InvalidArgument,
                cat3(
                    "seek offset ",
                    dec(offset).as_str(),
                    " is not a message boundary (mid-record cut rejected)",
                ),
            ),
        );
    }
    Ok(())
}

/// What a file source knows besides the open file.
#[derive(Debug)]
pub struct FileReplaySource {
    pub path: String,
    pub identity: SourceIdentity,
    pub framer: RecordFramer,
    pub contract: FileContract,
}

impl FileReplaySource {
    /// A source at the beginning of a file that was just opened.
    pub fn open(cfg: &FileReplayConfig, size: u64, fingerprint: u64) -> (r: Self)
        ensures
            r.path@ == cfg.path@,
            r.identity.path@ == cfg.path@,
            r.identity.size == size,
            r.identity.fingerprint == fingerprint,
            r.contract == cfg.contract,
            r.framer@.wf(),
            r.framer@.offset == 0,
            r.framer@.index == 0,
            r.framer@.seen == 0,
    {
        FileReplaySource {
            path: cfg.path.clone(),
            identity: SourceIdentity { path: cfg.path.clone(), size, fingerprint },
            framer: RecordFramer::new(),
            contract: cfg.contract,
        }
    }

    /// What the file was recognised by when it was opened.
    pub fn identity(&self) -> (r: &SourceIdentity)
        ensures
            *r == self.identity,
    {
        &self.identity
    }

    /// The cut before the next record.
    pub fn position(&self) -> (r: SourcePosition)
        ensures
            r.offset_bytes == self.framer@.offset,
            r.record_index == self.framer@.index,
            r.identity == self.identity,
    {
        SourcePosition {
            offset_bytes: self.framer.offset,
            record_index: self.framer.record_index,
            identity: self.identity.clone(),
        }
    }

    /// Goes to a cut, where reading can go on from it. `size` is the length of the
    /// file, and `before` is the byte before the cut.
    pub fn seek(&mut self, pos: &SourcePosition, size: u64, before: Option<u8>) -> (r: Result<
        (),
        SparrowError,
    >)
        ensures
            final(self).path == old(self).path,
            final(self).identity == old(self).identity,
            final(self).contract == old(self).contract,
            match r {
                Ok(()) => {
                    &&& seek_fault(
                        old(self).contract,
                        old(self).path@,
                        pos.offset_bytes,
                        size,
                        before,
                    ) is None
                    &&& final(self).framer@ == sought(pos.offset_bytes, pos.record_index)
                    &&& final(self).framer@.wf()
                },
                Err(e) => {
                    &&& seek_fault(
                        old(self).contract,
                        old(self).path@,
                        pos.offset_bytes,
                        size,
                        before,
                    ) == Some(e@)
                    &&& final(self).framer == old(self).framer
                },
            },
    {
        check_seek(self.contract, self.path.as_str(), pos.offset_bytes, size, before)?;
        self.framer = RecordFramer {
            offset: pos.offset_bytes,
            record_index: pos.record_index,
            pending: Vec::new(),
            record_bytes: 0,
            discarding: false,
        };
        Ok(())
    }

    /// Goes to a position that was taken earlier, where the file is still the one
    /// that it was taken in.
    pub fn resume(
        &mut self,
        pos: &SourcePosition,
        live: &SourceIdentity,
        start: u64,
        before: Option<u8>,
    ) -> (r: Result<(), SparrowError>)
        ensures
            final(self).path == old(self).path,
            final(self).identity == old(self).identity,
            final(self).contract == old(self).contract,
            ({
                let f = resume_fault(
                    old(self).contract,
                    old(self).path@,
                    *pos,
                    *live,
                    start,
                    before,
                );
                match r {
                    Ok(()) => {
                        &&& f is None
                        &&& final(self).framer@ == sought(pos.offset_bytes, pos.record_index)
                        &&& final(self).framer@.wf()
                    },
                    Err(e) => f == Some(e@) && final(self).framer == old(self).framer,
                }
            }),
    {
        match check_identity(self.contract, self.path.as_str(), &pos.identity, live) {
            Err(e) => {
                return Err(io(e));
            },
            Ok(None) => {},
            Ok(Some(_)) => {
                match check_cut(self.path.as_str(), &pos.identity, start) {
                    Err(e) => {
                        return Err(io(e));
                    },
                    Ok(()) => {},
                }
            },
        }
        self.seek(pos, live.size, before)
    }
}

/// As long as a file is unchanged, reading resumes at any of its cuts; a file that
/// may grow can have grown since.
pub proof fn law_unchanged_file_is_resumed(
    contract: FileContract,
    path: Seq<char>,
    pos: SourcePosition,
    live: SourceIdentity,
    before: Option<u8>,
)
    requires
        pos.identity.path@ == live.path@,
        pos.offset_bytes <= live.size,
        pos.offset_bytes == 0 || before == Some(10u8) || (contract != FileContract::AppendOnly
            && pos.offset_bytes == live.size),
        if contract == FileContract::AppendOnly {
            pos.identity.size <= live.size
        } else {
            pos.identity.size == live.size && pos.identity.fingerprint == live.fingerprint
        },
    ensures
        resume_fault(contract, path, pos, live, pos.identity.fingerprint, before) is None,
{
}

/// A cut that a source hands out is one that it takes back: going to it gives
/// the same cut again.
pub proof fn law_cut_is_taken_back(offset: u64, index: u64, c: Cursor)
    requires
        c.offset == offset,
        c.index == index,
        c.seen == 0,
        c.wf(),
    ensures
        c == sought(offset, index),
{
    assert(c.pending =~= Seq::<u8>::empty());
}

/// Text of records, one to a line.
pub open spec fn lines_text(lines: Seq<Seq<char>>) -> Seq<char>
    decreases lines.len(),
{
    if lines.len() == 0 {
        Seq::empty()
    } else {
        let l = lines.last();
        let t = lines_text(lines.drop_last()) + l;
        if l.len() > 0 && l.last() == '\n' {
            t
        } else {
            t.push('\n')
        }
    }
}

/// The content of a file of records: each line ends with one newline.
pub fn write_ndjson(lines: &Vec<String>) -> (r: String)
    ensures
        r@ == lines_text(texts(lines@)),
{
    let mut body: String = String::new();
    let ghost t = texts(lines@);
    let mut i: usize = 0;
    assert(t.take(0) == Seq::<Seq<char>>::empty());
    while i < lines.len()
        invariant
            i <= lines.len(),
            t == texts(lines@),
            t.len() == lines.len(),
            body@ == lines_text(t.take(i as int)),
        decreases lines.len() - i,
    {
        assert(t.take(i + 1).drop_last() == t.take(i as int));
        assert(t.take(i + 1).last() == lines@[i as int]@);
        body.append(lines[i].as_str());
        let a: Vec<char> = chars(lines[i].as_str());
        if !(a.len() > 0 && a[a.len() - 1] == '\n') {
            body.push('\n');
        }
        i = i + 1;
    }
    assert(t.take(t.len() as int) == t);
    body
}

/// What the file source declares.
pub fn file_replay_capabilities() -> (r: ConnectorCapabilities)
    ensures
        r.kind@ == "file"@,
        r.replay == crate::capabilities::ReplaySupport::Replayable,
        r.delivery == crate::capabilities::DeliveryGuarantee::LiveBestEffort,
        r.recovery == RecoveryPolicy::Aligned,
{
    ConnectorCapabilities::file_replay()
}

} // verus!
