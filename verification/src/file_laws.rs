//! What holds of a file that is read again: a line comes out as it is, a cut is
//! taken where a line begins, and a file that changed is told from one that did
//! not.

use crate::capabilities::{
    refuse_unsupported_recovery, ConnectorCapabilities, DeliveryGuarantee, RecoveryPolicy,
    ReplaySupport, RestoreClaim,
};
use crate::error::ConnectorError;
use crate::file_lines::{records, within};
use crate::file_poll::{
    apply_file_poll, poll_of, progress, step_of, FilePoll, FileProgress, FileStep, PollBatch,
};
use crate::file_replay::{
    at_end, file_replay_capabilities, fingerprint_of, fingerprint_windows, fnv, identity_step,
    le_bytes, lemma_newline_found, lemma_newline_range, lines_text, newline_at, read_from,
    resume_fault, scanned, seek_fault, stepped, stripped, window_starts, Cursor, Ending,
    FileContract, FileReplayConfig, FileReplaySource, Found, FrameEvent, RecordFramer,
    SourceIdentity, SourcePosition,
};
use crate::model::{ErrorCode, Fault, Row, Schema, SparrowError};
use crate::text::{lowered, trimmed};
use vstd::prelude::*;
use vstd::string::*;

verus! {

proof fn lemma_stripped_line(line: Seq<u8>)
    requires
        line.len() > 0,
        !line.contains(10),
        line.last() != 13,
    ensures
        stripped(line) == line,
        stripped(line.push(10)) == line,
        stripped(line.push(13).push(10)) == line,
        stripped(line.push(13)) == line,
{
    assert(line.last() != 10) by {
        assert(line.contains(line[line.len() - 1]));
    }
    assert(line.push(10).drop_last() =~= line);
    assert(line.push(13).push(10).drop_last() =~= line.push(13));
    assert(line.push(13).drop_last() =~= line);
}

/// What comes out of a line is the line: its bytes without the newline at its
/// end, and without a carriage return before that. The next line begins behind
/// it.
pub proof fn law_a_line_comes_out_as_it_is(c: Cursor, line: Seq<u8>, rest: Seq<u8>)
    requires
        c.wf(),
        c.seen == 0,
        !line.contains(10),
        0 < line.len() < 64 * 1024,
        line.last() != 13,
    ensures
        ({
            let (n, d, e) = scanned(c, line + seq![10u8] + rest);
            &&& n == line.len() + 1
            &&& e == Some(Ending::Frame(line))
            &&& d.offset == c.offset + line.len() + 1
            &&& d.index == c.index + 1
            &&& d.seen == 0
        }),
        ({
            let (n, d, e) = scanned(c, line + seq![13u8, 10u8] + rest);
            &&& n == line.len() + 2
            &&& e == Some(Ending::Frame(line))
            &&& d.offset == c.offset + line.len() + 2
            &&& d.index == c.index + 1
            &&& d.seen == 0
        }),
{
    assert(c.pending =~= Seq::<u8>::empty());
    lemma_stripped_line(line);
    assert(line + seq![10u8] + rest =~= line.push(10) + rest);
    lemma_newline_found(line, rest);
    assert((line.push(10) + rest).take(line.len() + 1int) =~= line.push(10));
    assert(c.pending + line.push(10) =~= line.push(10));
    let carried = line.push(13);
    assert(!carried.contains(10)) by {
        if carried.contains(10) {
            let i = choose|i: int| 0 <= i < carried.len() && carried[i] == 10;
            assert(line[i] == 10);
        }
    }
    assert(line + seq![13u8, 10u8] + rest =~= carried.push(10) + rest);
    lemma_newline_found(carried, rest);
    assert((carried.push(10) + rest).take(carried.len() + 1int) =~= carried.push(10));
    assert(c.pending + carried.push(10) =~= carried.push(10));
}

/// A line of 64 KiB is one record still; a longer one is none: it is passed over
/// whole, and counted.
pub proof fn law_a_line_has_at_most_64_kib(c: Cursor, line: Seq<u8>, rest: Seq<u8>)
    requires
        c.wf(),
        c.seen == 0,
        !line.contains(10),
        line.len() >= 64 * 1024,
    ensures
        ({
            let (n, d, e) = scanned(c, line + seq![10u8] + rest);
            &&& n == line.len() + 1
            &&& line.len() == 64 * 1024 && line.last() != 13 ==> e == Some(Ending::Frame(line))
            &&& line.len() > 64 * 1024 ==> e == Some(Ending::Oversized)
            &&& d.offset == c.offset + line.len() + 1
            &&& d.index == c.index + 1
            &&& d.seen == 0
        }),
{
    assert(c.pending =~= Seq::<u8>::empty());
    assert(line + seq![10u8] + rest =~= line.push(10) + rest);
    lemma_newline_found(line, rest);
    assert((line.push(10) + rest).take(line.len() + 1int) =~= line.push(10));
    assert(c.pending + line.push(10) =~= line.push(10));
    if line.last() != 13 {
        lemma_stripped_line(line);
    }
}

/// An empty line is passed over and counted.
pub proof fn law_an_empty_line_is_passed_over(c: Cursor, rest: Seq<u8>)
    requires
        c.wf(),
        c.seen == 0,
    ensures
        ({
            let (n, d, e) = scanned(c, seq![10u8] + rest);
            n == 1 && e == Some(Ending::Blank) && d.offset == c.offset + 1 && d.index == c.index + 1
        }),
        ({
            let (n, d, e) = scanned(c, seq![13u8, 10u8] + rest);
            n == 2 && e == Some(Ending::Blank) && d.offset == c.offset + 2 && d.index == c.index + 1
        }),
{
    assert(c.pending =~= Seq::<u8>::empty());
    let a = Seq::<u8>::empty();
    assert(seq![10u8] + rest =~= a.push(10) + rest);
    lemma_newline_found(a, rest);
    assert((a.push(10) + rest).take(1) =~= a.push(10));
    assert(c.pending + a.push(10) =~= a.push(10));
    assert(a.push(10).drop_last() =~= a);
    let b = seq![13u8];
    assert(seq![13u8, 10u8] + rest =~= b.push(10) + rest);
    lemma_newline_found(b, rest);
    assert((b.push(10) + rest).take(2) =~= b.push(10));
    assert(c.pending + b.push(10) =~= b.push(10));
    assert(b.push(10).drop_last() =~= b);
    assert(b.drop_last() =~= a);
}

/// The records of a file are its lines in order. An empty line is none, and the
/// last line may lack its newline.
pub proof fn law_records_are_the_lines(line: Seq<u8>, b: Seq<u8>)
    requires
        !line.contains(10),
        line.len() > 0,
        line.last() != 13,
    ensures
        records(line + seq![10u8] + b) == seq![line] + records(b),
        records(line + seq![13u8, 10u8] + b) == seq![line] + records(b),
        records(seq![10u8] + b) == records(b),
        records(line) == seq![line],
        records(Seq::<u8>::empty()) == Seq::<Seq<u8>>::empty(),
{
    reveal(records);
    lemma_stripped_line(line);
    let x = line + seq![10u8] + b;
    assert(x =~= line.push(10) + b);
    lemma_newline_found(line, b);
    assert(x.take(line.len() + 1int) =~= line.push(10));
    assert(x.skip(line.len() + 1int) =~= b);
    let carried = line.push(13);
    assert(!carried.contains(10)) by {
        if carried.contains(10) {
            let i = choose|i: int| 0 <= i < carried.len() && carried[i] == 10;
            assert(line[i] == 10);
        }
    }
    let y = line + seq![13u8, 10u8] + b;
    assert(y =~= carried.push(10) + b);
    lemma_newline_found(carried, b);
    assert(y.take(line.len() + 2int) =~= carried.push(10));
    assert(y.skip(line.len() + 2int) =~= b);
    let none = Seq::<u8>::empty();
    let z = seq![10u8] + b;
    assert(z =~= none.push(10) + b);
    lemma_newline_found(none, b);
    assert(z.take(1) =~= none.push(10));
    assert(none.push(10).drop_last() =~= none);
    assert(z.skip(1) =~= b);
    assert(Seq::<Seq<u8>>::empty() + records(b) =~= records(b));
    lemma_newline_range(line);
    if newline_at(line) is Some {
        assert(line.contains(line[newline_at(line)->0]));
    }
}

/// Whether a file has a line that is too long is decided line by line.
pub proof fn law_lines_are_within_64_kib(line: Seq<u8>, b: Seq<u8>)
    requires
        !line.contains(10),
    ensures
        within(line + seq![10u8] + b) <==> line.len() <= 64 * 1024 && within(b),
        within(line) <==> line.len() <= 64 * 1024,
{
    reveal(within);
    let x = line + seq![10u8] + b;
    assert(x =~= line.push(10) + b);
    lemma_newline_found(line, b);
    assert(x.skip(line.len() + 1int) =~= b);
    lemma_newline_range(line);
    if newline_at(line) is Some {
        assert(line.contains(line[newline_at(line)->0]));
    }
}

/// At the end of a finite file what was seen of a line is the last line. Of a
/// file that may grow it is kept for later: nothing comes out, and reading
/// stands where it stood.
pub proof fn law_the_last_line_may_lack_its_newline(c: Cursor)
    requires
        c.wf(),
        !c.discarding,
        !c.pending.contains(10),
    ensures
        at_end(c, false) == (c, Found::End),
        stepped(c, Seq::empty(), 1, false) == (0int, c, Found::End),
        c.seen == 0 ==> at_end(c, true) == (c, Found::End),
        c.seen > 0 && c.pending.last() != 13 ==> {
            let (d, f) = at_end(c, true);
            f == Found::Frame(c.pending) && d.offset == c.offset + c.seen && d.index == c.index + 1
                && d.seen == 0
        },
{
    if c.seen > 0 && c.pending.last() != 13 {
        lemma_stripped_line(c.pending);
    }
}

/// Without a budget nothing is read, and without bytes more are asked for.
pub proof fn law_reading_keeps_to_its_budget(c: Cursor, b: Seq<u8>, budget: int)
    ensures
        read_from(c, b, 0) == (0int, c, Found::Pending),
        budget > 0 ==> read_from(c, Seq::empty(), budget) == (0int, c, Found::NeedMore),
        budget > 0 ==> read_from(c, b, budget).0 <= budget,
    decreases b.len(),
{
    if budget > 0 && b.len() > 0 {
        let chunk = b.take(
            if b.len() < budget {
                b.len() as int
            } else {
                budget
            },
        );
        let (n, d, e) = scanned(c, chunk);
        lemma_newline_range(chunk);
        if 0 < n <= b.len() {
            law_reading_keeps_to_its_budget(d, b.skip(n), budget - n);
            law_reading_keeps_to_its_budget(d, b.skip(n), 1);
        }
    }
}

/// Reading can go on at the start, behind a newline, and at the end of a finite
/// file; never behind the end.
pub proof fn law_where_reading_can_go_on(
    contract: FileContract,
    path: Seq<char>,
    offset: u64,
    size: u64,
    before: Option<u8>,
)
    ensures
        seek_fault(contract, path, offset, size, before) is None <==> offset <= size && (offset == 0
            || before == Some(10u8) || (offset == size && contract != FileContract::AppendOnly)),
        offset > size ==> seek_fault(contract, path, offset, size, before)->0.code
            == ErrorCode::UnsupportedRestore,
{
}

/// A file that is not the one that a position was taken in is refused: another
/// path; for a file that never changes another size or another content; for one
/// that may grow fewer bytes than it had, or another content in those.
pub proof fn law_a_changed_file_is_not_resumed(
    contract: FileContract,
    path: Seq<char>,
    pos: SourcePosition,
    live: SourceIdentity,
    start: u64,
    before: Option<u8>,
)
    requires
        pos.identity.path@ != live.path@ || (contract != FileContract::AppendOnly && (
        pos.identity.size != live.size || pos.identity.fingerprint != live.fingerprint)) || (
        contract == FileContract::AppendOnly && (live.size < pos.identity.size || start
            != pos.identity.fingerprint)),
    ensures
        resume_fault(contract, path, pos, live, start, before) is Some,
        resume_fault(contract, path, pos, live, start, before)->0.code
            == ErrorCode::UnsupportedRestore,
{
}

/// A file that may grow is recognised by as many of its bytes as it had; one
/// that never changes needs no second look.
pub proof fn law_how_much_is_recognised(
    contract: FileContract,
    path: Seq<char>,
    stored: SourceIdentity,
    live: SourceIdentity,
)
    ensures
        identity_step(contract, path, stored, live) matches Ok(again) ==> {
            &&& stored.path@ == live.path@
            &&& contract == FileContract::AppendOnly ==> again == Some(stored.size)
            &&& contract != FileContract::AppendOnly ==> again is None
        },
{
}

/// The names of the contracts, with blanks around them and in any case.
pub proof fn law_contracts_are_named(s: Seq<char>)
    ensures
        lowered(trimmed(s)) == "append_only"@ ==> FileContract::named(s) == Ok::<
            FileContract,
            Fault,
        >(FileContract::AppendOnly),
        lowered(trimmed(s)) == "sealed"@ ==> FileContract::named(s) == Ok::<FileContract, Fault>(
            FileContract::Sealed,
        ),
        lowered(trimmed(s)) == "immutable"@ ==> FileContract::named(s) == Ok::<FileContract, Fault>(
            FileContract::Immutable,
        ),
        FileContract::named(s) matches Ok(c) ==> lowered(trimmed(s)) == c.name() || lowered(
            trimmed(s),
        ) == "append-only"@ || lowered(trimmed(s)) == "appendonly"@,
{
    reveal_strlit("append_only");
    reveal_strlit("append-only");
    reveal_strlit("appendonly");
    reveal_strlit("sealed");
    reveal_strlit("immutable");
    assert("append_only"@.len() == 11 && "append-only"@.len() == 11 && "appendonly"@.len() == 10);
    assert("sealed"@.len() == 6 && "immutable"@.len() == 9);
}

/// Eight bytes hold a number, the lowest first.
pub proof fn law_bytes_hold_the_number(n: u64)
    ensures
        ({
            let b = le_bytes(n);
            &&& b.len() == 8
            &&& n == b[0] + 0x100 * b[1] + 0x1_0000 * b[2] + 0x100_0000 * b[3] + 0x1_0000_0000
                * b[4] + 0x100_0000_0000 * b[5] + 0x1_0000_0000_0000 * b[6]
                + 0x100_0000_0000_0000 * b[7]
        }),
{
    let a0 = n as int;
    let a1 = a0 / 256;
    let a2 = a1 / 256;
    let a3 = a2 / 256;
    let a4 = a3 / 256;
    let a5 = a4 / 256;
    let a6 = a5 / 256;
    let a7 = a6 / 256;
    assert(a0 / 0x10000 == a2 && a0 / 0x1000000 == a3 && a0 / 0x100000000 == a4 && a0
        / 0x10000000000 == a5 && a0 / 0x1000000000000 == a6 && a0 / 0x100000000000000 == a7);
}

/// The hash starts at the offset basis of 64-bit FNV-1a and takes in a byte by
/// exclusive or, then by multiplication with the prime.
pub proof fn law_the_hash_takes_in_bytes(b: Seq<u8>, x: u8)
    ensures
        fnv(Seq::empty()) == 0xcbf29ce484222325,
        fnv(b.push(x)) == (fnv(b) ^ (x as u64)).wrapping_mul(0x100000001b3),
{
    assert(b.push(x).drop_last() =~= b);
}

/// The windows of a file that is not empty: the first 4096 bytes, as many from
/// the middle on, and the last 4096; of a smaller file what there is.
pub proof fn law_windows_of_a_file(size: u64, r: Vec<(u64, u64)>)
    requires
        call_ensures(fingerprint_windows, (size,), r),
    ensures
        size == 0 ==> r@.len() == 0,
        size > 0 ==> {
            &&& r@.len() == 3
            &&& r@[0].0 == 0
            &&& r@[1].0 == size / 2
            &&& r@[2].0 == if size > 4096 { size - 4096 } else { 0 }
            &&& forall|i: int|
                0 <= i < 3 ==> (#[trigger] r@[i]).1 == if size - r@[i].0 < 4096 {
                    size - r@[i].0
                } else {
                    4096
                }
        },
{
    if size > 0 {
        assert(r@.len() == 3);
        assert(r@[0].0 == window_starts(size)[0] && r@[1].0 == window_starts(size)[1] && r@[2].0
            == window_starts(size)[2]);
    }
}

/// The fingerprint of a file mixes its size with where each window starts and
/// what it holds.
pub proof fn law_what_the_fingerprint_mixes(size: u64, a: Seq<u8>, b: Seq<u8>, c: Seq<u8>)
    requires
        size > 0,
    ensures
        ({
            let last: u64 = if size > 4096 {
                (size - 4096) as u64
            } else {
                0
            };
            fingerprint_of(size, seq![a, b, c]) == fnv(
                le_bytes(size) + le_bytes(0) + le_bytes(fnv(a)) + le_bytes(size / 2) + le_bytes(
                    fnv(b),
                ) + le_bytes(last) + le_bytes(fnv(c)),
            )
        }),
{
    let s = window_starts(size);
    let p = seq![a, b, c];
    reveal_with_fuel(crate::file_replay::window_mix, 4);
    assert(p.drop_last() =~= seq![a, b]);
    assert(p.drop_last().drop_last() =~= seq![a]);
    assert(s.drop_last() =~= seq![s[0], s[1]]);
    assert(s.drop_last().drop_last() =~= seq![s[0]]);
    let last: u64 = if size > 4096 {
        (size - 4096) as u64
    } else {
        0
    };
    assert(s[0] == 0 && s[1] == size / 2 && s[2] == last);
    assert(le_bytes(size) + crate::file_replay::window_mix(s, p) =~= le_bytes(size) + le_bytes(0)
        + le_bytes(fnv(a)) + le_bytes(size / 2) + le_bytes(fnv(b)) + le_bytes(last) + le_bytes(
        fnv(c),
    ));
}

/// Every line that is written ends with one newline.
pub proof fn law_written_lines_end_with_a_newline(lines: Seq<Seq<char>>, l: Seq<char>)
    ensures
        l.len() == 0 || l.last() != '\n' ==> lines_text(lines.push(l)) == lines_text(lines) + l
            + seq!['\n'],
        l.len() > 0 && l.last() == '\n' ==> lines_text(lines.push(l)) == lines_text(lines) + l,
        lines_text(Seq::empty()) == Seq::<char>::empty(),
{
    assert(lines.push(l).drop_last() =~= lines);
    assert((lines_text(lines) + l).push('\n') =~= lines_text(lines) + l + seq!['\n']);
}

/// What is done with what was read: a row is sent, a record that cannot be
/// decoded is skipped or fails the source as it was told, the end of a growing
/// file is waited at, and that of a finite one closes every window once.
pub proof fn law_what_is_done_with_a_read(
    row: Row,
    contract: FileContract,
    sent: bool,
    fail_on_decode: bool,
)
    ensures
        step_of(FilePoll::Row(row), contract, sent, fail_on_decode) == Ok::<FileStep, Fault>(
            FileStep::Send(row),
        ),
        step_of(FilePoll::Pending, contract, sent, fail_on_decode) == Ok::<FileStep, Fault>(
            FileStep::Yield,
        ),
        fail_on_decode <==> step_of(FilePoll::DecodeError, contract, sent, fail_on_decode) is Err,
        !fail_on_decode ==> step_of(FilePoll::DecodeError, contract, sent, fail_on_decode) == Ok::<
            FileStep,
            Fault,
        >(FileStep::Skip),
        contract == FileContract::AppendOnly ==> step_of(
            FilePoll::Eof,
            contract,
            sent,
            fail_on_decode,
        ) == Ok::<FileStep, Fault>(FileStep::Wait),
        contract != FileContract::AppendOnly && sent ==> step_of(
            FilePoll::Eof,
            contract,
            sent,
            fail_on_decode,
        ) == Ok::<FileStep, Fault>(FileStep::Done),
        contract != FileContract::AppendOnly && !sent ==> step_of(
            FilePoll::Eof,
            contract,
            sent,
            fail_on_decode,
        ) == Ok::<FileStep, Fault>(FileStep::Close(0x1fff_ffff_ffff_ffff)),
        poll_of(Ok(Some(row))) == FilePoll::Row(row),
        poll_of(Ok(None)) == FilePoll::DecodeError,
{
}

/// A record that the decoder refuses counts as one that cannot be decoded.
pub proof fn law_a_refused_record_is_not_decoded(e: SparrowError)
    ensures
        poll_of(Err(e)) == FilePoll::DecodeError,
{
}

/// The source goes on after a row that was taken, and ends where its receiver is
/// gone.
pub proof fn law_the_source_ends_with_its_receiver(
    step: FileStep,
    delivered: bool,
    r: FileProgress,
)
    requires
        call_ensures(progress, (&step, delivered), r),
    ensures
        step is Send ==> r == if delivered {
            FileProgress::Continue
        } else {
            FileProgress::Done
        },
        step is Yield || step is Skip ==> r == FileProgress::Continue,
        step is Close || step is Done ==> r == FileProgress::Done,
        step is Wait ==> r == FileProgress::Wait,
{
}

/// What can be recovered: any source starts fresh without a claim; only one that
/// can be read again is recovered aligned, with or without a checkpoint; no other
/// claim is taken.
pub proof fn law_what_can_be_recovered(
    kind: &str,
    replayable: bool,
    recovery: RecoveryPolicy,
    claim: RestoreClaim,
    r: Result<(), ConnectorError>,
)
    requires
        call_ensures(refuse_unsupported_recovery, (kind, replayable, recovery, &claim), r),
    ensures
        recovery == RecoveryPolicy::RestartFresh ==> (r is Ok <==> claim is Absent),
        recovery == RecoveryPolicy::Aligned ==> (r is Ok <==> replayable && (claim is Absent
            || claim is Checkpoint)),
        r is Err ==> r->Err_0@.code == ErrorCode::UnsupportedRestore,
{
}

/// Guarantees and recoveries are asked for by name, and no others are known.
pub proof fn law_guarantees_are_named(s: Seq<char>)
    ensures
        DeliveryGuarantee::named(s) is Ok <==> s == "live_best_effort"@,
        RecoveryPolicy::named("restart_fresh"@) == Ok::<RecoveryPolicy, Fault>(
            RecoveryPolicy::RestartFresh,
        ),
        RecoveryPolicy::named("aligned"@) == Ok::<RecoveryPolicy, Fault>(RecoveryPolicy::Aligned),
        RecoveryPolicy::named(s) is Ok <==> s == "restart_fresh"@ || s == "aligned"@,
{
    reveal_strlit("restart_fresh");
    reveal_strlit("aligned");
    assert("restart_fresh"@.len() == 13 && "aligned"@.len() == 7);
}

/// A source that goes to a cut stands at it, between two records; where it may
/// not go there it stays where it is.
pub proof fn law_a_source_goes_to_a_cut(
    s: &mut FileReplaySource,
    pos: SourcePosition,
    size: u64,
    before: Option<u8>,
    r: Result<(), SparrowError>,
)
    requires
        call_ensures(FileReplaySource::seek, (s, &pos, size, before), r),
    ensures
        r is Ok <==> pos.offset_bytes <= size && (pos.offset_bytes == 0 || before == Some(10u8) || (
        pos.offset_bytes == size && old(s).contract != FileContract::AppendOnly)),
        r is Ok ==> final(s).framer.offset == pos.offset_bytes && final(s).framer.record_index
            == pos.record_index && final(s).framer.record_bytes == 0 && final(
            s).framer.pending@.len() == 0 && !final(s).framer.discarding,
        r is Err ==> final(s).framer == old(s).framer,
        final(s).contract == old(s).contract && final(s).path == old(s).path,
{
}

/// A source goes on from a position only in the file that it was taken in.
pub proof fn law_a_source_goes_on_in_its_file(
    s: &mut FileReplaySource,
    pos: SourcePosition,
    live: SourceIdentity,
    start: u64,
    before: Option<u8>,
    r: Result<(), SparrowError>,
)
    requires
        call_ensures(FileReplaySource::resume, (s, &pos, &live, start, before), r),
    ensures
        r is Ok ==> pos.identity.path@ == live.path@ && pos.offset_bytes <= live.size,
        r is Ok && old(s).contract != FileContract::AppendOnly ==> pos.identity.size == live.size
            && pos.identity.fingerprint == live.fingerprint,
        r is Ok && old(s).contract == FileContract::AppendOnly ==> pos.identity.size <= live.size
            && pos.identity.fingerprint == start,
        r is Ok ==> final(s).framer.offset == pos.offset_bytes && final(s).framer.record_index
            == pos.record_index,
        r is Err ==> final(s).framer == old(s).framer,
{
}

/// A source that was just opened stands at the start of its file, and says where
/// it stands.
pub proof fn law_a_source_starts_at_the_start(
    cfg: FileReplayConfig,
    size: u64,
    fingerprint: u64,
    s: FileReplaySource,
    p: SourcePosition,
)
    requires
        call_ensures(FileReplaySource::open, (&cfg, size, fingerprint), s),
        call_ensures(FileReplaySource::position, (&s,), p),
    ensures
        s.framer.offset == 0 && s.framer.record_index == 0 && s.framer.record_bytes == 0,
        s.path@ == cfg.path@ && s.contract == cfg.contract,
        s.identity.path@ == cfg.path@ && s.identity.size == size && s.identity.fingerprint
            == fingerprint,
        p.offset_bytes == s.framer.offset && p.record_index == s.framer.record_index && p.identity
            == s.identity,
{
}

/// What the contract of a file means: only one that may grow has no end.
pub proof fn law_what_a_contract_means(c: FileContract, a: bool, b: bool, k: ConnectorCapabilities)
    requires
        call_ensures(FileContract::eof_is_terminal, (c,), a),
        call_ensures(FileContract::allows_growth, (c,), b),
        call_ensures(file_replay_capabilities, (), k),
    ensures
        a <==> c == FileContract::Sealed || c == FileContract::Immutable,
        b <==> c == FileContract::AppendOnly,
        k.kind@ == "file"@ && k.replay == ReplaySupport::Replayable && k.recovery
            == RecoveryPolicy::Aligned,
{
}

/// Reads are handed over together until there are as many as allowed, the file
/// has nothing more to give, or the rows pass the byte limit; the first row is
/// taken whatever its size.
pub proof fn law_how_many_reads_go_together(
    b: &mut PollBatch,
    poll: FilePoll,
    size: usize,
    frames: usize,
    bytes: usize,
    r: bool,
)
    requires
        call_ensures(PollBatch::take, (b, poll, size, frames, bytes), r),
        b.bytes + size <= usize::MAX,
    ensures
        frames == 0 && old(b).polls@.len() == 0 ==> r,
        final(b).polls@ == old(b).polls@.push(poll),
        poll is Eof || poll is Pending ==> r && final(b).bytes == old(b).bytes,
        poll is DecodeError ==> final(b).bytes == old(b).bytes,
        poll is DecodeError && frames >= 1 ==> (r <==> old(b).polls@.len() + 1 == frames),
        poll is Row && old(b).polls@.len() > 0 && old(b).bytes + size > bytes ==> r
            && final(b).bytes == old(b).bytes,
        poll is Row && (old(b).polls@.len() == 0 || old(b).bytes + size <= bytes) ==> final(b).bytes
            == old(b).bytes + size,
        poll is Row && frames >= 1 && (old(b).polls@.len() == 0 || old(b).bytes + size <= bytes)
            ==> (r <==> old(b).polls@.len() + 1 == frames),
{
}

/// The closing watermark goes out once, at the end of a file that does not grow.
pub proof fn law_when_windows_are_closed(
    poll: FilePoll,
    contract: FileContract,
    sent: &mut bool,
    fail_on_decode: bool,
    r: Result<FileStep, SparrowError>,
)
    requires
        call_ensures(apply_file_poll, (poll, contract, sent, fail_on_decode), r),
    ensures
        r is Ok && r->Ok_0 is Close <==> poll is Eof && contract != FileContract::AppendOnly
            && !*old(sent),
        *final(sent) <==> *old(sent) || (poll is Eof && contract != FileContract::AppendOnly),
        poll is Eof && contract == FileContract::AppendOnly ==> r is Ok && r->Ok_0 is Wait,
        poll is Row ==> r == Ok::<FileStep, SparrowError>(FileStep::Send(poll->Row_0)),
        r is Err <==> poll is DecodeError && fail_on_decode,
{
}

/// A record that was handed out counts: the source stands behind it.
pub proof fn law_a_finished_record_counts(f: &mut RecordFramer, r: FrameEvent)
    requires
        call_ensures(RecordFramer::finish_record, (f,), r),
        f.offset + f.record_bytes <= u64::MAX,
        f.record_index < u64::MAX,
    ensures
        final(f).offset == old(f).offset + old(f).record_bytes,
        final(f).record_index == old(f).record_index + 1,
        final(f).record_bytes == 0 && final(f).pending@.len() == 0 && !final(f).discarding,
        old(f).discarding <==> r is Oversized,
        r is Frame ==> r->Frame_0@.is_prefix_of(old(f).pending@) && old(f).pending@.len() - 2
            <= r->Frame_0@.len() <= old(f).pending@.len(),
        !old(f).discarding && old(f).pending@.len() > 2 ==> r is Frame,
        r is Frame && r->Frame_0@.len() < old(f).pending@.len() ==> old(f).pending@.last() == 10
            || old(f).pending@.last() == 13,
{
}

/// A reader that was just made stands at the start, with nothing read; a source
/// is set to start fresh over a file that never changes.
pub proof fn law_what_a_reader_starts_with(
    f: RecordFramer,
    path: &str,
    schema: Schema,
    c: FileReplayConfig,
)
    requires
        call_ensures(RecordFramer::new, (), f),
        call_ensures(FileReplayConfig::new, (path, schema), c),
    ensures
        f.offset == 0 && f.record_index == 0 && f.record_bytes == 0 && f.pending@.len() == 0
            && !f.discarding,
        c.path@ == path@ && c.schema == schema && c.restore is Absent && !c.fail_on_decode,
        c.recovery == RecoveryPolicy::RestartFresh && c.contract == FileContract::Immutable,
{
}

/// A batch of reads begins empty.
pub proof fn law_a_batch_begins_empty(b: PollBatch)
    requires
        call_ensures(PollBatch::new, (), b),
    ensures
        b.polls@.len() == 0 && b.bytes == 0,
{
}

} // verus!
