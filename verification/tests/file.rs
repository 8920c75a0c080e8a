//! The file source: records, cuts, identity and what is done at the end.

use sparrow::control::aligned::{begin, AlignedRun, CheckpointReply};
use sparrow::control::plan::{PlanStage, WindowKind};
use sparrow::control::spec::{PipelineSpec, SinkSpec, SourceSpec};
use sparrow::control::start::{wire_source, SourceWiring};
use sparrow::control::store::Store;
use sparrow::control::supervisor::{note_of, request_start, Decision, Supervisor};
use sparrow::control::validate::FileFacts;
use sparrow::capabilities::{DeliveryGuarantee, RecoveryPolicy, ReplaySupport, RestoreClaim};
use sparrow::error::ConnectorError;
use sparrow::file_poll::{
    apply_file_poll, poll_decoded, progress, FilePoll, FileProgress, FileStep, PollBatch,
    FILE_POLL_BATCH_BYTES, FILE_POLL_BATCH_FRAMES,
};
use sparrow::file_replay::{
    content_fingerprint, file_replay_capabilities, fingerprint_windows, fnv1a64, write_ndjson,
    FileContract, FileReplayConfig, FileReplaySource, ReadOutcome, RecordFramer, SourceIdentity,
    SourcePosition, MAX_RECORD, TERMINAL_WM_MICROS,
};
use sparrow::http::sink::{after_post, PostResult, PostStep};
use sparrow::model::{DataType, ErrorCode, Field, Row, Scalar, Schema, SparrowError};

const PATH: &str = "/data/rows.ndjson";
const SCAN: usize = 128 * 1024;

fn schema() -> Schema {
    let field = |id, name: &str, data_type| Field { id, name: name.to_string(), data_type, nullable: false };
    Schema {
        id: 1,
        fields: vec![field(1, "device_id", DataType::Utf8), field(2, "v", DataType::Int64)],
    }
}

fn decode(b: &Vec<u8>) -> Result<Option<Row>, SparrowError> {
    let bad = || SparrowError::new(ErrorCode::CodecViolation, "bad record".to_string());
    let v: serde_json::Value = serde_json::from_slice(b).map_err(|_| bad())?;
    let id = v["device_id"].as_str().ok_or_else(bad)?;
    let n = v["v"].as_i64().ok_or_else(bad)?;
    Ok(Some(Row { values: vec![Scalar::utf8(id), Scalar::Int64(n)] }))
}

fn fingerprint(data: &[u8]) -> u64 {
    let parts = fingerprint_windows(data.len() as u64)
        .into_iter()
        .map(|(at, n)| data[at as usize..(at + n) as usize].to_vec())
        .collect();
    content_fingerprint(data.len() as u64, &parts)
}

/// A file in memory and a source that reads it.
struct Reader {
    source: FileReplaySource,
}

impl Reader {
    fn open(data: &[u8], contract: FileContract) -> Reader {
        let mut cfg = FileReplayConfig::new(PATH, schema());
        cfg.contract = contract;
        Reader { source: FileReplaySource::open(&cfg, data.len() as u64, fingerprint(data)) }
    }

    fn read(&mut self, data: &[u8]) -> ReadOutcome {
        let framer = &mut self.source.framer;
        let mut budget = SCAN;
        loop {
            let at = (framer.offset + framer.record_bytes) as usize;
            let (n, found) = framer.step(&data[at..], budget, self.source.contract);
            budget -= n;
            if !matches!(found, ReadOutcome::NeedMore) {
                return found;
            }
        }
    }

    fn poll(&mut self, data: &[u8]) -> FilePoll {
        poll_decoded(self.read(data), &decode).unwrap()
    }

    fn poll_batch(&mut self, data: &[u8], frames: usize, bytes: usize) -> Vec<FilePoll> {
        let mut batch = PollBatch::new();
        loop {
            let poll = self.poll(data);
            if batch.take(poll, 32, frames, bytes) {
                return batch.polls;
            }
        }
    }

    fn next_frame(&mut self, data: &[u8]) -> Option<Vec<u8>> {
        loop {
            match self.read(data) {
                ReadOutcome::Frame(b) => return Some(b),
                ReadOutcome::Pending => {}
                _ => return None,
            }
        }
    }

    fn cut(&self) -> (u64, u64) {
        let p = self.source.position();
        (p.offset_bytes, p.record_index)
    }

    fn seek(&mut self, pos: &SourcePosition, data: &[u8]) -> Result<(), ErrorCode> {
        let live = SourceIdentity {
            path: PATH.to_string(),
            size: data.len() as u64,
            fingerprint: fingerprint(data),
        };
        let known = pos.identity.size as usize;
        let start = data.get(..known).map_or(0, fingerprint);
        let before = (pos.offset_bytes as usize).checked_sub(1).and_then(|i| data.get(i)).copied();
        self.source.resume(pos, &live, start, before).map_err(|e| e.code)
    }
}

fn v_of(poll: &FilePoll) -> i64 {
    match poll {
        FilePoll::Row(row) => match row.values[1] {
            Scalar::Int64(v) => v,
            _ => panic!("type"),
        },
        other => panic!("row expected, got {other:?}"),
    }
}

const ONE: &[u8] = b"{\"device_id\":\"d1\",\"v\":1}\n";
const TWO: &[u8] = b"{\"device_id\":\"d1\",\"v\":1}\n{\"device_id\":\"d1\",\"v\":2}\n";
const CONTRACTS: [FileContract; 3] =
    [FileContract::AppendOnly, FileContract::Sealed, FileContract::Immutable];

#[test]
fn r4_oversize_skips_once_at_boundary_for_all_contracts() {
    let bad = "x".repeat(70 * 1024);
    let body = format!("{bad}\n\r\n{{\"device_id\":\"ok\",\"v\":1}}\r\n").into_bytes();
    for contract in CONTRACTS {
        let mut src = Reader::open(&body, contract);
        assert!(matches!(src.poll(&body), FilePoll::DecodeError));
        let cut = src.source.position();
        assert_eq!(cut.offset_bytes, bad.len() as u64 + 1);
        assert_eq!(cut.record_index, 1);
        assert!(matches!(src.poll(&body), FilePoll::Row(_)));
        assert!(matches!(src.poll(&body), FilePoll::Eof));
        assert_eq!(src.cut().0, body.len() as u64);
        let mut restored = Reader::open(&body, contract);
        restored.seek(&cut, &body).unwrap();
        assert!(matches!(restored.poll(&body), FilePoll::Row(_)));
    }
}

#[test]
fn r4_partial_oversize_is_bounded_and_never_false_terminal_eof() {
    let mut data = vec![b'x'; 1024 * 1024];
    for contract in CONTRACTS {
        let mut src = Reader::open(&data, contract);
        for _ in 0..8 {
            assert!(matches!(src.poll(&data), FilePoll::Pending));
            assert_eq!(src.cut().0, 0);
            assert!(src.source.framer.pending.len() <= MAX_RECORD);
        }
        if contract.eof_is_terminal() {
            assert!(matches!(src.poll(&data), FilePoll::DecodeError));
            assert_eq!(src.cut().0, 1024 * 1024);
            assert!(matches!(src.poll(&data), FilePoll::Eof));
        } else {
            for _ in 0..3 {
                assert!(matches!(src.poll(&data), FilePoll::Eof));
            }
            assert_eq!(src.cut().0, 0);
        }
    }
    let mut src = Reader::open(&data, FileContract::AppendOnly);
    while matches!(src.poll(&data), FilePoll::Pending) {}
    let cut = src.source.position();
    data.extend_from_slice(b"x\n{\"device_id\":\"ok\",\"v\":1}\n");
    assert!(matches!(src.poll(&data), FilePoll::DecodeError));
    assert!(matches!(src.poll(&data), FilePoll::Row(_)));
    assert!(matches!(src.poll(&data), FilePoll::Eof));
    src.seek(&cut, &data).unwrap();
    while matches!(src.poll(&data), FilePoll::Pending) {}
    assert!(matches!(src.poll(&data), FilePoll::Row(_)));
}

#[test]
fn r3_partial_append_is_bounded_and_resumes_exactly_once() {
    let mut data = b"{\"device_id\":\"d1\",\"v\":1}\n{\"device_id\":\"d2\",".to_vec();
    let mut src = Reader::open(&data, FileContract::AppendOnly);
    assert!(matches!(src.poll(&data), FilePoll::Row(_)));
    let cut = src.cut();
    for _ in 0..20 {
        assert!(matches!(src.poll(&data), FilePoll::Eof));
        assert_eq!(src.cut(), cut);
        assert!(src.source.framer.pending.len() < 64);
    }
    data.extend_from_slice(b"\"v\":2}\n{\"device_id\":\"d3\",\"v\":3}\n");
    for expected in [2, 3] {
        assert_eq!(v_of(&src.poll(&data)), expected);
    }
    assert!(matches!(src.poll(&data), FilePoll::Eof));
    assert_eq!(src.cut().1, 3);
}

#[test]
fn r3_terminal_unterminated_record_and_restore_boundary() {
    let data = b"{\"device_id\":\"d1\",\"v\":1}\n{\"device_id\":\"d2\",\"v\":2}";
    for contract in [FileContract::Sealed, FileContract::Immutable] {
        let mut src = Reader::open(data, contract);
        for _ in 0..2 {
            assert!(matches!(src.poll(data), FilePoll::Row(_)));
        }
        let cut = src.source.position();
        assert_eq!(cut.offset_bytes, data.len() as u64);
        assert!(matches!(src.poll(data), FilePoll::Eof));
        src.seek(&cut, data).unwrap();
        assert!(matches!(src.poll(data), FilePoll::Eof));
    }
}

#[test]
fn boundary_cut_and_seek() {
    let data = b"{\"device_id\":\"d1\",\"v\":1}\n{\"device_id\":\"d1\",\"v\":2}\nparti";
    let mut src = Reader::open(data, FileContract::AppendOnly);
    assert!(src.next_frame(data).is_some());
    assert!(src.next_frame(data).is_some());
    assert!(src.next_frame(data).is_none());
    let pos = SourcePosition {
        offset_bytes: 0,
        record_index: 0,
        identity: src.source.identity().clone(),
    };
    src.seek(&pos, data).unwrap();
    let f = src.next_frame(data).unwrap();
    assert!(String::from_utf8(f).unwrap().contains("\"v\":1"));
}

#[test]
fn a_refused_seek_leaves_the_position() {
    let mut src = Reader::open(TWO, FileContract::Immutable);
    src.next_frame(TWO).unwrap();
    let size = TWO.len() as u64;
    let mut pos = src.source.position();
    pos.offset_bytes = 3;
    let e = src.source.seek(&pos, size, Some(b'e')).unwrap_err();
    assert_eq!(e.code, ErrorCode::InvalidArgument);
    assert_eq!(e.message, "seek offset 3 is not a message boundary (mid-record cut rejected)");
    pos.offset_bytes = size + 1;
    let e = src.source.seek(&pos, size, None).unwrap_err();
    assert_eq!(e.code, ErrorCode::UnsupportedRestore);
    assert_eq!(src.cut(), (ONE.len() as u64, 1));
    pos.offset_bytes = size;
    pos.record_index = 2;
    src.source.seek(&pos, size, Some(b'}')).unwrap();
    assert_eq!(src.cut(), (size, 2));
    assert!(matches!(src.poll(TWO), FilePoll::Eof));
    let mut grows = Reader::open(TWO, FileContract::AppendOnly);
    assert_eq!(
        grows.source.seek(&pos, size, Some(b'}')).unwrap_err().code,
        ErrorCode::InvalidArgument
    );
}

#[test]
fn a_finite_file_gives_its_lines_however_it_comes_in() {
    let data = b"{\"device_id\":\"d1\",\"v\":1}\n\r\n\n{\"device_id\":\"d1\",\"v\":2}\r\nbad\n{\"device_id\":\"d1\",\"v\":3}";
    for contract in [FileContract::Immutable, FileContract::Sealed] {
        for there in 1..data.len() + 1 {
            for budget in [1, 2, 7, SCAN] {
                let mut src = Reader::open(data, contract);
                let mut seen = Vec::new();
                let mut at = 0;
                for _ in 0..data.len() + 3 {
                    let end = data.len().min(at + there);
                    let (taken, found) = src.source.framer.step(&data[at..end], budget, contract);
                    at += taken;
                    match poll_decoded(found, &decode) {
                        Some(FilePoll::Row(row)) => seen.push(format!("{:?}", row.values[1])),
                        Some(FilePoll::DecodeError) => seen.push("error".to_string()),
                        Some(FilePoll::Eof) => seen.push("eof".to_string()),
                        Some(FilePoll::Pending) | None => {}
                    }
                }
                let v = |n: i64| format!("{:?}", Scalar::Int64(n));
                let lines = vec![v(1), v(2), "error".to_string(), v(3)];
                assert_eq!(seen[..4], lines[..], "{there} {budget}");
                assert!(seen.len() > 4 && seen[4..].iter().all(|s| s == "eof"));
                assert_eq!(src.cut(), (data.len() as u64, 6));
            }
        }
    }
    let mut src = Reader::open(data, FileContract::Sealed);
    let (taken, found) = src.source.framer.step(&[], 0, FileContract::Sealed);
    assert!(taken == 0 && matches!(found, ReadOutcome::Pending));
}

#[test]
fn rotation_rejects_seek() {
    let mut src = Reader::open(ONE, FileContract::Immutable);
    let pos = src.source.position();
    assert_eq!(
        src.seek(&pos, b"{\"device_id\":\"d1\",\"v\":9}\n").unwrap_err(),
        ErrorCode::UnsupportedRestore
    );
}

#[test]
fn mid_record_seek_rejected() {
    let mut src = Reader::open(ONE, FileContract::Immutable);
    let mut pos = src.source.position();
    pos.offset_bytes = 3;
    assert_eq!(src.seek(&pos, ONE).unwrap_err(), ErrorCode::InvalidArgument);
    pos.offset_bytes = 1000;
    assert_eq!(src.seek(&pos, ONE).unwrap_err(), ErrorCode::UnsupportedRestore);
}

#[test]
fn r28_identity_sees_bytes_after_first_4kib() {
    let mut a = vec![b'A'; 8192];
    a[8000] = b'X';
    let mut b = vec![b'A'; 8192];
    b[8000] = b'Y';
    assert_ne!(
        Reader::open(&a, FileContract::Immutable).source.identity().fingerprint,
        Reader::open(&b, FileContract::Immutable).source.identity().fingerprint,
        "files that differ after 4KiB must not share a fingerprint"
    );
}

#[test]
fn r28_append_contract_allows_growth() {
    let mut src = Reader::open(ONE, FileContract::AppendOnly);
    let pos = src.source.position();
    src.seek(&pos, TWO).unwrap();
    assert_eq!(
        src.seek(&pos, b"{\"device_id\":\"dX\",\"v\":1}\nmore").unwrap_err(),
        ErrorCode::UnsupportedRestore
    );
    assert_eq!(src.seek(&pos, b"{}\n").unwrap_err(), ErrorCode::UnsupportedRestore);
}

#[test]
fn r28_immutable_rejects_append() {
    let mut src = Reader::open(ONE, FileContract::Immutable);
    let pos = src.source.position();
    assert_eq!(src.seek(&pos, TWO).unwrap_err(), ErrorCode::UnsupportedRestore);
}

#[test]
fn n5_contract_parse_and_eof_policy() {
    assert_eq!(FileContract::parse("append_only").unwrap(), FileContract::AppendOnly);
    assert_eq!(FileContract::parse("sealed").unwrap(), FileContract::Sealed);
    assert_eq!(FileContract::parse("immutable").unwrap(), FileContract::Immutable);
    assert!(!FileContract::AppendOnly.eof_is_terminal());
    assert!(FileContract::Sealed.eof_is_terminal());
    assert!(FileContract::Immutable.eof_is_terminal());
    assert!(FileContract::parse("poison").is_err());
    assert_eq!(FileContract::Sealed.as_str(), "sealed");
    assert!(FileContract::AppendOnly.allows_growth());
}

#[test]
fn n5_sealed_rejects_append_like_immutable() {
    let mut src = Reader::open(ONE, FileContract::Sealed);
    let pos = src.source.position();
    assert_eq!(src.seek(&pos, TWO).unwrap_err(), ErrorCode::UnsupportedRestore);
}

#[test]
fn n5_append_only_reads_rows_written_after_eof() {
    let mut src = Reader::open(ONE, FileContract::AppendOnly);
    assert!(matches!(src.poll(ONE), FilePoll::Row(_)));
    assert!(matches!(src.poll(ONE), FilePoll::Eof));
    let again = src.poll(TWO);
    assert!(
        matches!(again, FilePoll::Row(_)),
        "AppendOnly must see rows written after EOF, got {again:?}"
    );
}

#[test]
fn n14_poll_decoded_batch_reads_frames_then_eof() {
    let mut body = Vec::new();
    for i in 0..20 {
        body.extend(format!("{{\"device_id\":\"d1\",\"v\":{i}}}\n").into_bytes());
    }
    let mut src = Reader::open(&body, FileContract::Sealed);
    let polls = src.poll_batch(&body, 32, 64 * 1024);
    let rows = polls.iter().filter(|p| matches!(p, FilePoll::Row(_))).count();
    assert_eq!(rows, 20, "one blocking batch should decode many frames");
    assert!(
        matches!(polls.last(), Some(FilePoll::Eof)),
        "sealed batch must end with EOF, got {:?}",
        polls.last()
    );
    assert_eq!(src.poll_batch(&body, 8, 1024).len(), 1);
    assert!(matches!(src.poll_batch(&body, 8, 1024)[0], FilePoll::Eof));
}

#[test]
fn n14_append_only_batch_eof_then_growth() {
    let mut data = TWO.to_vec();
    let mut src = Reader::open(&data, FileContract::AppendOnly);
    let first = src.poll_batch(&data, FILE_POLL_BATCH_FRAMES, FILE_POLL_BATCH_BYTES);
    assert_eq!(first.iter().filter(|p| matches!(p, FilePoll::Row(_))).count(), 2);
    assert!(matches!(first.last(), Some(FilePoll::Eof)));
    data.extend_from_slice(b"{\"device_id\":\"d1\",\"v\":3}\n");
    let again = src.poll_batch(&data, FILE_POLL_BATCH_FRAMES, FILE_POLL_BATCH_BYTES);
    assert!(
        again.iter().any(|p| matches!(p, FilePoll::Row(_))),
        "AppendOnly batch must see growth after EOF, got {again:?}"
    );
}

#[test]
fn n5_poll_decoded_counts_bad_json() {
    let data = b"{\"device_id\":\"d1\",\"v\":1}\nnot-json\n{\"device_id\":\"d1\",\"v\":2}\n";
    let mut src = Reader::open(data, FileContract::Immutable);
    assert!(matches!(src.poll(data), FilePoll::Row(_)));
    assert!(matches!(src.poll(data), FilePoll::DecodeError));
    assert!(matches!(src.poll(data), FilePoll::Row(_)));
    assert!(matches!(src.poll(data), FilePoll::Eof));
}

#[test]
fn file_source_declares_replayable_and_seeks() {
    let cap = FileReplayConfig::capabilities();
    assert_eq!(cap.replay, ReplaySupport::Replayable);
    assert_eq!(cap.kind, "file");
    assert_eq!(cap.delivery, DeliveryGuarantee::LiveBestEffort);
    assert_eq!(file_replay_capabilities(), cap);

    let mut cfg = FileReplayConfig::new(PATH, schema());
    cfg.restore = RestoreClaim::Checkpoint { snapshot_id: "1".to_string() };
    cfg.recovery = RecoveryPolicy::Aligned;
    cfg.validate(Ok(PATH.to_string()), &vec!["/data".to_string()]).unwrap();
    assert!(cap.replay.is_replayable());
    let mut src = Reader::open(TWO, FileContract::Immutable);
    src.next_frame(TWO).unwrap();
    let pos = src.source.position();
    assert_eq!(pos.record_index, 1);
    src.next_frame(TWO).unwrap();
    src.seek(&pos, TWO).unwrap();
    let again = src.next_frame(TWO).unwrap();
    assert!(String::from_utf8(again).unwrap().contains("\"v\":2"));
}

#[test]
fn settings_of_a_file_are_checked() {
    let roots = vec!["/data".to_string()];
    let cfg = FileReplayConfig::new("/etc/passwd", schema());
    assert_eq!(
        cfg.validate(Ok("/etc/passwd".to_string()), &roots).unwrap_err().code(),
        ErrorCode::PolicyDenied
    );
    let mut cfg = FileReplayConfig::new(PATH, schema());
    cfg.restore = RestoreClaim::Checkpoint { snapshot_id: "1".to_string() };
    assert_eq!(
        cfg.validate(Ok(PATH.to_string()), &roots).unwrap_err().code(),
        ErrorCode::UnsupportedRestore
    );
}

#[test]
fn append_only_eof_returns_wait_without_blocking_control() {
    let mut terminal = false;
    let step =
        apply_file_poll(FilePoll::Eof, FileContract::AppendOnly, &mut terminal, false).unwrap();
    assert!(matches!(step, FileStep::Wait));
    assert_eq!(progress(&step, true), FileProgress::Wait);
    assert!(!terminal);
}

#[test]
fn windows_close_once() {
    let mut terminal = false;
    let step = apply_file_poll(FilePoll::Eof, FileContract::Sealed, &mut terminal, false).unwrap();
    assert!(matches!(step, FileStep::Close(TERMINAL_WM_MICROS)));
    assert!(terminal);
    let step = apply_file_poll(FilePoll::Eof, FileContract::Sealed, &mut terminal, false).unwrap();
    assert!(matches!(step, FileStep::Done));
    let e = apply_file_poll(FilePoll::DecodeError, FileContract::Sealed, &mut terminal, true)
        .unwrap_err();
    assert_eq!(e.message, "file decode failed (fail_on_decode)");
    let step =
        apply_file_poll(FilePoll::DecodeError, FileContract::Sealed, &mut terminal, false).unwrap();
    assert_eq!(progress(&step, true), FileProgress::Continue);
    let row = FilePoll::Row(Row { values: vec![] });
    let step = apply_file_poll(row, FileContract::Sealed, &mut terminal, false).unwrap();
    assert_eq!(progress(&step, true), FileProgress::Continue);
    assert_eq!(progress(&step, false), FileProgress::Done);
}

#[test]
fn a_batch_is_bounded() {
    let row = || FilePoll::Row(Row { values: vec![] });
    let mut batch = PollBatch::new();
    assert!(!batch.take(row(), 100, 8, 50));
    assert!(batch.take(row(), 1, 8, 50));
    let mut batch = PollBatch::new();
    assert!(!batch.take(FilePoll::DecodeError, 0, 2, 50));
    assert!(batch.take(FilePoll::DecodeError, 0, 2, 50));
    assert!(PollBatch::new().take(FilePoll::Pending, 0, 2, 50));
}

#[test]
fn how_bytes_arrive_does_not_matter() {
    let data = b"abc\r\n\nlonger line\n";
    let mut whole = RecordFramer::new();
    let mut frames = Vec::new();
    let mut at = 0;
    while at < data.len() {
        let (n, found) = whole.read_frame(&data[at..], SCAN);
        at += n;
        if let ReadOutcome::Frame(b) = found {
            frames.push(b);
        }
    }
    let mut pieces = RecordFramer::new();
    let mut pieced = Vec::new();
    for b in data.iter() {
        let (n, found) = pieces.read_frame(&[*b], SCAN);
        assert_eq!(n, 1);
        if let ReadOutcome::Frame(b) = found {
            pieced.push(b);
        }
    }
    assert_eq!(frames, vec![b"abc".to_vec(), b"longer line".to_vec()]);
    assert_eq!(frames, pieced);
    assert_eq!((whole.offset, whole.record_index), (data.len() as u64, 3));
    assert_eq!((pieces.offset, pieces.record_index), (data.len() as u64, 3));
    assert_eq!(pieces.record_bytes, 0);
}

#[test]
fn formulas_of_the_fingerprint() {
    assert_eq!(fnv1a64(b""), 0xcbf29ce484222325);
    assert_eq!(fnv1a64(b"a"), 0xaf63dc4c8601ec8c);
    assert_eq!(fnv1a64(b"foobar"), 0x85944171f73967e8);
    assert!(fingerprint_windows(0).is_empty());
    assert_eq!(fingerprint_windows(10), vec![(0, 10), (5, 5), (0, 10)]);
    assert_eq!(fingerprint_windows(8192), vec![(0, 4096), (4096, 4096), (4096, 4096)]);
    assert_eq!(
        write_ndjson(&vec!["a".to_string(), "b\n".to_string(), "".to_string()]),
        "a\nb\n\n"
    );
}

/// Reads the file to its end and applies every read; gives back the rows that
/// were sent on, the records that were skipped, and why the source failed.
fn drive(data: &[u8], spec: &PipelineSpec) -> (usize, usize, Option<SparrowError>) {
    let files = FileFacts {
        roots: vec!["/data".to_string()],
        path: Ok(PATH.to_string()),
        checkpoint_dir: Ok("/data/chk".to_string()),
    };
    let wired = wire_source(spec, schema(), &vec![], None, &files, "input", 1, 1).unwrap();
    let SourceWiring::File(config) = wired else { panic!("{wired:?}") };
    let mut src = Reader::open(data, config.contract);
    drive_source(&mut src, data, config.contract, config.fail_on_decode, &mut None)
}

/// The same for a source that may be checkpointed.
fn drive_source(
    src: &mut Reader,
    data: &[u8],
    contract: FileContract,
    fail: bool,
    run: &mut Option<AlignedRun>,
) -> (usize, usize, Option<SparrowError>) {
    let (mut rows, mut skipped, mut terminal) = (0, 0, false);
    loop {
        let polls = src.poll_batch(data, FILE_POLL_BATCH_FRAMES, FILE_POLL_BATCH_BYTES);
        if let Some(run) = run {
            let read = polls.iter().filter(|p| matches!(p, FilePoll::Row(_))).count() as u64;
            run.on_batch(src.source.position(), read);
        }
        for poll in polls {
            match apply_file_poll(poll, contract, &mut terminal, fail) {
                Ok(FileStep::Send(_)) => rows += 1,
                Ok(FileStep::Skip) => skipped += 1,
                Ok(FileStep::Yield) => {}
                Ok(_) => return (rows, skipped, None),
                Err(e) => return (rows, skipped, Some(e)),
            }
        }
    }
}

/// A catalog with one pipeline that is being started.
fn started_with(name: &str, spec: &PipelineSpec) -> (Store, Supervisor) {
    let mut store = Store::open_memory();
    store.put_pipeline(name, spec, None).unwrap();
    request_start(&mut store, name, "test").unwrap();
    let mut sup = Supervisor::new(&mut store, false).unwrap();
    let d = store.desired(name).unwrap();
    assert_eq!(sup.decide(&mut store, &d, 0).unwrap(), Decision::Start(1));
    let note = note_of(spec).unwrap();
    sup.begin_start(&mut store, name, 1, note).unwrap();
    sup.on_started(&mut store, name, 1, note).unwrap();
    (store, sup)
}

fn pipeline() -> PipelineSpec {
    PipelineSpec {
        version: 1,
        stream: "sensors".to_string(),
        sql: Some("SELECT device_id FROM sensors".to_string()),
        graph: None,
        source: SourceSpec {
            kind: "file".to_string(),
            host: None,
            port: None,
            topic: "t".to_string(),
            client_id: None,
            qos: 0,
            clean_session: true,
            username_secret: None,
            password_secret: None,
            skip_verify: false,
            inbox_capacity: 8,
            use_demo_io: false,
            bind: None,
            path: Some(PATH.to_string()),
            tls: false,
            file_contract: Some("append_only".to_string()),
        },
        sink: SinkSpec {
            kind: "log".to_string(),
            url: None,
            skip_verify: false,
            outbox_capacity: 8,
            use_demo_io: false,
            header_secret: None,
            host: None,
            port: None,
            topic: None,
            client_id: None,
            qos: 0,
            clean_session: true,
            tls: false,
        },
        delivery: "live_best_effort".to_string(),
        recovery: "restart_fresh".to_string(),
        restore: None,
        checkpoint_dir: None,
        fail_on_decode: false,
    }
}

#[test]
fn n5_restart_fresh_decode_errors_counted() {
    let data = b"{\"device_id\":\"d1\",\"v\":1,\"ts\":1000000}\nthis is not json\n{\"device_id\":\"d1\",\"v\":2,\"ts\":4000000}\n";
    let (rows, errs, failed) = drive(data, &pipeline());
    assert!(errs >= 1, "file decode errors must be counted (got {errs})");
    assert_eq!(rows, 2);
    assert!(failed.is_none());
}

#[test]
fn p1_17_fail_on_decode_fails_the_job() {
    let data = b"{\"device_id\":\"d1\",\"v\":1,\"ts\":1000000}\nthis is not json\n";
    let mut spec = pipeline();
    spec.fail_on_decode = true;
    let (mut store, mut sup) = started_with("p117", &spec);
    let (_, _, failed) = drive(data, &spec);
    let e = failed.expect("fail_on_decode must fail the job, not only count");
    sup.on_failed(&mut store, "p117", 1, &e.message, 0);
    let a = store.actual("p117").unwrap();
    assert_eq!(a.status.as_str(), "failed");
    let err = a.last_error.unwrap_or_default();
    assert!(
        err.contains("decode") || err.contains("fail_on_decode") || err.contains("codec"),
        "failed for decode, got: {err}"
    );
}

#[test]
fn r4_oversize_decode_policy_on_both_supervisor_paths() {
    let data = format!(
        "{}\n{{\"device_id\":\"ok\",\"v\":1}}\n{{\"device_id\":\"ok\",\"v\":2}}\n",
        "x".repeat(70 * 1024)
    )
    .into_bytes();
    let files = FileFacts {
        roots: vec!["/data".to_string()],
        path: Ok(PATH.to_string()),
        checkpoint_dir: Ok("/data/chk".to_string()),
    };
    let kind = WindowKind::Count { size: 2 };
    let plan = vec![PlanStage::Window { operator: 2, kind, fingerprint: 77, filter: 0 }];
    for recovery in ["aligned", "restart_fresh"] {
        for fail in [false, true] {
            let mut spec = pipeline();
            spec.recovery = recovery.to_string();
            spec.fail_on_decode = fail;
            let (mut store, mut sup) = started_with("input", &spec);
            let wired = wire_source(&spec, schema(), &plan, None, &files, "input", 1, 1).unwrap();
            let (config, setup) = match wired {
                SourceWiring::Aligned(config, setup) => (config, Some(setup)),
                SourceWiring::File(config) => (config, None),
                other => panic!("{other:?}"),
            };
            assert_eq!(setup.is_some(), recovery == "aligned");
            let mut src = Reader::open(&data, config.contract);
            let at = src.source.position();
            let mut run = setup.as_ref().map(|setup| begin(setup, None, at).unwrap());
            let fails = config.fail_on_decode;
            let (rows, errs, failed) =
                drive_source(&mut src, &data, config.contract, fails, &mut run);
            if fail {
                sup.on_failed(&mut store, "input", 1, &failed.unwrap().message, 0);
                let actual = store.actual("input").unwrap();
                assert_eq!(actual.status.as_str(), "failed");
                assert_eq!(actual.consecutive_failures, 1);
                assert!(actual.last_error.unwrap().contains("fail_on_decode"));
                continue;
            }
            assert!(failed.is_none());
            assert_eq!(errs, 1);
            assert_eq!(store.actual("input").unwrap().status.as_str(), "running");
            assert_eq!(rows, 2);
            if let (Some(mut run), Some(setup)) = (run, setup) {
                assert_eq!(run.ingested, 2);
                sup.check_checkpoint("input", true).unwrap();
                let cut = run.cut();
                let snapshot = run.snapshot(&cut, &setup.layout);
                assert_eq!((snapshot.ingested_rows, snapshot.source.record_index), (2, 3));
                assert_eq!(snapshot.source.offset_bytes, data.len() as u64);
                let reply = run.on_committed(Ok(snapshot.checkpoint_id));
                assert!(matches!(reply, CheckpointReply::Committed(1)));
            }
        }
    }
}

#[test]
fn n7_aligned_checkpoint_refuses_after_sink_4xx() {
    assert_eq!(after_post(PostResult::Status(400), 0, 2), PostStep::Failed);
    let mut run = AlignedRun::fresh(Reader::open(TWO, FileContract::AppendOnly).source.position());
    let cut = run.cut();
    let refused = SparrowError::new(
        ErrorCode::JobFailed,
        "aligned checkpoint refused: the sink dropped rows".to_string(),
    );
    let CheckpointReply::Failed(_) = run.on_abandoned(&cut, refused) else {
        panic!("aligned must refuse commit after HTTP 4xx drop")
    };
    assert_eq!((run.commits, run.aborts), (0, 1));
    assert!(run.cut().checkpoint_id > cut.checkpoint_id);
}
