//! Driving a file source: what one read gives, how many reads make a batch, and
//! what is done with each.

use crate::file_replay::{FileContract, ReadOutcome, TERMINAL_WM_MICROS};
use crate::model::{err, fault, outcome, ErrorCode, Fault, Row, SparrowError};
use vstd::prelude::*;

verus! {

/// How long a growing file is left alone at its end, in milliseconds.
pub const FILE_EOF_POLL_MS: u64 = 40;

/// Records that are read in one go.
pub const FILE_POLL_BATCH_FRAMES: usize = 32;

/// Bytes of rows after which one go ends.
pub const FILE_POLL_BATCH_BYTES: usize = 65536;

/// What one read of a file source gives.
#[derive(Debug)]
pub enum FilePoll {
    Row(Row),
    /// A record that cannot be decoded, or that is too large.
    DecodeError,
    /// The scan budget is used up.
    Pending,
    Eof,
}

/// What a decoded record is reported as. A record without a row counts as one
/// that cannot be decoded.
pub open spec fn poll_of(reply: Result<Option<Row>, SparrowError>) -> FilePoll {
    match reply {
        Ok(Some(row)) => FilePoll::Row(row),
        _ => FilePoll::DecodeError,
    }
}

/// Decodes what a read found. `None` asks for more bytes of the file.
pub fn poll_decoded<F: Fn(&Vec<u8>) -> Result<Option<Row>, SparrowError>>(
    found: ReadOutcome,
    decode: &F,
) -> (r: Option<FilePoll>)
    requires
        forall|b: &Vec<u8>| #[trigger] call_requires(*decode, (b,)),
    ensures
        match found {
            ReadOutcome::NeedMore => r is None,
            ReadOutcome::Pending => r == Some(FilePoll::Pending),
            ReadOutcome::End => r == Some(FilePoll::Eof),
            ReadOutcome::Oversized => r == Some(FilePoll::DecodeError),
            ReadOutcome::Frame(b) => exists|reply: Result<Option<Row>, SparrowError>| #[trigger]
                call_ensures(*decode, (&b,), reply) && r == Some(poll_of(reply)),
        },
{
    match found {
        ReadOutcome::NeedMore => None,
        ReadOutcome::Pending => Some(FilePoll::Pending),
        ReadOutcome::End => Some(FilePoll::Eof),
        ReadOutcome::Oversized => Some(FilePoll::DecodeError),
        ReadOutcome::Frame(b) => {
            let reply: Result<Option<Row>, SparrowError> = decode(&b);
            match reply {
                Ok(Some(row)) => Some(FilePoll::Row(row)),
                _ => Some(FilePoll::DecodeError),
            }
        },
    }
}

/// Reads that are handed over together.
#[derive(Debug)]
pub struct PollBatch {
    pub polls: Vec<FilePoll>,
    /// Bytes of the rows so far.
    pub bytes: usize,
}

/// Bytes that do not pass the largest count.
pub open spec fn capped(n: int) -> usize {
    if n > usize::MAX {
        usize::MAX
    } else {
        n as usize
    }
}

/// The number of frames that a batch may hold.
pub open spec fn frame_limit(max_frames: usize) -> int {
    if max_frames == 0 {
        1
    } else {
        max_frames as int
    }
}

impl PollBatch {
    /// Nothing was read yet.
    pub fn new() -> (r: Self)
        ensures
            r.polls@ == Seq::<FilePoll>::empty(),
            r.bytes == 0,
    {
        PollBatch { polls: Vec::new(), bytes: 0 }
    }

    /// Adds a read; `size` is what its row takes. Says whether the batch is
    /// complete: it is full, the row went past the byte limit, or the file has
    /// nothing more to give now.
    pub fn take(&mut self, poll: FilePoll, size: usize, max_frames: usize, max_bytes: usize) -> (r:
        bool)
        requires
            old(self).polls.len() < frame_limit(max_frames),
        ensures
            final(self).polls@ == old(self).polls@.push(poll),
            ({
                let grown = capped(old(self).bytes + size);
                let over = poll is Row && old(self).polls@.len() > 0 && grown > max_bytes;
                &&& final(self).bytes == if poll is Row && !over {
                    grown
                } else {
                    old(self).bytes
                }
                &&& r == (over || poll is Eof || poll is Pending || final(self).polls@.len()
                    == frame_limit(max_frames))
            }),
            !r ==> final(self).polls.len() < frame_limit(max_frames),
    {
        let limit: usize = if max_frames == 0 {
            1
        } else {
            max_frames
        };
        let mut done: bool = false;
        match &poll {
            FilePoll::Row(_) => {
                let grown: usize = self.bytes.saturating_add(size);
                if self.polls.len() > 0 && grown > max_bytes {
                    done = true;
                } else {
                    self.bytes = grown;
                }
            },
            FilePoll::DecodeError => {},
            _ => {
                done = true;
            },
        }
        self.polls.push(poll);
        done || self.polls.len() == limit
    }
}

/// What is done with one read.
#[derive(Debug)]
pub enum FileStep {
    /// The row is sent on.
    Send(Row),
    /// Other tasks get a turn.
    Yield,
    /// The record is counted as not decoded and skipped.
    Skip,
    /// A watermark closes every window, and the source is done.
    Close(i64),
    /// The source is done.
    Done,
    /// The file may grow: it is looked at again later.
    Wait,
}

/// Whether the source goes on after a row was handed to its receiver.
#[derive(Clone, Copy, Debug, PartialEq, Eq, Structural)]
pub enum FileProgress {
    Continue,
    Wait,
    Done,
}

/// The fault of a record that may not be skipped.
pub open spec fn decode_fault() -> Fault {
    fault(ErrorCode::CodecViolation, "file decode failed (fail_on_decode)"@)
}

/// What is done with a read.
pub open spec fn step_of(
    poll: FilePoll,
    contract: FileContract,
    terminal_sent: bool,
    fail_on_decode: bool,
) -> Result<FileStep, Fault> {
    match poll {
        FilePoll::Row(row) => Ok(FileStep::Send(row)),
        FilePoll::Pending => Ok(FileStep::Yield),
        FilePoll::DecodeError => if fail_on_decode {
            Err(decode_fault())
        } else {
            Ok(FileStep::Skip)
        },
        FilePoll::Eof => if contract == FileContract::AppendOnly {
            Ok(FileStep::Wait)
        } else if terminal_sent {
            Ok(FileStep::Done)
        } else {
            Ok(FileStep::Close(TERMINAL_WM_MICROS))
        },
    }
}

/// Decides what is done with a read. The closing watermark goes out at most
/// once, and never for a file that may grow.
pub fn apply_file_poll(
    poll: FilePoll,
    contract: FileContract,
    terminal_sent: &mut bool,
    fail_on_decode: bool,
) -> (r: Result<FileStep, SparrowError>)
    ensures
        outcome(r) == step_of(poll, contract, *old(terminal_sent), fail_on_decode),
        *final(terminal_sent) == (*old(terminal_sent) || (r matches Ok(FileStep::Close(_)))),
{
    match poll {
        FilePoll::Row(row) => Ok(FileStep::Send(row)),
        FilePoll::Pending => Ok(FileStep::Yield),
        FilePoll::DecodeError => if fail_on_decode {
            Err(err(ErrorCode::CodecViolation, "file decode failed (fail_on_decode)"))
        } else {
            Ok(FileStep::Skip)
        },
        FilePoll::Eof => if contract.eof_is_terminal() {
            if *terminal_sent {
                Ok(FileStep::Done)
            } else {
                *terminal_sent = true;
                Ok(FileStep::Close(TERMINAL_WM_MICROS))
            }
        } else {
            Ok(FileStep::Wait)
        },
    }
}

/// What follows a step; `delivered` says whether the receiver took the row.
pub fn progress(step: &FileStep, delivered: bool) -> (r: FileProgress)
    ensures
        r == match *step {
            FileStep::Send(_) => if delivered {
                FileProgress::Continue
            } else {
                FileProgress::Done
            },
            FileStep::Yield => FileProgress::Continue,
            FileStep::Skip => FileProgress::Continue,
            FileStep::Close(_) => FileProgress::Done,
            FileStep::Done => FileProgress::Done,
            FileStep::Wait => FileProgress::Wait,
        },
{
    match step {
        FileStep::Send(_) => if delivered {
            FileProgress::Continue
        } else {
            FileProgress::Done
        },
        FileStep::Yield => FileProgress::Continue,
        FileStep::Skip => FileProgress::Continue,
        FileStep::Close(_) => FileProgress::Done,
        FileStep::Done => FileProgress::Done,
        FileStep::Wait => FileProgress::Wait,
    }
}

/// Whether the closing watermark went out while these reads were applied.
pub open spec fn closes(
    polls: Seq<FilePoll>,
    contract: FileContract,
    terminal_sent: bool,
    fail_on_decode: bool,
) -> int
    decreases polls.len(),
{
    if polls.len() == 0 {
        0
    } else {
        match step_of(polls[0], contract, terminal_sent, fail_on_decode) {
            Err(_) => 0,
            Ok(FileStep::Close(_)) => 1 + closes(polls.skip(1), contract, true, fail_on_decode),
            Ok(_) => closes(polls.skip(1), contract, terminal_sent, fail_on_decode),
        }
    }
}

/// However often the end of a file is read, its windows are closed at most
/// once, and those of a growing file never.
pub proof fn law_windows_close_once(
    polls: Seq<FilePoll>,
    contract: FileContract,
    terminal_sent: bool,
    fail_on_decode: bool,
)
    ensures
        closes(polls, contract, terminal_sent, fail_on_decode) <= if terminal_sent || contract
            == FileContract::AppendOnly {
            0int
        } else {
            1
        },
    decreases polls.len(),
{
    if polls.len() > 0 {
        law_windows_close_once(polls.skip(1), contract, true, fail_on_decode);
        law_windows_close_once(polls.skip(1), contract, terminal_sent, fail_on_decode);
    }
}

} // verus!
