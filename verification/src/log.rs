//! The sink that keeps the last lines it was given.

use crate::capabilities::{durable_fault, refuse_durable_recovery, ConnectorCapabilities, RestoreClaim};
use crate::error::ConnectorError;
use crate::http::wire::{lossy, lossy_text};
use crate::text::texts;
use vstd::prelude::*;

verus! {

/// Settings of the log sink.
#[derive(Debug)]
pub struct LogSinkConfig {
    pub restore: RestoreClaim,
}

impl Default for LogSinkConfig {
    /// Nothing is restored.
    fn default() -> (r: Self)
        ensures
            r.restore is Absent,
    {
        LogSinkConfig { restore: RestoreClaim::Absent }
    }
}

impl LogSinkConfig {
    /// What the log sink can do.
    pub fn capabilities() -> (r: ConnectorCapabilities)
        ensures
            r.live("log"@),
    {
        ConnectorCapabilities::log_sink()
    }

    /// Refuses a claim of restored state.
    pub fn validate(&self) -> (r: Result<(), ConnectorError>)
        ensures
            match r {
                Ok(()) => self.restore is Absent,
                Err(e) => !(self.restore is Absent) && e@ == durable_fault(),
            },
    {
        refuse_durable_recovery(&self.restore)
    }
}

/// The last lines that were written, oldest first.
#[derive(Debug)]
pub struct LogSink {
    lines: Vec<String>,
    max_lines: usize,
    written: u64,
}

/// The ring after one more line: the oldest makes room where it is full.
pub open spec fn kept(lines: Seq<Seq<char>>, max: int, line: Seq<char>) -> Seq<Seq<char>> {
    if lines.len() >= max {
        lines.skip(1).push(line)
    } else {
        lines.push(line)
    }
}

/// The ring after rows were written, each given as its encoding or as a failure
/// to encode it, which leaves no line.
pub open spec fn kept_all(
    lines: Seq<Seq<char>>,
    max: int,
    rows: Seq<Option<Seq<u8>>>,
) -> Seq<Seq<char>>
    decreases rows.len(),
{
    if rows.len() == 0 {
        lines
    } else {
        let before = kept_all(lines, max, rows.drop_last());
        match rows.last() {
            Some(b) => kept(before, max, lossy_text(b)),
            None => before,
        }
    }
}

/// How many of the rows could be encoded.
pub open spec fn encoded(rows: Seq<Option<Seq<u8>>>) -> nat
    decreases rows.len(),
{
    if rows.len() == 0 {
        0
    } else {
        encoded(rows.drop_last()) + if rows.last() is Some {
            1nat
        } else {
            0
        }
    }
}

/// The encodings by what they hold.
pub open spec fn encodings(rows: Seq<Option<Vec<u8>>>) -> Seq<Option<Seq<u8>>> {
    rows.map_values(
        |r: Option<Vec<u8>>|
            match r {
                Some(b) => Some(b@),
                None => None,
            },
    )
}

impl LogSink {
    /// The lines, oldest first.
    pub closed spec fn view(&self) -> Seq<Seq<char>> {
        texts(self.lines@)
    }

    /// How many lines are kept.
    pub closed spec fn max(&self) -> int {
        self.max_lines as int
    }

    /// How many lines were written.
    pub closed spec fn count(&self) -> int {
        self.written as int
    }

    /// The ring is within its bound, which leaves room for a line.
    pub open spec fn wf(&self) -> bool {
        &&& self.max() >= 1
        &&& self@.len() <= self.max()
    }

    /// An empty ring with room for at least one line.
    pub fn new(max_lines: usize) -> (r: Self)
        ensures
            r.wf(),
            r@ == Seq::<Seq<char>>::empty(),
            r.max() == if max_lines == 0 {
                1
            } else {
                max_lines as int
            },
            r.count() == 0,
    {
        let r = LogSink {
            lines: Vec::new(),
            max_lines: if max_lines == 0 {
                1
            } else {
                max_lines
            },
            written: 0,
        };
        assert(r@ =~= Seq::<Seq<char>>::empty());
        r
    }

    /// The lines, oldest first.
    pub fn lines(&self) -> (r: &Vec<String>)
        ensures
            texts(r@) == self@,
    {
        &self.lines
    }

    /// How many lines were written.
    pub fn written(&self) -> (r: u64)
        ensures
            r == self.count(),
    {
        self.written
    }

    /// Lines are in the ring as soon as they are written: nothing is left to do.
    pub fn flush(&self) -> (r: Result<(), ConnectorError>)
        ensures
            r is Ok,
    {
        Ok(())
    }

    fn write_line(&mut self, line: String)
        requires
            old(self).wf(),
            old(self).count() < u64::MAX,
        ensures
            final(self).wf(),
            final(self)@ == kept(old(self)@, old(self).max(), line@),
            final(self).max() == old(self).max(),
            final(self).count() == old(self).count() + 1,
    {
        if self.lines.len() >= self.max_lines {
            self.lines.remove(0);
            assert(self@ =~= old(self)@.skip(1));
        }
        let ghost before = self@;
        self.lines.push(line);
        assert(self@ =~= before.push(line@));
        self.written = self.written + 1;
    }

    /// Writes a batch of rows, each given as its encoding. A row that could not
    /// be encoded leaves no line.
    pub fn write_batch(&mut self, rows: &Vec<Option<Vec<u8>>>)
        requires
            old(self).wf(),
            old(self).count() + rows.len() <= u64::MAX,
        ensures
            final(self).wf(),
            final(self)@ == kept_all(old(self)@, old(self).max(), encodings(rows@)),
            final(self).max() == old(self).max(),
            final(self).count() == old(self).count() + encoded(encodings(rows@)),
    {
        let ghost all = encodings(rows@);
        let mut i: usize = 0;
        while i < rows.len()
            invariant
                i <= rows.len(),
                all == encodings(rows@),
                self.wf(),
                self.max() == old(self).max(),
                self@ == kept_all(old(self)@, old(self).max(), all.take(i as int)),
                self.count() == old(self).count() + encoded(all.take(i as int)),
                encoded(all.take(i as int)) <= i,
                old(self).count() + rows.len() <= u64::MAX,
            decreases rows.len() - i,
        {
            proof {
                let next = all.take(i + 1);
                assert(next.drop_last() =~= all.take(i as int));
                assert(next.last() == all[i as int]);
            }
            match &rows[i] {
                Some(b) => {
                    let line: String = lossy(b.as_slice());
                    self.write_line(line);
                },
                None => {},
            }
            i = i + 1;
        }
        assert(all.take(i as int) =~= all);
    }
}

/// The text of the rows that could be encoded, in order.
pub open spec fn written_lines(rows: Seq<Option<Seq<u8>>>) -> Seq<Seq<char>>
    decreases rows.len(),
{
    if rows.len() == 0 {
        Seq::empty()
    } else {
        let before = written_lines(rows.drop_last());
        match rows.last() {
            Some(b) => before.push(lossy_text(b)),
            None => before,
        }
    }
}

/// The last `max` elements.
pub open spec fn last_of(s: Seq<Seq<char>>, max: int) -> Seq<Seq<char>> {
    if s.len() > max {
        s.skip(s.len() - max)
    } else {
        s
    }
}

/// The ring holds exactly the last lines of everything that was written.
pub proof fn law_ring_keeps_the_last(
    lines: Seq<Seq<char>>,
    max: int,
    rows: Seq<Option<Seq<u8>>>,
)
    requires
        max >= 1,
        lines.len() <= max,
    ensures
        kept_all(lines, max, rows) == last_of(lines + written_lines(rows), max),
    decreases rows.len(),
{
    if rows.len() == 0 {
        assert(lines + written_lines(rows) =~= lines);
    } else {
        law_ring_keeps_the_last(lines, max, rows.drop_last());
        let w = lines + written_lines(rows.drop_last());
        match rows.last() {
            Some(b) => {
                let line = lossy_text(b);
                assert(lines + written_lines(rows) =~= w.push(line));
                assert(kept(last_of(w, max), max, line) =~= last_of(w.push(line), max));
            },
            None => {},
        }
    }
}

} // verus!
