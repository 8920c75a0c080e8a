//! What a reader finds in a finite file: its lines, in order, however the file
//! comes in.

use crate::file_poll::{poll_of, FilePoll};
use crate::file_replay::{
    absorbed, lemma_newline_range, newline_at, read_from, scanned, stepped, stripped, Cursor,
    Ending, Found, MAX_RECORD,
};
use crate::model::{Row, SparrowError};
use vstd::prelude::*;

verus! {

/// The record of a line; an empty line holds none.
pub open spec fn kept(line: Seq<u8>) -> Seq<Seq<u8>> {
    if stripped(line).len() == 0 {
        Seq::empty()
    } else {
        seq![stripped(line)]
    }
}

/// The records of a finite file: its lines that are not empty, each without its
/// newline and a carriage return before it. The last line may lack its newline.
#[verifier::opaque]
pub open spec fn records(b: Seq<u8>) -> Seq<Seq<u8>>
    decreases b.len(),
{
    match newline_at(b) {
        None => kept(b),
        Some(i) => if 0 <= i < b.len() {
            kept(b.take(i + 1)) + records(b.skip(i + 1))
        } else {
            Seq::empty()
        },
    }
}

/// Every line has at most the length of a record.
#[verifier::opaque]
pub open spec fn within(b: Seq<u8>) -> bool
    decreases b.len(),
{
    match newline_at(b) {
        None => b.len() <= MAX_RECORD,
        Some(i) => 0 <= i < b.len() && i <= MAX_RECORD && within(b.skip(i + 1)),
    }
}

/// Bytes without a newline put its first one further back.
proof fn lemma_newline_behind(p: Seq<u8>, b: Seq<u8>)
    requires
        !p.contains(10),
    ensures
        newline_at(p + b) == match newline_at(b) {
            Some(i) => Some(p.len() + i),
            None => None::<int>,
        },
    decreases p.len(),
{
    if p.len() == 0 {
        assert(p + b =~= b);
    } else {
        let tail = p.skip(1);
        assert(p.contains(p[0]));
        assert((p + b)[0] == p[0]);
        assert((p + b).skip(1) =~= tail + b);
        assert forall|i: int| 0 <= i < tail.len() implies tail[i] != 10 by {
            assert(p.contains(p[i + 1]));
        }
        lemma_newline_behind(tail, b);
    }
}

/// The first newline does not move when more bytes follow.
proof fn lemma_newline_stays(a: Seq<u8>, more: Seq<u8>)
    requires
        newline_at(a) is Some,
    ensures
        newline_at(a + more) == newline_at(a),
    decreases a.len(),
{
    assert((a + more)[0] == a[0]);
    if a[0] != 10 {
        assert((a + more).skip(1) =~= a.skip(1) + more);
        lemma_newline_stays(a.skip(1), more);
    }
}

/// The start of a line is no longer than a record.
proof fn lemma_start_is_within(p: Seq<u8>, more: Seq<u8>)
    requires
        !p.contains(10),
        within(p + more),
    ensures
        p.len() <= MAX_RECORD,
{
    reveal(within);
    lemma_newline_range(p + more);
    match newline_at(p + more) {
        None => {},
        Some(i) => {
            if i < p.len() {
                assert(p[i] == (p + more)[i]);
                assert(p.contains(p[i]));
            }
        },
    }
}

/// A reader inside a line that is not too long.
pub open spec fn reading(c: Cursor, rest: Seq<u8>) -> bool {
    &&& c.wf()
    &&& !c.discarding
    &&& !c.pending.contains(10)
    &&& within(c.pending + rest)
}

/// Bytes without a newline are taken in as a part of the line.
proof fn lemma_part(c: Cursor, chunk: Seq<u8>, more: Seq<u8>)
    requires
        reading(c, chunk + more),
        newline_at(chunk) is None,
    ensures
        reading(absorbed(c, chunk), more),
        absorbed(c, chunk).offset == c.offset,
        absorbed(c, chunk).seen == c.seen + chunk.len(),
        absorbed(c, chunk).pending + more == c.pending + (chunk + more),
{
    let p = c.pending + chunk;
    lemma_newline_range(chunk);
    assert forall|i: int| 0 <= i < p.len() implies p[i] != 10 by {
        if i < c.pending.len() {
            assert(c.pending.contains(c.pending[i]));
        } else {
            assert(p[i] == chunk[i - c.pending.len()]);
        }
    }
    assert(c.pending + (chunk + more) =~= p + more);
    lemma_start_is_within(p, more);
    if chunk.len() > 0 {
        assert(chunk.last() == p[p.len() - 1]);
    }
}

/// A newline ends the line, and its record is the first of those to come.
proof fn lemma_line(c: Cursor, chunk: Seq<u8>, more: Seq<u8>)
    requires
        reading(c, chunk + more),
        newline_at(chunk) is Some,
    ensures
        ({
            let i = newline_at(chunk)->Some_0;
            let (n, d, e) = scanned(c, chunk);
            let line = c.pending + chunk.take(i + 1);
            let rest = chunk.skip(n) + more;
            &&& 0 <= i < chunk.len()
            &&& n == i + 1
            &&& d.offset == c.offset + c.seen + n
            &&& d.seen == 0
            &&& d.pending == Seq::<u8>::empty()
            &&& reading(d, rest)
            &&& e == Some(
                if stripped(line).len() == 0 {
                    Ending::Blank
                } else {
                    Ending::Frame(stripped(line))
                },
            )
            &&& records(c.pending + (chunk + more)) == kept(line) + records(rest)
        }),
{
    reveal(records);
    reveal(within);
    let i = newline_at(chunk)->Some_0;
    let whole = c.pending + (chunk + more);
    let end = c.pending.len() + i;
    lemma_newline_range(chunk);
    lemma_newline_stays(chunk, more);
    lemma_newline_behind(c.pending, chunk + more);
    let line = c.pending + chunk.take(i + 1);
    let rest = chunk.skip(i + 1) + more;
    assert(whole.take(end + 1) =~= line);
    assert(whole.skip(end + 1) =~= rest);
    assert(chunk.take(i + 1).last() == 10);
    assert(Seq::<u8>::empty() + rest =~= rest);
}

/// One read gives the next record or comes nearer to it. `a` are the bytes that
/// are there, `more` those behind them.
proof fn lemma_read(c: Cursor, a: Seq<u8>, more: Seq<u8>, budget: int)
    requires
        reading(c, a + more),
    ensures
        ({
            let (n, d, f) = read_from(c, a, budget);
            let rest = a.skip(n) + more;
            &&& 0 <= n <= a.len()
            &&& budget > 0 && a.len() > 0 ==> n > 0
            &&& reading(d, rest)
            &&& d.offset + d.seen == c.offset + c.seen + n
            &&& match f {
                Found::Frame(x) => records(c.pending + (a + more)) == seq![x] + records(
                    d.pending + rest,
                ),
                Found::NeedMore | Found::Pending => records(c.pending + (a + more)) == records(
                    d.pending + rest,
                ),
                _ => false,
            }
        }),
    decreases a.len(),
{
    if budget <= 0 || a.len() == 0 {
        assert(a.skip(0) =~= a);
    } else {
        let k = if a.len() < budget {
            a.len() as int
        } else {
            budget
        };
        let chunk = a.take(k);
        let behind = a.skip(k) + more;
        assert(a + more =~= chunk + behind);
        let (n, d, e) = scanned(c, chunk);
        if newline_at(chunk) is None {
            lemma_part(c, chunk, behind);
        } else {
            lemma_line(c, chunk, behind);
            assert(chunk.skip(n) + behind =~= a.skip(n) + more);
            assert(d.pending + (a.skip(n) + more) =~= a.skip(n) + more);
        }
        if !(e matches Some(Ending::Frame(_))) {
            if e is Some {
                assert(Seq::<Seq<u8>>::empty() + records(a.skip(n) + more) =~= records(
                    a.skip(n) + more,
                ));
            }
            lemma_read(d, a.skip(n), more, budget - n);
            let m = read_from(d, a.skip(n), budget - n).0;
            assert(a.skip(n).skip(m) =~= a.skip(n + m));
        }
    }
}

/// How one step of a reader goes: how many bytes are there, and how many of them
/// it may look at.
pub ghost struct Glance {
    pub there: nat,
    pub budget: nat,
}

/// The bytes that a glance shows of what is left.
pub open spec fn shown(rest: Seq<u8>, g: Glance) -> Seq<u8> {
    rest.take(
        if g.there < rest.len() {
            g.there as int
        } else {
            rest.len() as int
        },
    )
}

/// What the steps of a reader over a finite file give, and where it then is. A
/// step that only asks for more, or for another turn, gives nothing.
pub open spec fn steps(c: Cursor, rest: Seq<u8>, how: Seq<Glance>) -> (Seq<Found>, Cursor)
    decreases how.len(),
{
    if how.len() == 0 {
        (Seq::empty(), c)
    } else {
        let (n, d, f) = stepped(c, shown(rest, how[0]), how[0].budget as int, true);
        let (later, end) = steps(d, rest.skip(n), how.skip(1));
        (
            if f is NeedMore || f is Pending {
                later
            } else {
                seq![f] + later
            },
            end,
        )
    }
}

/// Records, each as a reader gives it.
pub open spec fn framed(r: Seq<Seq<u8>>) -> Seq<Found> {
    r.map_values(|x: Seq<u8>| Found::Frame(x))
}

/// The end of the file, so many times.
pub open spec fn ends(n: nat) -> Seq<Found> {
    Seq::new(n, |i: int| Found::End)
}

/// The steps from within a file. The result is how many records are given, and
/// how often the end.
proof fn lemma_steps(c: Cursor, rest: Seq<u8>, how: Seq<Glance>) -> (r: (nat, nat))
    requires
        reading(c, rest),
        forall|i: int| 0 <= i < how.len() ==> (#[trigger] how[i]).there > 0 && how[i].budget > 0,
    ensures
        ({
            let (k, m) = r;
            let all = records(c.pending + rest);
            let (out, d) = steps(c, rest, how);
            &&& k <= all.len()
            &&& out == framed(all.take(k as int)) + ends(m)
            &&& m > 0 ==> k == all.len() && d.seen == 0 && d.offset == c.offset + c.seen
                + rest.len()
            &&& how.len() >= rest.len() + 2 ==> m > 0
        }),
    decreases how.len(),
{
    let all = records(c.pending + rest);
    if how.len() == 0 {
        assert(framed(all.take(0)) + ends(0) =~= Seq::<Found>::empty());
        (0, 0)
    } else {
        let b = shown(rest, how[0]);
        let budget = how[0].budget as int;
        let after = how.skip(1);
        assert(how[0].there > 0 && how[0].budget > 0);
        assert forall|i: int| 0 <= i < after.len() implies (#[trigger] after[i]).there > 0
            && after[i].budget > 0 by {
            assert(after[i] == how[i + 1]);
        }
        let (n, d, f) = stepped(c, b, budget, true);
        if rest.len() > 0 {
            let more = rest.skip(b.len() as int);
            assert(rest =~= b + more);
            lemma_read(c, b, more, budget);
            assert(rest.skip(n) =~= b.skip(n) + more);
            let (k, m) = lemma_steps(d, rest.skip(n), after);
            let left = records(d.pending + rest.skip(n));
            match f {
                Found::Frame(x) => {
                    assert(all.take(k as int + 1) =~= seq![x] + left.take(k as int));
                    assert(framed(all.take(k as int + 1)) + ends(m) =~= seq![f] + (framed(
                        left.take(k as int),
                    ) + ends(m)));
                    (k + 1, m)
                },
                _ => (k, m),
            }
        } else {
            assert(b =~= Seq::<u8>::empty());
            assert(rest.skip(n) =~= rest);
            assert(c.pending + rest =~= c.pending);
            let none = Seq::<u8>::empty();
            lemma_newline_range(c.pending);
            assert(newline_at(c.pending) is None) by {
                match newline_at(c.pending) {
                    Some(i) => {
                        assert(c.pending.contains(c.pending[i]));
                    },
                    None => {},
                }
            }
            assert(all == kept(c.pending)) by {
                reveal(records);
            }
            assert(d.pending =~= none);
            assert(d.pending + rest =~= none);
            assert(within(none)) by {
                reveal(within);
            }
            assert(records(none) =~= Seq::<Seq<u8>>::empty()) by {
                reveal(records);
            }
            let (k, m) = lemma_steps(d, rest, after);
            if f is Frame {
                assert(f == Found::Frame(stripped(c.pending)));
                assert(all.take(1) =~= all);
                assert(framed(all.take(1)) + ends(m) =~= seq![f] + (framed(
                    records(none).take(0),
                ) + ends(m)));
                (1, m)
            } else {
                assert(f == Found::End);
                assert(all =~= Seq::<Seq<u8>>::empty());
                assert(framed(all.take(0)) + ends((m + 1) as nat) =~= seq![f] + (framed(
                    records(none).take(0),
                ) + ends(m)));
                (0, (m + 1) as nat)
            }
        }
    }
}

/// A reader at a cut of a finite file without a line that is too long gives the
/// lines behind the cut that are not empty, one by one and in order, each exactly
/// once, and then the end of the file and nothing else; it then stands behind the
/// last byte. How the bytes come in, and how many of them it looks at in one
/// step, makes no difference, and each step brings it on: there are no more steps
/// before the end than bytes and one.
pub proof fn law_finite_file_gives_its_lines(c: Cursor, data: Seq<u8>, how: Seq<Glance>)
    requires
        c.wf(),
        c.seen == 0,
        0 <= c.offset <= data.len(),
        within(data.skip(c.offset)),
        forall|i: int| 0 <= i < how.len() ==> (#[trigger] how[i]).there > 0 && how[i].budget > 0,
    ensures
        ({
            let all = records(data.skip(c.offset));
            let (out, d) = steps(c, data.skip(c.offset), how);
            exists|k: nat, m: nat|
                {
                    &&& k <= all.len()
                    &&& out == #[trigger] framed(all.take(k as int)) + #[trigger] ends(m)
                    &&& m > 0 ==> k == all.len() && d.seen == 0 && d.offset == data.len()
                    &&& how.len() >= data.len() - c.offset + 2 ==> m > 0
                }
        }),
{
    let rest = data.skip(c.offset);
    assert(c.pending =~= Seq::<u8>::empty());
    assert(c.pending + rest =~= rest);
    let (k, m) = lemma_steps(c, rest, how);
    let all = records(rest);
    assert(steps(c, rest, how).0 == framed(all.take(k as int)) + ends(m));
}

/// What a step is reported as, `g` saying what a decoder answers.
pub open spec fn polled(
    f: Found,
    g: spec_fn(Seq<u8>) -> Result<Option<Row>, SparrowError>,
) -> Option<FilePoll> {
    match f {
        Found::NeedMore => None,
        Found::Pending => Some(FilePoll::Pending),
        Found::End => Some(FilePoll::Eof),
        Found::Oversized => Some(FilePoll::DecodeError),
        Found::Frame(b) => Some(poll_of(g(b))),
    }
}

/// Of a finite file without a line that is too long, each line behind the cut
/// that is not empty is reported once, in order, as a row or as one that cannot
/// be decoded, and what comes behind is the end of the file.
pub proof fn law_finite_file_is_reported(
    c: Cursor,
    data: Seq<u8>,
    how: Seq<Glance>,
    g: spec_fn(Seq<u8>) -> Result<Option<Row>, SparrowError>,
)
    requires
        c.wf(),
        c.seen == 0,
        0 <= c.offset <= data.len(),
        within(data.skip(c.offset)),
        forall|i: int| 0 <= i < how.len() ==> (#[trigger] how[i]).there > 0 && how[i].budget > 0,
    ensures
        ({
            let all = records(data.skip(c.offset));
            let (out, d) = steps(c, data.skip(c.offset), how);
            &&& forall|i: int|
                0 <= i < out.len() ==> #[trigger] polled(out[i], g) == if i < all.len() {
                    Some(poll_of(g(all[i])))
                } else {
                    Some(FilePoll::Eof)
                }
            &&& how.len() >= data.len() - c.offset + 2 ==> out.len() > all.len() && d.offset
                == data.len()
        }),
{
    let rest = data.skip(c.offset);
    assert(c.pending =~= Seq::<u8>::empty());
    assert(c.pending + rest =~= rest);
    let (k, m) = lemma_steps(c, rest, how);
    let all = records(rest);
    let out = steps(c, rest, how).0;
    assert(out == framed(all.take(k as int)) + ends(m));
    assert forall|i: int| 0 <= i < out.len() implies #[trigger] polled(out[i], g) == if i
        < all.len() {
        Some(poll_of(g(all[i])))
    } else {
        Some(FilePoll::Eof)
    } by {
        if i < k {
            assert(out[i] == Found::Frame(all.take(k as int)[i]));
        } else {
            assert(out[i] == ends(m)[i - k]);
        }
    }
}

} // verus!
