//! What the benchmark writes, and whether what came out of an engine is exactly
//! what should have: every row once, nothing else.

use crate::bench::body::{body_rows, json_shape, rows_in};
use crate::control::secrets::{hex_encode, hex_text};
use crate::file_replay::{fnv_continue, fnv_from};
use crate::text::{cat2, cat3, cat5, dec, decimal, same};
use vstd::arithmetic::power2::{
    lemma2_to64, lemma2_to64_rest, lemma_pow2_pos, lemma_pow2_strictly_increases,
    lemma_pow2_unfold, pow2,
};
use vstd::prelude::*;
use vstd::string::*;
use vstd::utf8::encode_utf8;

verus! {

/// Where the rows of a trial come from.
#[derive(Clone, Copy, Debug, PartialEq, Eq, Structural)]
pub enum Kind {
    Mqtt,
    File,
}

/// What a field of a row holds where it is a number.
#[derive(Clone, Copy, Debug, PartialEq, Eq, Structural)]
pub struct Figure {
    /// The number, where it is written as a whole one.
    pub whole: Option<u64>,
    /// The bits of the double that is nearest to the number.
    pub bits: Option<u64>,
}

/// What the check reads of a row that came out.
#[derive(Debug)]
pub struct BodyRow {
    pub device_id: Option<String>,
    /// The sum of a window.
    pub s: Figure,
    /// The number of an event.
    pub seq: Figure,
    /// The moment that an event names.
    pub ts: Figure,
    pub temperature: Figure,
}

/// What came out of an engine so far. Moments are in nanoseconds.
#[derive(Debug)]
pub struct Check {
    pub kind: Kind,
    pub input: usize,
    pub window: usize,
    pub seen: Vec<bool>,
    /// When each event was sent, and the moment that it names.
    pub sent: Vec<Option<(u64, u64)>>,
    pub unique: usize,
    pub duplicate: usize,
    pub invalid: usize,
    pub rows: usize,
    pub requests: usize,
    /// Microseconds from sending to arrival.
    pub latencies: Vec<u64>,
    pub first: Option<u64>,
    pub last: Option<u64>,
}

/// A row by what it holds.
pub ghost struct Output {
    pub device: Option<Seq<char>>,
    pub s: Figure,
    pub seq: Figure,
    pub ts: Figure,
    pub temperature: Figure,
}

/// A row by what it holds.
pub open spec fn output(r: BodyRow) -> Output {
    Output {
        device: match r.device_id {
            Some(d) => Some(d@),
            None => None,
        },
        s: r.s,
        seq: r.seq,
        ts: r.ts,
        temperature: r.temperature,
    }
}

/// Rows by what they hold.
pub open spec fn outputs(v: Seq<BodyRow>) -> Seq<Output> {
    v.map_values(|r: BodyRow| output(r))
}

/// Rows by what they hold, where there are any.
pub open spec fn maybe_outputs(v: Option<Vec<BodyRow>>) -> Option<Seq<Output>> {
    match v {
        Some(rs) => Some(outputs(rs@)),
        None => None,
    }
}

/// The bits of the double that is thirty, the temperature of every event that
/// is let through.
pub const THIRTY: u64 = 0x403e000000000000;

/// The whole number below two to the power of 53 that a double is.
pub open spec fn whole_double(bits: u64) -> Option<int> {
    let exponent = bits / 0x10000000000000 % 2048;
    let significand = 0x10000000000000 + bits % 0x10000000000000;
    if bits % 0x8000000000000000 == 0 {
        Some(0)
    } else if bits >= 0x8000000000000000 || exponent < 1023 || exponent > 1075 {
        None
    } else {
        let unit = pow2((1075 - exponent) as nat) as int;
        if significand % unit == 0 {
            Some(significand / unit)
        } else {
            None
        }
    }
}

/// The whole number that a figure is.
pub open spec fn integer_of(f: Figure) -> Option<int> {
    match f.whole {
        Some(n) => Some(n as int),
        None => match f.bits {
            Some(b) => whole_double(b),
            None => None,
        },
    }
}

fn power(n: u64) -> (r: u64)
    requires
        n <= 52,
    ensures
        r == pow2(n as nat),
{
    let mut r: u64 = 1;
    let mut i: u64 = 0;
    proof {
        lemma2_to64();
        lemma2_to64_rest();
    }
    while i < n
        invariant
            i <= n,
            n <= 52,
            r == pow2(i as nat),
            pow2(52) == 0x10000000000000,
        decreases n - i,
    {
        proof {
            lemma_pow2_unfold((i + 1) as nat);
            if i + 1 < 52 {
                lemma_pow2_strictly_increases((i + 1) as nat, 52);
            }
        }
        r = r * 2;
        i = i + 1;
    }
    r
}

/// The whole number that a figure is.
pub fn integer(f: &Figure) -> (r: Option<u64>)
    ensures
        match r {
            Some(n) => integer_of(*f) == Some(n as int),
            None => integer_of(*f) is None,
        },
{
    match f.whole {
        Some(n) => {
            return Some(n);
        },
        None => {},
    }
    let bits: u64 = match f.bits {
        Some(b) => b,
        None => {
            return None;
        },
    };
    if bits % 0x8000000000000000 == 0 {
        return Some(0);
    }
    let exponent: u64 = bits / 0x10000000000000 % 2048;
    if bits >= 0x8000000000000000 || exponent < 1023 || exponent > 1075 {
        return None;
    }
    let significand: u64 = 0x10000000000000 + bits % 0x10000000000000;
    let unit: u64 = power(1075 - exponent);
    proof {
        lemma_pow2_pos((1075 - exponent) as nat);
    }
    if significand % unit == 0 {
        Some(significand / unit)
    } else {
        None
    }
}

/// What came out so far, by what it holds.
pub ghost struct Tally {
    pub kind: Kind,
    pub input: int,
    pub window: int,
    pub seen: Seq<bool>,
    pub sent: Seq<Option<(u64, u64)>>,
    pub unique: int,
    pub duplicate: int,
    pub invalid: int,
    pub rows: int,
    pub requests: int,
    pub latencies: Seq<u64>,
    pub first: Option<u64>,
    pub last: Option<u64>,
}

impl View for Check {
    type V = Tally;

    open spec fn view(&self) -> Tally {
        Tally {
            kind: self.kind,
            input: self.input as int,
            window: self.window as int,
            seen: self.seen@,
            sent: self.sent@,
            unique: self.unique as int,
            duplicate: self.duplicate as int,
            invalid: self.invalid as int,
            rows: self.rows as int,
            requests: self.requests as int,
            latencies: self.latencies@,
            first: self.first,
            last: self.last,
        }
    }
}

/// The sum of the rows of the first window.
pub open spec fn base_sum(w: int) -> int {
    w * (w - 1) / 2
}

/// The output that a window sum stands for.
pub open spec fn window_index(t: Tally, row: Output) -> Option<int> {
    match integer_of(row.s) {
        None => None,
        Some(s) => {
            let base = base_sum(t.window);
            let stride = t.window * t.window;
            let i = (s - base) / stride;
            if s >= base && (s - base) % stride == 0 && i < t.seen.len() && row.device == Some(
                "d"@ + decimal((i % 8) as nat),
            ) {
                Some(i)
            } else {
                None
            }
        },
    }
}

/// The output that an event stands for: one that is let through, as it was sent.
pub open spec fn event_index(t: Tally, row: Output) -> Option<int> {
    match integer_of(row.seq) {
        None => None,
        Some(i) => if i < t.input && i % 4 != 0 && row.device == Some("edge"@)
            && row.temperature.bits == Some(THIRTY) && (match t.sent[i] {
            Some(p) => integer_of(row.ts) == Some(p.1 as int),
            None => false,
        }) {
            Some(i)
        } else {
            None
        },
    }
}

/// The output that a row stands for.
pub open spec fn output_index(t: Tally, row: Output) -> Option<int> {
    if t.kind == Kind::File {
        window_index(t, row)
    } else {
        event_index(t, row)
    }
}

/// The earlier of two moments.
pub open spec fn earlier(a: Option<u64>, b: u64) -> u64 {
    match a {
        Some(x) => if x < b {
            x
        } else {
            b
        },
        None => b,
    }
}

/// The later of two moments.
pub open spec fn later_of(a: Option<u64>, b: u64) -> u64 {
    match a {
        Some(x) => if x > b {
            x
        } else {
            b
        },
        None => b,
    }
}

/// The tally with one more row.
pub open spec fn tallied(t: Tally, row: Output, at: u64) -> Tally {
    let t = Tally { rows: t.rows + 1, ..t };
    match output_index(t, row) {
        None => Tally { invalid: t.invalid + 1, ..t },
        Some(i) => if t.seen[i] {
            Tally { duplicate: t.duplicate + 1, ..t }
        } else {
            let t = Tally {
                seen: t.seen.update(i, true),
                unique: t.unique + 1,
                first: Some(earlier(t.first, at)),
                last: Some(later_of(t.last, at)),
                ..t
            };
            if t.kind == Kind::Mqtt {
                let sent = match t.sent[i] {
                    Some(p) => p.0,
                    None => 0,
                };
                if at >= sent {
                    Tally { latencies: t.latencies.push(((at - sent) / 1000) as u64), ..t }
                } else {
                    Tally { invalid: t.invalid + 1, ..t }
                }
            } else {
                t
            }
        },
    }
}

/// The tally with more rows of one request.
pub open spec fn tallied_all(t: Tally, rows: Seq<Output>, at: u64) -> Tally
    decreases rows.len(),
{
    if rows.len() == 0 {
        t
    } else {
        tallied(tallied_all(t, rows.drop_last(), at), rows.last(), at)
    }
}

/// The tally with one more request; one that holds no rows is invalid.
pub open spec fn received(t: Tally, rows: Option<Seq<Output>>, at: u64) -> Tally {
    let t = Tally { requests: t.requests + 1, ..t };
    match rows {
        None => Tally { invalid: t.invalid + 1, ..t },
        Some(rs) => tallied_all(t, rs, at),
    }
}

/// How many of the outputs were seen.
pub open spec fn seen_count(seen: Seq<bool>) -> nat
    decreases seen.len(),
{
    if seen.len() == 0 {
        0
    } else {
        seen_count(seen.drop_last()) + if seen.last() {
            1nat
        } else {
            0
        }
    }
}

/// How many outputs there should be: one per window, or every event that is let
/// through.
pub open spec fn expected_count(t: Tally) -> int {
    if t.kind == Kind::File {
        t.input / t.window
    } else {
        t.input - (t.input + 3) / 4
    }
}

/// Whether an output should come.
pub open spec fn wanted(kind: Kind, i: int) -> bool {
    kind == Kind::File || i % 4 != 0
}

impl Tally {
    /// The tally is consistent: what is counted as seen was seen, and nothing is
    /// seen that should not come.
    pub open spec fn sound(self) -> bool {
        &&& self.window >= 1
        &&& self.seen.len() == if self.kind == Kind::File {
            self.input / self.window
        } else {
            self.input
        }
        &&& self.kind == Kind::Mqtt ==> self.sent.len() == self.input
        &&& self.unique == seen_count(self.seen)
        &&& forall|i: int| 0 <= i < self.seen.len() && #[trigger] self.seen[i] ==> wanted(self.kind, i)
    }

    /// Everything came exactly once, and nothing else came.
    pub open spec fn complete(self) -> bool {
        self.unique == expected_count(self) && self.duplicate == 0 && self.invalid == 0
    }
}

proof fn lemma_seen_update(seen: Seq<bool>, i: int)
    requires
        0 <= i < seen.len(),
        !seen[i],
    ensures
        seen_count(seen.update(i, true)) == seen_count(seen) + 1,
    decreases seen.len(),
{
    let u = seen.update(i, true);
    if i == seen.len() - 1 {
        assert(u.drop_last() =~= seen.drop_last());
    } else {
        lemma_seen_update(seen.drop_last(), i);
        assert(u.drop_last() =~= seen.drop_last().update(i, true));
    }
}

proof fn lemma_seen_bound(seen: Seq<bool>)
    ensures
        seen_count(seen) <= seen.len(),
    decreases seen.len(),
{
    if seen.len() > 0 {
        lemma_seen_bound(seen.drop_last());
    }
}

/// How many of the first outputs should come.
pub open spec fn wanted_count(kind: Kind, n: nat) -> nat
    decreases n,
{
    if n == 0 {
        0
    } else {
        wanted_count(kind, (n - 1) as nat) + if wanted(kind, n - 1) {
            1nat
        } else {
            0
        }
    }
}

#[verifier::spinoff_prover]
proof fn lemma_wanted_count(kind: Kind, n: nat)
    ensures
        wanted_count(kind, n) == if kind == Kind::File {
            n as int
        } else {
            n - (n + 3) / 4
        },
    decreases n,
{
    if n > 0 {
        lemma_wanted_count(kind, (n - 1) as nat);
        let m: int = n - 1;
        assert((m + 4) / 4 == (m + 3) / 4 + if m % 4 == 0 {
            1int
        } else {
            0
        }) by (nonlinear_arith);
    }
}

proof fn lemma_all_wanted_seen(kind: Kind, seen: Seq<bool>)
    requires
        forall|i: int| 0 <= i < seen.len() && #[trigger] seen[i] ==> wanted(kind, i),
    ensures
        seen_count(seen) <= wanted_count(kind, seen.len()),
        seen_count(seen) == wanted_count(kind, seen.len()) ==> forall|i: int|
            0 <= i < seen.len() && wanted(kind, i) ==> #[trigger] seen[i],
    decreases seen.len(),
{
    if seen.len() > 0 {
        let front = seen.drop_last();
        assert(forall|i: int| 0 <= i < front.len() ==> #[trigger] front[i] == seen[i]);
        lemma_all_wanted_seen(kind, front);
        if seen_count(seen) == wanted_count(kind, seen.len()) {
            assert forall|i: int| 0 <= i < seen.len() && wanted(kind, i) implies
                #[trigger] seen[i] by {
                if i < front.len() {
                    assert(front[i] == seen[i]);
                }
            }
        }
    }
}

/// A trial that is found complete has every output that should come, exactly
/// once, and no row that should not.
pub proof fn law_complete_means_every_output_once(t: Tally)
    requires
        t.sound(),
        t.complete(),
    ensures
        t.duplicate == 0,
        t.invalid == 0,
        forall|i: int| 0 <= i < t.seen.len() ==> (#[trigger] t.seen[i] <==> wanted(t.kind, i)),
{
    lemma_wanted_count(t.kind, t.seen.len());
    lemma_all_wanted_seen(t.kind, t.seen);
}

/// The sum of the whole numbers from `a` on, `n` of them.
pub open spec fn run_sum(a: int, n: nat) -> int
    decreases n,
{
    if n == 0 {
        0
    } else {
        run_sum(a, (n - 1) as nat) + a + n - 1
    }
}

proof fn lemma_run_sum(a: int, n: nat)
    ensures
        2 * run_sum(a, n) == 2 * a * n + n * (n - 1),
    decreases n,
{
    if n > 0 {
        lemma_run_sum(a, (n - 1) as nat);
        let m = n - 1;
        assert(2 * a * n + n * (n - 1) == 2 * a * m + m * (m - 1) + 2 * (a + n - 1))
            by (nonlinear_arith)
            requires
                m == n - 1,
        ;
    } else {
        assert(2 * a * n + n * (n - 1) == 0) by (nonlinear_arith)
            requires
                n == 0,
        ;
    }
}

/// The rows of a window, as they are written, sum up to what the check takes for
/// that window.
pub proof fn law_window_sums_are_recognised(t: Tally, i: int, row: Output)
    requires
        t.kind == Kind::File,
        t.window >= 1,
        0 <= i < t.seen.len(),
        integer_of(row.s) == Some(run_sum(t.window * i, t.window as nat)),
        row.device == Some("d"@ + decimal((i % 8) as nat)),
    ensures
        output_index(t, row) == Some(i),
{
    let w = t.window;
    lemma_run_sum(w * i, w as nat);
    let s = run_sum(w * i, w as nat);
    assert(2 * s == 2 * (w * i) * w + w * (w - 1));
    assert(w * (w - 1) % 2 == 0) by {
        vstd::arithmetic::div_mod::lemma_fundamental_div_mod(w, 2);
        let q = w / 2;
        if w % 2 == 0 {
            assert(w * (w - 1) == 2 * (q * (w - 1))) by (nonlinear_arith)
                requires
                    w == 2 * q,
            ;
        } else {
            assert(w * (w - 1) == 2 * (w * q)) by (nonlinear_arith)
                requires
                    w == 2 * q + 1,
            ;
        }
    }
    let base = base_sum(w);
    assert(2 * base == w * (w - 1));
    assert(2 * (w * i) * w == 2 * ((w * w) * i)) by (nonlinear_arith);
    assert(s - base == (w * w) * i);
    assert(w * w > 0) by (nonlinear_arith)
        requires
            w >= 1,
    ;
    assert((w * w) * i >= 0) by (nonlinear_arith)
        requires
            w * w > 0,
            i >= 0,
    ;
    assert(w * (w - 1) >= 0) by (nonlinear_arith)
        requires
            w >= 1,
    ;
    vstd::arithmetic::div_mod::lemma_div_multiples_vanish(i, w * w);
    vstd::arithmetic::div_mod::lemma_mod_multiples_basic(i, w * w);
    assert((w * w) * i == i * (w * w)) by (nonlinear_arith);
}

/// The lines of the rows from `start` up to `end`.
pub open spec fn rows_text(start: int, end: int, window: int) -> Seq<char>
    decreases end - start,
{
    if start >= end {
        Seq::empty()
    } else {
        rows_text(start, end - 1, window) + ("{\"device_id\":\"d"@ + decimal(
            (((end - 1) / window) % 8) as nat,
        ) + "\",\"v\":"@ + decimal((end - 1) as nat) + "}\n"@)
    }
}

/// Writes the rows from `start` up to `end`, one line each: every window of rows
/// is of one device.
pub fn write_rows(start: u64, end: u64, window: u64) -> (r: String)
    requires
        window > 0,
    ensures
        r@ == rows_text(start as int, end as int, window as int),
{
    let mut r: String = String::new();
    let mut i: u64 = start;
    assert(rows_text(start as int, start as int, window as int) =~= Seq::<char>::empty());
    while i < end
        invariant
            window > 0,
            start <= i,
            i <= end || start >= end,
            start >= end ==> i == start,
            r@ == rows_text(start as int, i as int, window as int),
        decreases end - i,
    {
        let line: String = cat5(
            "{\"device_id\":\"d",
            dec((i / window) % 8).as_str(),
            "\",\"v\":",
            dec(i).as_str(),
            "}\n",
        );
        r.append(line.as_str());
        i = i + 1;
    }
    r
}

/// The line that an output is hashed as.
pub open spec fn normal_line(kind: Kind, window: int, i: int) -> Seq<char> {
    if kind == Kind::File {
        "d"@ + decimal((i % 8) as nat) + ":"@ + decimal(
            (window * window * i + window * (window - 1) / 2) as nat,
        ) + "\n"@
    } else {
        "edge:"@ + decimal(i as nat) + ":30\n"@
    }
}

/// The hash of the outputs that were seen among the first `n`.
pub open spec fn seen_hash(t: Tally, n: int) -> u64
    decreases n,
{
    if n <= 0 {
        0xcbf29ce484222325
    } else {
        let h = seen_hash(t, n - 1);
        if t.seen[n - 1] {
            fnv_from(h, encode_utf8(normal_line(t.kind, t.window, n - 1)))
        } else {
            h
        }
    }
}

/// A number in sixteen hexadecimal digits.
pub open spec fn hex16(h: u64) -> Seq<char> {
    hex_text(
        seq![
            (h / 0x100000000000000) as u8,
            (h / 0x1000000000000 % 256) as u8,
            (h / 0x10000000000 % 256) as u8,
            (h / 0x100000000 % 256) as u8,
            (h / 0x1000000 % 256) as u8,
            (h / 0x10000 % 256) as u8,
            (h / 0x100 % 256) as u8,
            (h % 256) as u8,
        ],
    )
}

impl Check {
    /// Nothing came out yet.
    pub fn new(kind: Kind, input: usize, window: usize) -> (r: Self)
        requires
            window >= 1,
        ensures
            r@.sound(),
            r.kind == kind,
            r.input == input,
            r.window == window,
            forall|i: int| 0 <= i < r.seen@.len() ==> !#[trigger] r.seen@[i],
            forall|i: int| 0 <= i < r.sent@.len() ==> (#[trigger] r.sent@[i]) is None,
            kind == Kind::File ==> r.sent@.len() == 0,
            r.unique == 0,
            r.duplicate == 0,
            r.invalid == 0,
            r.rows == 0,
            r.requests == 0,
            r.latencies@.len() == 0,
            r.first is None,
            r.last is None,
    {
        let outputs: usize = if kind == Kind::File {
            input / window
        } else {
            input
        };
        let mut seen: Vec<bool> = Vec::new();
        while seen.len() < outputs
            invariant
                seen.len() <= outputs,
                forall|i: int| 0 <= i < seen@.len() ==> !#[trigger] seen@[i],
                seen_count(seen@) == 0,
            decreases outputs - seen.len(),
        {
            let ghost had = seen@;
            seen.push(false);
            assert(seen@.drop_last() =~= had);
        }
        let mut sent: Vec<Option<(u64, u64)>> = Vec::new();
        if kind == Kind::Mqtt {
            while sent.len() < input
                invariant
                    sent.len() <= input,
                    forall|i: int| 0 <= i < sent@.len() ==> (#[trigger] sent@[i]) is None,
                decreases input - sent.len(),
            {
                sent.push(None);
            }
        }
        Check {
            kind,
            input,
            window,
            seen,
            sent,
            unique: 0,
            duplicate: 0,
            invalid: 0,
            rows: 0,
            requests: 0,
            latencies: Vec::new(),
            first: None,
            last: None,
        }
    }

    /// How many outputs there should be.
    pub fn expected(&self) -> (r: usize)
        requires
            self@.sound(),
            self.kind == Kind::Mqtt ==> self.input <= usize::MAX - 3,
        ensures
            r == expected_count(self@),
    {
        if self.kind == Kind::File {
            self.input / self.window
        } else {
            self.input - (self.input + 3) / 4
        }
    }

    /// Takes note that an event is sent.
    pub fn sending(&mut self, i: usize, at: u64, ts: u64)
        requires
            old(self)@.sound(),
            i < old(self).sent@.len(),
        ensures
            final(self)@.sound(),
            final(self)@ == (Tally {
                sent: old(self)@.sent.update(i as int, Some((at, ts))),
                ..old(self)@
            }),
    {
        self.sent.set(i, Some((at, ts)));
    }

    fn index_of(&self, row: &BodyRow) -> (r: Option<usize>)
        requires
            self@.sound(),
            self.window * self.window <= usize::MAX,
        ensures
            match r {
                Some(i) => output_index(self@, output(*row)) == Some(i as int) && i
                    < self.seen@.len() && wanted(self.kind, i as int),
                None => output_index(self@, output(*row)) is None,
            },
    {
        if self.kind == Kind::File {
            let s: u64 = match integer(&row.s) {
                Some(s) => s,
                None => {
                    return None;
                },
            };
            let w: u64 = self.window as u64;
            proof {
                assert(0 <= w * (w - 1) <= w * w && 0 < w * w) by (nonlinear_arith)
                    requires
                        1 <= w,
                ;
            }
            let base: u64 = w * (w - 1) / 2;
            let stride: u64 = w * w;
            if s < base || (s - base) % stride != 0 {
                return None;
            }
            let i: u64 = (s - base) / stride;
            if i >= self.seen.len() as u64 {
                return None;
            }
            let name: String = cat2("d", dec(i % 8).as_str());
            match &row.device_id {
                Some(d) => if same(d.as_str(), name.as_str()) {
                    Some(i as usize)
                } else {
                    None
                },
                None => None,
            }
        } else {
            let i: u64 = match integer(&row.seq) {
                Some(i) => i,
                None => {
                    return None;
                },
            };
            let warm: bool = match row.temperature.bits {
                Some(b) => b == THIRTY,
                None => false,
            };
            if i >= self.input as u64 || i % 4 == 0 || !warm {
                return None;
            }
            let edge: bool = match &row.device_id {
                Some(d) => same(d.as_str(), "edge"),
                None => false,
            };
            if !edge {
                return None;
            }
            match self.sent[i as usize] {
                Some((_, ts)) => match integer(&row.ts) {
                    Some(t) => if t == ts {
                        Some(i as usize)
                    } else {
                        None
                    },
                    None => None,
                },
                None => None,
            }
        }
    }

    /// Whether the counters can take one more request of that many rows.
    pub open spec fn has_room(self, rows: int) -> bool {
        &&& self.requests < usize::MAX
        &&& self.rows + rows <= usize::MAX
        &&& self.duplicate + rows <= usize::MAX
        &&& self.invalid + rows + 1 <= usize::MAX
    }

    fn accept_row(&mut self, row: &BodyRow, at: u64)
        requires
            old(self)@.sound(),
            old(self).window * old(self).window <= usize::MAX,
            old(self).rows < usize::MAX,
            old(self).duplicate < usize::MAX,
            old(self).invalid < usize::MAX,
        ensures
            final(self)@.sound(),
            final(self)@ == tallied(old(self)@, output(*row), at),
            final(self).rows == old(self).rows + 1,
            final(self).duplicate <= old(self).duplicate + 1,
            final(self).invalid <= old(self).invalid + 1,
            final(self).requests == old(self).requests,
            final(self).window == old(self).window,
    {
        let found: Option<usize> = self.index_of(row);
        self.rows = self.rows + 1;
        assert(output_index(self@, output(*row)) == output_index(old(self)@, output(*row)));
        let i: usize = match found {
            Some(i) => i,
            None => {
                self.invalid = self.invalid + 1;
                return;
            },
        };
        if self.seen[i] {
            self.duplicate = self.duplicate + 1;
            return;
        }
        proof {
            lemma_seen_update(self.seen@, i as int);
            lemma_seen_bound(self.seen@);
            lemma_seen_bound(self.seen@.update(i as int, true));
        }
        self.seen.set(i, true);
        self.unique = self.unique + 1;
        self.first = Some(
            match self.first {
                Some(x) => if x < at {
                    x
                } else {
                    at
                },
                None => at,
            },
        );
        self.last = Some(
            match self.last {
                Some(x) => if x > at {
                    x
                } else {
                    at
                },
                None => at,
            },
        );
        if self.kind == Kind::Mqtt {
            match self.sent[i] {
                Some((sent, _)) => if at >= sent {
                    self.latencies.push((at - sent) / 1000);
                } else {
                    self.invalid = self.invalid + 1;
                },
                None => {},
            }
        }
    }

    /// Takes in a request with its rows, where its body holds any.
    pub fn accept_rows(&mut self, rows: &Option<Vec<BodyRow>>, received_at: u64)
        requires
            old(self)@.sound(),
            old(self).window * old(self).window <= usize::MAX,
            old(self).has_room(
                match rows {
                    Some(rs) => rs@.len() as int,
                    None => 0,
                },
            ),
        ensures
            final(self)@.sound(),
            final(self)@ == received(old(self)@, maybe_outputs(*rows), received_at),
    {
        self.requests = self.requests + 1;
        let rows: &Vec<BodyRow> = match rows {
            Some(rs) => rs,
            None => {
                self.invalid = self.invalid + 1;
                return;
            },
        };
        let ghost start = self@;
        let ghost all = outputs(rows@);
        let mut i: usize = 0;
        assert(all.take(0) =~= Seq::<Output>::empty());
        while i < rows.len()
            invariant
                i <= rows.len(),
                all == outputs(rows@),
                self@.sound(),
                self.window * self.window <= usize::MAX,
                self@ == tallied_all(start, all.take(i as int), received_at),
                self.rows + (rows.len() - i) <= usize::MAX,
                self.duplicate + (rows.len() - i) <= usize::MAX,
                self.invalid + (rows.len() - i) <= usize::MAX,
            decreases rows.len() - i,
        {
            proof {
                assert(all.take(i + 1).drop_last() =~= all.take(i as int));
                assert(all.take(i + 1).last() == output(rows@[i as int]));
            }
            self.accept_row(&rows[i], received_at);
            i = i + 1;
        }
        assert(all.take(i as int) =~= all);
    }

    /// Takes in a request by its body. Where the counters cannot hold what it
    /// says, nothing is taken in.
    pub fn accept(&mut self, body: &[u8], received_at: u64) -> (r: bool)
        requires
            old(self)@.sound(),
            old(self).window * old(self).window <= usize::MAX,
        ensures
            final(self)@.sound(),
            r <==> old(self).has_room(
                match rows_in(json_shape(body@)) {
                    Some(rs) => rs.len() as int,
                    None => 0,
                },
            ),
            final(self)@ == if r {
                received(old(self)@, rows_in(json_shape(body@)), received_at)
            } else {
                old(self)@
            },
    {
        let rows: Option<Vec<BodyRow>> = body_rows(body);
        let n: usize = match &rows {
            Some(rs) => rs.len(),
            None => 0,
        };
        let fits: bool = self.requests < usize::MAX && n <= usize::MAX - self.rows && n
            <= usize::MAX - self.duplicate && self.invalid < usize::MAX && n <= usize::MAX - 1
            - self.invalid;
        if fits {
            self.accept_rows(&rows, received_at);
        }
        fits
    }

    /// Whether everything came exactly once, and nothing else.
    pub fn valid(&self) -> (r: bool)
        requires
            self@.sound(),
            self.kind == Kind::Mqtt ==> self.input <= usize::MAX - 3,
        ensures
            r == self@.complete(),
    {
        self.unique == self.expected() && self.duplicate == 0 && self.invalid == 0
    }

    /// The hash of what was seen, in order.
    pub fn hash(&self) -> (r: String)
        requires
            self@.sound(),
            self.kind == Kind::File ==> self.window * self.window * self.seen@.len() <= u64::MAX,
        ensures
            r@ == hex16(seen_hash(self@, self.seen@.len() as int)),
    {
        let mut h: u64 = 0xcbf29ce484222325;
        let mut i: usize = 0;
        while i < self.seen.len()
            invariant
                i <= self.seen.len(),
                self@.sound(),
                self.kind == Kind::File ==> self.window * self.window * self.seen@.len()
                    <= u64::MAX,
                h == seen_hash(self@, i as int),
            decreases self.seen.len() - i,
        {
            if self.seen[i] {
                let line: String = if self.kind == Kind::File {
                    let w: u64 = self.window as u64;
                    proof {
                        let n = self.seen@.len() as int;
                        assert(0 <= w * (w - 1) <= w * w && 0 < w * w) by (nonlinear_arith)
                            requires
                                1 <= w,
                        ;
                        assert(w * w * i + w * w <= w * w * n) by (nonlinear_arith)
                            requires
                                0 <= i < n,
                                1 <= w,
                        ;
                        assert(w * w <= w * w * n && w * w * i >= 0) by (nonlinear_arith)
                            requires
                                0 <= i < n,
                                1 <= w,
                        ;
                    }
                    let sum: u64 = w * w * (i as u64) + w * (w - 1) / 2;
                    cat5("d", dec(i as u64 % 8).as_str(), ":", dec(sum).as_str(), "\n")
                } else {
                    cat3("edge:", dec(i as u64).as_str(), ":30\n")
                };
                h = fnv_continue(h, line.as_str().as_bytes());
            }
            i = i + 1;
        }
        hex_number(h)
    }
}

fn hex_number(h: u64) -> (r: String)
    ensures
        r@ == hex16(h),
{
    let mut b: Vec<u8> = Vec::new();
    b.push((h / 0x100000000000000) as u8);
    b.push((h / 0x1000000000000 % 256) as u8);
    b.push((h / 0x10000000000 % 256) as u8);
    b.push((h / 0x100000000 % 256) as u8);
    b.push((h / 0x1000000 % 256) as u8);
    b.push((h / 0x10000 % 256) as u8);
    b.push((h / 0x100 % 256) as u8);
    b.push((h % 256) as u8);
    assert(b@ =~= seq![
        (h / 0x100000000000000) as u8,
        (h / 0x1000000000000 % 256) as u8,
        (h / 0x10000000000 % 256) as u8,
        (h / 0x100000000 % 256) as u8,
        (h / 0x1000000 % 256) as u8,
        (h / 0x10000 % 256) as u8,
        (h / 0x100 % 256) as u8,
        (h % 256) as u8,
    ]);
    hex_encode(b.as_slice())
}

} // verus!
