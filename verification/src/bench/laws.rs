//! What holds of every trial: which rows are taken for which outputs, what is
//! counted, in what steps a growing file is written, and what is reported.

use super::body::{lookup, rows_in, Item, Shape};
use super::check::{
    hex16, integer, rows_text, seen_hash, tallied, whole_double, BodyRow, Check, Figure, Kind,
    Output, Tally,
};
use super::plan::Scenario;
use super::trial::{
    broker_config, collected, event_body, ingested, observed, observer_hello, observer_ready,
    observer_subscribe, ready_step, report, setup, stop_step, ChunkAction, ChunkRun, ChunkStage,
    PollStep, Report, Setup, Times,
};
use crate::control::secrets::{hex_text, law_hex_is_read_back, unhex};
use crate::mqtt::codec::{Message, Packet, Publish};
use crate::text::decimal;
use vstd::arithmetic::power2::{
    lemma2_to64, lemma2_to64_rest, lemma_pow2_adds, lemma_pow2_pos, pow2,
};
use vstd::prelude::*;
use vstd::utf8::*;

verus! {

/// A whole number is recognised by the bits of its double: those of `n`, where
/// `n` has `k + 1` binary digits, are the exponent `1023 + k` and then the digits
/// behind the first one.
pub proof fn law_whole_doubles_are_recognised(n: nat, k: nat, bits: u64)
    requires
        k <= 52,
        pow2(k) <= n < 2 * pow2(k),
        bits == (1023 + k) * 0x10000000000000 + (n - pow2(k)) * pow2((52 - k) as nat),
    ensures
        whole_double(bits) == Some(n as int),
        whole_double(0) == Some(0int),
        whole_double(0x8000000000000000) == Some(0int),
{
    let u = pow2((52 - k) as nat) as int;
    let p = pow2(k) as int;
    lemma2_to64();
    lemma2_to64_rest();
    lemma_pow2_adds(k, (52 - k) as nat);
    lemma_pow2_pos((52 - k) as nat);
    lemma_pow2_pos(k);
    assert(p * u == 0x10000000000000);
    let rest = (n - p) * u;
    assert(0 <= rest < 0x10000000000000) by (nonlinear_arith)
        requires
            rest == (n - p) * u,
            p <= n < 2 * p,
            p * u == 0x10000000000000,
            u > 0,
    ;
    assert(bits == (1023 + k) * 0x10000000000000 + rest);
    assert(bits / 0x10000000000000 == 1023 + k);
    assert(bits % 0x10000000000000 == rest);
    assert((1023 + k) % 2048 == 1023 + k);
    assert(bits < 0x8000000000000000);
    assert(0x10000000000000 + rest == n * u) by (nonlinear_arith)
        requires
            rest == (n - p) * u,
            p * u == 0x10000000000000,
    ;
    vstd::arithmetic::div_mod::lemma_mod_multiples_basic(n as int, u);
    vstd::arithmetic::div_mod::lemma_div_multiples_vanish(n as int, u);
    assert(n * u == u * n) by (nonlinear_arith);
}

/// A number counts as whole where it is written so, or its double is a whole
/// one; what is no number is none.
pub proof fn law_what_is_a_whole_number(f: Figure, r: Option<u64>)
    requires
        call_ensures(integer, (&f,), r),
    ensures
        f.whole is Some ==> r == f.whole,
        f.whole is None && f.bits is None ==> r is None,
        f.whole is None && f.bits is Some && r is Some ==> whole_double(f.bits->0) == Some(
            r->0 as int,
        ),
        f.whole is None && f.bits is Some && whole_double(f.bits->0) is Some ==> r is Some,
{
}

/// A row of events counts for event `i` where it says `i`, is of the device
/// `edge`, thirty degrees warm and names the moment at which `i` was sent; every
/// fourth event should not come. The first such row is new and its latency is
/// noted; every further one is a duplicate; any other row is invalid.
pub proof fn law_an_event_is_counted(
    t: Tally,
    row: Output,
    at: u64,
    i: int,
    sent: u64,
    ts: u64,
)
    requires
        t.kind == Kind::Mqtt,
        0 <= i < t.input,
        t.seen.len() == t.input,
        t.sent.len() == t.input,
        t.sent[i] == Some((sent, ts)),
        row.seq.whole == Some(i as u64),
        i <= u64::MAX,
        row.ts.whole is Some,
        sent <= at,
    ensures
        ({
            let after = tallied(t, row, at);
            let fits = i % 4 != 0 && row.device == Some("edge"@) && row.temperature.bits == Some(
                0x403e000000000000u64,
            ) && row.ts.whole->0 == ts;
            &&& after.rows == t.rows + 1
            &&& after.requests == t.requests
            &&& fits && !t.seen[i] ==> {
                &&& after.unique == t.unique + 1
                &&& after.duplicate == t.duplicate
                &&& after.invalid == t.invalid
                &&& after.seen == t.seen.update(i, true)
                &&& after.latencies == t.latencies.push(((at - sent) / 1000) as u64)
                &&& after.first is Some && after.first->0 <= at
                &&& after.last is Some && after.last->0 >= at
                &&& t.first is None ==> after.first->0 == at
                &&& t.last is None ==> after.last->0 == at
                &&& t.first is Some ==> after.first->0 <= t.first->0 && (after.first->0 == at
                    || after.first == t.first)
                &&& t.last is Some ==> after.last->0 >= t.last->0 && (after.last->0 == at
                    || after.last == t.last)
            }
            &&& fits && t.seen[i] ==> {
                &&& after.duplicate == t.duplicate + 1
                &&& after.unique == t.unique
                &&& after.invalid == t.invalid
                &&& after.seen == t.seen
                &&& after.latencies == t.latencies
            }
            &&& !fits ==> {
                &&& after.invalid == t.invalid + 1
                &&& after.unique == t.unique
                &&& after.duplicate == t.duplicate
                &&& after.seen == t.seen
            }
        }),
{
}

/// A row that stands for no output counts as invalid, and so does an event that
/// was not sent or lies outside the input.
pub proof fn law_what_is_no_output_is_invalid(t: Tally, row: Output, at: u64)
    requires
        t.kind == Kind::Mqtt,
        row.seq.whole is None && row.seq.bits is None || row.seq.whole is Some
            && row.seq.whole->0 >= t.input || row.seq.whole is Some && row.seq.whole->0 < t.input
            && t.sent[row.seq.whole->0 as int] is None,
    ensures
        tallied(t, row, at).invalid == t.invalid + 1,
        tallied(t, row, at).unique == t.unique,
        tallied(t, row, at).rows == t.rows + 1,
        tallied(t, row, at).seen == t.seen,
{
}

/// A window counts by its sum: the rows of window `i` of `w` rows sum up to
/// `w * w * i + w * (w - 1) / 2`, and it is of device `d` and `i` modulo eight.
pub proof fn law_a_window_is_counted(t: Tally, row: Output, at: u64, i: int)
    requires
        t.kind == Kind::File,
        t.window >= 1,
        0 <= i < t.seen.len(),
        row.s.whole is Some,
        row.s.whole->0 == t.window * t.window * i + t.window * (t.window - 1) / 2,
    ensures
        ({
            let after = tallied(t, row, at);
            let fits = row.device == Some("d"@ + decimal((i % 8) as nat));
            &&& after.rows == t.rows + 1
            &&& fits && !t.seen[i] ==> after.unique == t.unique + 1 && after.seen == t.seen.update(
                i,
                true,
            ) && after.invalid == t.invalid && after.duplicate == t.duplicate
            &&& fits && t.seen[i] ==> after.duplicate == t.duplicate + 1 && after.unique == t.unique
                && after.invalid == t.invalid
            &&& !fits ==> after.invalid == t.invalid + 1 && after.unique == t.unique
                && after.duplicate == t.duplicate
            &&& after.latencies == t.latencies
        }),
{
    let w = t.window * t.window;
    let base = t.window * (t.window - 1) / 2;
    assert(w >= 1) by (nonlinear_arith)
        requires
            w == t.window * t.window,
            t.window >= 1,
    ;
    assert(base >= 0) by (nonlinear_arith)
        requires
            base == t.window * (t.window - 1) / 2,
            t.window >= 1,
    ;
    let s = row.s.whole->0 as int;
    assert(s - base == w * i);
    assert(w * i >= 0) by (nonlinear_arith)
        requires
            w >= 1,
            i >= 0,
    ;
    assert(w * i == i * w) by (nonlinear_arith);
    vstd::arithmetic::div_mod::lemma_mod_multiples_basic(i, w);
    vstd::arithmetic::div_mod::lemma_div_multiples_vanish(i, w);
    assert((s - base) / w == i);
    assert((s - base) % w == 0);
}

/// A request is counted once. One without rows is invalid; of one with a row
/// that row is counted.
pub proof fn law_a_request_is_counted(
    c: &mut Check,
    d: &mut Check,
    one: Vec<BodyRow>,
    at: u64,
)
    requires
        call_ensures(Check::accept_rows, (c, &None, at), ()),
        call_ensures(Check::accept_rows, (d, &Some(one), at), ()),
    ensures
        final(c)@.requests == old(c)@.requests + 1,
        final(c)@.invalid == old(c)@.invalid + 1,
        final(c)@.rows == old(c)@.rows && final(c)@.unique == old(c)@.unique && final(c)@.duplicate
            == old(c)@.duplicate && final(c)@.seen == old(c)@.seen,
        final(d)@.requests == old(d)@.requests + 1,
        final(d)@.rows == old(d)@.rows + one@.len(),
{
    lemma_rows_add_up(
        (Tally { requests: old(d)@.requests + 1, ..old(d)@ }),
        super::check::outputs(one@),
        at,
    );
}

proof fn lemma_rows_add_up(t: Tally, rows: Seq<Output>, at: u64)
    ensures
        super::check::tallied_all(t, rows, at).rows == t.rows + rows.len(),
        super::check::tallied_all(t, rows, at).requests == t.requests,
    decreases rows.len(),
{
    if rows.len() > 0 {
        lemma_rows_add_up(t, rows.drop_last(), at);
    }
}

/// Rows are counted one after another.
pub proof fn law_rows_are_counted_in_turn(t: Tally, rows: Seq<Output>, row: Output, at: u64)
    ensures
        super::check::tallied_all(t, rows.push(row), at) == tallied(
            super::check::tallied_all(t, rows, at),
            row,
            at,
        ),
        super::check::tallied_all(t, Seq::empty(), at) == t,
{
    assert(rows.push(row).drop_last() =~= rows);
}

/// How many outputs should come: three of every four events, the first of each
/// four being left out, or one for every whole window.
pub proof fn law_how_many_outputs_should_come(c: Check, r: usize, q: int, rest: int)
    requires
        call_ensures(Check::expected, (&c,), r),
        q >= 0,
        rest >= 0,
        c.window >= 1,
    ensures
        c.kind == Kind::Mqtt && c.input == 4 * q + rest && rest < 4 ==> r == 3 * q + if rest > 0 {
            rest - 1
        } else {
            0
        },
        c.kind == Kind::File && c.input == c.window * q + rest && rest < c.window ==> r == q,
{
    if c.kind == Kind::File && c.input == c.window * q + rest && rest < c.window {
        vstd::arithmetic::div_mod::lemma_fundamental_div_mod_converse(
            c.input as int,
            c.window as int,
            q,
            rest,
        );
    }
}

/// A trial is valid where everything came once and nothing else.
pub proof fn law_when_a_trial_is_valid(c: Check, r: bool, n: usize)
    requires
        call_ensures(Check::valid, (&c,), r),
        call_ensures(Check::expected, (&c,), n),
    ensures
        r <==> c.unique == n && c.duplicate == 0 && c.invalid == 0,
{
}

/// Nothing came yet: nothing is seen, nothing is sent, all counts are zero.
pub proof fn law_a_new_check(kind: Kind, input: usize, window: usize, r: Check)
    requires
        call_ensures(Check::new, (kind, input, window), r),
        window >= 1,
    ensures
        r.kind == kind && r.input == input && r.window == window,
        kind == Kind::Mqtt ==> r.seen@.len() == input && r.sent@.len() == input,
        kind == Kind::File ==> r.seen@.len() == input / window,
        forall|i: int| 0 <= i < r.seen@.len() ==> !#[trigger] r.seen@[i],
        r.unique == 0 && r.duplicate == 0 && r.invalid == 0 && r.rows == 0 && r.requests == 0,
{
}

/// What was sent is remembered.
pub proof fn law_a_sent_event_is_remembered(c: &mut Check, i: usize, at: u64, ts: u64, j: int)
    requires
        call_ensures(Check::sending, (c, i, at, ts), ()),
        i < c.sent@.len(),
        0 <= j < c.sent@.len(),
    ensures
        final(c)@.sent[i as int] == Some((at, ts)),
        j != i ==> final(c)@.sent[j] == old(c)@.sent[j],
        final(c)@.seen == old(c)@.seen,
        final(c)@.unique == old(c)@.unique,
{
}

/// Rows are written one line each, in order: row `v` is of device `d` and the
/// number of its window modulo eight.
pub proof fn law_rows_are_written_in_order(start: int, end: int, window: int)
    requires
        start <= end,
        window > 0,
    ensures
        rows_text(start, start, window) == Seq::<char>::empty(),
        rows_text(start, end + 1, window) == rows_text(start, end, window) + (
        "{\"device_id\":\"d"@ + decimal(((end / window) % 8) as nat) + "\",\"v\":"@ + decimal(
            end as nat,
        ) + "}\n"@),
{
}

/// The hash goes over the outputs that were seen, in order, as `edge:i:30` or
/// as the device of a window and its sum.
pub proof fn law_what_is_hashed(t: Tally, n: int)
    requires
        0 <= n < t.seen.len(),
    ensures
        seen_hash(t, 0) == 0xcbf29ce484222325,
        !t.seen[n] ==> seen_hash(t, n + 1) == seen_hash(t, n),
        t.seen[n] && t.kind == Kind::Mqtt ==> seen_hash(t, n + 1) == crate::file_replay::fnv_from(
            seen_hash(t, n),
            encode_utf8("edge:"@ + decimal(n as nat) + ":30\n"@),
        ),
        t.seen[n] && t.kind == Kind::File ==> seen_hash(t, n + 1) == crate::file_replay::fnv_from(
            seen_hash(t, n),
            encode_utf8(
                "d"@ + decimal((n % 8) as nat) + ":"@ + decimal(
                    (t.window * t.window * n + t.window * (t.window - 1) / 2) as nat,
                ) + "\n"@,
            ),
        ),
{
}

proof fn lemma_eight_bytes(h: u64)
    ensures
        h / 0x100000000000000 < 256,
        h == (h / 0x100000000000000) * 0x100000000000000 + (h / 0x1000000000000 % 256)
            * 0x1000000000000 + (h / 0x10000000000 % 256) * 0x10000000000 + (h / 0x100000000 % 256)
            * 0x100000000 + (h / 0x1000000 % 256) * 0x1000000 + (h / 0x10000 % 256) * 0x10000 + (h
            / 0x100 % 256) * 0x100 + h % 256,
{
    let x = h as int;
    lemma_one_byte(x, 1);
    lemma_one_byte(x, 0x100);
    lemma_one_byte(x, 0x10000);
    lemma_one_byte(x, 0x1000000);
    lemma_one_byte(x, 0x100000000);
    lemma_one_byte(x, 0x10000000000);
    lemma_one_byte(x, 0x1000000000000);
    assert(x / 1 == x);
}

proof fn lemma_one_byte(x: int, d: int)
    requires
        x >= 0,
        d > 0,
    ensures
        x / d == 256 * (x / (d * 256)) + (x / d) % 256,
{
    vstd::arithmetic::div_mod::lemma_div_denominator(x, d, 256);
    vstd::arithmetic::div_mod::lemma_fundamental_div_mod(x / d, 256);
}

/// The hash is shown in sixteen hexadecimal digits, the highest first: it is
/// what the eight bytes are worth that these digits stand for.
pub proof fn law_the_hash_has_sixteen_digits(h: u64)
    ensures
        hex16(h).len() == 16,
        unhex(hex16(h)) is Some,
        unhex(hex16(h))->0.len() == 8,
        ({
            let b = unhex(hex16(h))->0;
            h == b[0] * 0x100000000000000 + b[1] * 0x1000000000000 + b[2] * 0x10000000000 + b[3]
                * 0x100000000 + b[4] * 0x1000000 + b[5] * 0x10000 + b[6] * 0x100 + b[7]
        }),
{
    let b = seq![
        (h / 0x100000000000000) as u8,
        (h / 0x1000000000000 % 256) as u8,
        (h / 0x10000000000 % 256) as u8,
        (h / 0x100000000 % 256) as u8,
        (h / 0x1000000 % 256) as u8,
        (h / 0x10000 % 256) as u8,
        (h / 0x100 % 256) as u8,
        (h % 256) as u8,
    ];
    lemma_eight_bytes(h);
    assert(hex16(h) == hex_text(b));
    law_hex_is_read_back(b);
}

/// Of members with one name the first one counts.
pub proof fn law_the_first_member_counts(v: Seq<Item>, name: Seq<char>, i: int)
    requires
        0 <= i <= v.len(),
        forall|j: int| 0 <= j < i ==> (#[trigger] v[j]).name != name,
        i < v.len() ==> v[i].name == name,
    ensures
        lookup(v, name) == if i < v.len() {
            Some(v[i])
        } else {
            None
        },
    decreases v.len(),
{
    if v.len() > 0 {
        let u = v.drop_last();
        if i < v.len() {
            if i < u.len() {
                law_the_first_member_counts(u, name, i);
            } else {
                law_the_first_member_counts(u, name, u.len() as int);
            }
        } else {
            law_the_first_member_counts(u, name, u.len() as int);
            assert(v[v.len() - 1].name != name);
        }
    }
}

/// The rows of a body are those of its array, in order, or the one object that
/// it is; a body that is neither has none.
pub proof fn law_which_rows_a_body_has(s: Shape, rows: Seq<Option<Seq<Item>>>, m: Seq<Item>, i: int)
    requires
        0 <= i < rows.len(),
    ensures
        s.rows == Some(rows) ==> rows_in(Some(s)) is Some && rows_in(Some(s))->0.len() == rows.len(),
        s.rows == Some(rows) && rows[i] is Some ==> ({
            let r = rows_in(Some(s))->0[i];
            let v = rows[i]->0;
            &&& lookup(v, "device_id"@) is Some ==> r.device == lookup(v, "device_id"@)->0.text
            &&& lookup(v, "device_id"@) is None ==> r.device is None
            &&& lookup(v, "s"@) is Some ==> r.s == lookup(v, "s"@)->0.figure
            &&& lookup(v, "seq"@) is Some ==> r.seq == lookup(v, "seq"@)->0.figure
            &&& lookup(v, "ts"@) is Some ==> r.ts == lookup(v, "ts"@)->0.figure
            &&& lookup(v, "temperature"@) is Some ==> r.temperature == lookup(
                v,
                "temperature"@,
            )->0.figure
            &&& lookup(v, "s"@) is None ==> r.s.whole is None && r.s.bits is None
            &&& lookup(v, "seq"@) is None ==> r.seq.whole is None && r.seq.bits is None
        }),
        s.rows is None && s.members == Some(m) ==> rows_in(Some(s)) is Some && rows_in(
            Some(s),
        )->0.len() == 1 && (lookup(m, "seq"@) is Some ==> rows_in(Some(s))->0[0].seq == lookup(
            m,
            "seq"@,
        )->0.figure) && (lookup(m, "device_id"@) is Some ==> rows_in(Some(s))->0[0].device
            == lookup(m, "device_id"@)->0.text),
        s.rows is None && s.members is None ==> rows_in(Some(s)) is None,
        rows_in(None) is None,
{
}

/// What the engines are told: the query, the channels, and how it recovers.
pub proof fn law_what_engines_are_told(
    engine: &str,
    scenario: &str,
    id: &str,
    window: u64,
    delay: u64,
    k: Scenario,
    r: Setup,
)
    requires
        call_ensures(setup, (engine, scenario, id, window, delay), r),
        call_ensures(Scenario::of, (scenario,), k),
    ensures
        k.mqtt ==> r.query@ == "SELECT device_id, seq, temperature, ts FROM "@ + id@
            + " WHERE temperature > 25"@,
        !k.mqtt && engine@ == "sparrow"@ ==> r.query@ == "SELECT device_id, SUM(v) AS s FROM "@
            + id@ + " GROUP BY device_id, COUNT_WINDOW("@ + decimal(window as nat) + ")"@,
        !k.mqtt && engine@ != "sparrow"@ ==> r.query@ == "SELECT device_id, SUM(v) AS s FROM "@
            + id@ + " GROUP BY device_id, COUNTWINDOW("@ + decimal(window as nat) + ")"@,
        k.mqtt ==> r.stream@ == "CREATE STREAM "@ + id@
            + " (device_id STRING, seq BIGINT, temperature FLOAT, ts BIGINT) WITH (DATASOURCE=\"bench/"@
            + id@ + "\", FORMAT=\"JSON\", TYPE=\"mqtt\")"@,
        !k.mqtt ==> r.stream@ == "CREATE STREAM "@ + id@
            + " (device_id STRING, v BIGINT) WITH (DATASOURCE=\""@ + id@
            + ".jsonl\", FORMAT=\"JSON\", TYPE=\"file\")"@,
        k.pressure ==> r.inbox == 8 && r.outbox == 2 && r.sink_delay_ms == 8,
        !k.pressure ==> r.inbox == 32 && r.outbox == 32 && r.sink_delay_ms == delay,
        k.chunked ==> r.recovery@ == "aligned"@,
        !k.chunked ==> r.recovery@ == "restart_fresh"@,
{
}

/// Every fourth event, from the first on, is too cold to be let through.
pub proof fn law_which_events_are_warm(i: u64, ts: u64, r: String)
    requires
        call_ensures(event_body, (i, ts), r),
    ensures
        i % 4 == 0 ==> r@ == "{\"device_id\":\"edge\",\"seq\":"@ + decimal(i as nat)
            + ",\"temperature\":20.0,\"ts\":"@ + decimal(ts as nat) + "}"@,
        i % 4 != 0 ==> r@ == "{\"device_id\":\"edge\",\"seq\":"@ + decimal(i as nat)
            + ",\"temperature\":30.0,\"ts\":"@ + decimal(ts as nat) + "}"@,
{
}

/// The broker listens on this machine, keeps nothing, and is observed where that
/// is asked for.
pub proof fn law_the_settings_of_the_broker(port: u16, nodelay: bool, observe: u64, r: String)
    requires
        call_ensures(broker_config, (port, nodelay, observe), r),
    ensures
        nodelay && observe == 0 ==> r@ == "listener "@ + decimal(port as nat)
            + " 127.0.0.1\nallow_anonymous true\npersistence false\nset_tcp_nodelay true\n"@ + ""@,
        !nodelay && observe == 0 ==> r@ == "listener "@ + decimal(port as nat)
            + " 127.0.0.1\nallow_anonymous true\npersistence false\nset_tcp_nodelay false\n"@ + ""@,
        nodelay && observe > 0 ==> r@ == "listener "@ + decimal(port as nat)
            + " 127.0.0.1\nallow_anonymous true\npersistence false\nset_tcp_nodelay true\n"@
            + "sys_interval 1\n"@,
{
}

/// A pipeline is asked a hundred times whether it runs, or is stopped.
pub proof fn law_a_pipeline_is_asked_a_hundred_times(
    status: &str,
    polls: u64,
    r: PollStep,
    s: PollStep,
)
    requires
        call_ensures(ready_step, (status, polls), r),
        call_ensures(stop_step, (status, polls), s),
    ensures
        r == PollStep::Reached <==> status@ == "running"@,
        status@ == "failed"@ ==> r == PollStep::Failed,
        r == PollStep::Failed ==> status@ == "failed"@,
        status@ != "running"@ && status@ != "failed"@ ==> r == if polls < 99 {
            PollStep::Again
        } else {
            PollStep::TooLate
        },
        s == PollStep::Reached <==> status@ == "stopped"@,
        status@ != "stopped"@ ==> s == if polls < 99 {
            PollStep::Again
        } else {
            PollStep::TooLate
        },
{
    reveal_strlit("running");
    reveal_strlit("failed");
    assert("running"@.len() == 7 && "failed"@.len() == 6);
}

/// Outputs are waited for until there are enough or the time is over; rows are
/// read once the engine counts that many more than before.
pub proof fn law_how_long_is_waited(
    unique: usize,
    target: usize,
    now: u64,
    deadline: u64,
    r: bool,
    rows: u64,
    baseline: u64,
    end: u64,
    s: bool,
)
    requires
        call_ensures(collected, (unique, target, now, deadline), r),
        call_ensures(ingested, (rows, baseline, end), s),
    ensures
        r <==> unique >= target || now >= deadline,
        s <==> rows - baseline >= end,
{
}

/// A file grows by four hundred rows at a time, or by what is left. A part is
/// appended, then its outputs are waited for, then a checkpoint is taken where
/// that is measured; or the checkpoint comes first.
pub proof fn law_how_a_file_grows(c: ChunkRun, r: ChunkAction)
    requires
        call_ensures(ChunkRun::action, (&c,), r),
        c.wf(),
    ensures
        ({
            let end = if c.from + 400 < c.rows {
                c.from + 400
            } else {
                c.rows as int
            };
            &&& c.stage == ChunkStage::Append ==> r == (ChunkAction::Append {
                from: c.from,
                end: end as u64,
            })
            &&& c.stage == ChunkStage::Ingest ==> r == (ChunkAction::AwaitIngested {
                end: end as u64,
            })
            &&& c.stage == ChunkStage::Collect || c.stage == ChunkStage::CollectAfter ==> r == (
            ChunkAction::Collect { target: (end / (c.window as int)) as u64 })
            &&& c.stage == ChunkStage::Checkpoint ==> r == ChunkAction::Checkpoint
            &&& c.stage == ChunkStage::Done ==> r == ChunkAction::Done
        }),
{
}

/// What follows each step of a growing file.
pub proof fn law_what_follows_a_step(c: &mut ChunkRun, unique: u64)
    requires
        call_ensures(ChunkRun::advance, (c, unique), ()),
        c.wf(),
    ensures
        ({
            let b = *old(c);
            let a = *final(c);
            let end = if b.from + 400 < b.rows {
                b.from + 400
            } else {
                b.rows as int
            };
            let enough = unique >= end / (b.window as int);
            let next = if end < b.rows {
                ChunkStage::Append
            } else {
                ChunkStage::Done
            };
            &&& a.rows == b.rows && a.window == b.window && a.checkpoint == b.checkpoint
                && a.before_sink == b.before_sink
            &&& b.stage == ChunkStage::Append ==> a.from == b.from && a.stage == if b.checkpoint
                && b.before_sink {
                ChunkStage::Ingest
            } else {
                ChunkStage::Collect
            }
            &&& b.stage == ChunkStage::Ingest ==> a.from == b.from && a.stage
                == ChunkStage::Checkpoint
            &&& b.stage == ChunkStage::Collect && !enough ==> a.stage == ChunkStage::Done
            &&& b.stage == ChunkStage::Collect && enough && b.checkpoint ==> a.stage
                == ChunkStage::Checkpoint && a.from == b.from
            &&& b.stage == ChunkStage::Collect && enough && !b.checkpoint ==> a.stage == next
                && a.from == end
            &&& b.stage == ChunkStage::Checkpoint && b.before_sink ==> a.stage
                == ChunkStage::CollectAfter && a.from == b.from
            &&& b.stage == ChunkStage::Checkpoint && !b.before_sink ==> a.stage == next && a.from
                == end
            &&& b.stage == ChunkStage::CollectAfter && enough ==> a.stage == next && a.from == end
            &&& b.stage == ChunkStage::CollectAfter && !enough ==> a.stage == ChunkStage::Done
            &&& b.stage == ChunkStage::Done ==> a == b
        }),
{
}

/// The observer of the broker subscribes once it is greeted, waits for that to
/// be acknowledged, and writes down what is published.
pub proof fn law_what_the_observer_does(
    p: Packet,
    hello: Result<Packet, String>,
    ready: Result<(), String>,
    seen: Result<Option<Publish>, String>,
    first: Packet,
)
    requires
        call_ensures(observer_hello, (), first),
        call_ensures(observer_subscribe, (&p,), hello),
        call_ensures(observer_ready, (&p,), ready),
        call_ensures(observed, (p,), seen),
    ensures
        hello is Ok <==> (p matches Packet::ConnAck { return_code, .. } && return_code == 0),
        hello is Ok ==> hello->Ok_0@ == (Message::Subscribe {
            packet_id: 1,
            topics: seq![("$SYS/broker/#"@, 0u8)],
        }),
        first is Connect && first->Connect_0.client_id@ == "bench-sys-observer"@
            && first->Connect_0.clean_session && first->Connect_0.keepalive == 30
            && first->Connect_0.username is None && first->Connect_0.password is None,
        ready is Ok <==> p is SubAck,
        p is Publish ==> seen is Ok && seen->Ok_0 is Some && p == Packet::Publish(seen->Ok_0->0),
        p is Disconnect ==> seen is Err,
        !(p is Publish) && !(p is Disconnect) ==> seen is Ok && seen->Ok_0 is None,
{
}

/// What is reported of a trial: what came, what is missing, how long it took.
/// A trial is rated only where it is valid, and the first round is a warm-up.
pub proof fn law_what_is_reported(
    engine: &str,
    scenario: &str,
    round: u64,
    rate: u64,
    delay: u64,
    c: Check,
    times: Times,
    overflows: u64,
    k: Scenario,
    n: usize,
    valid: bool,
    r: Report,
)
    requires
        call_ensures(report, (engine, scenario, round, rate, delay, &c, times, overflows), r),
        call_ensures(Scenario::of, (scenario,), k),
        call_ensures(Check::expected, (&c,), n),
        call_ensures(Check::valid, (&c,), valid),
    ensures
        r.engine@ == engine@ && r.scenario@ == scenario@ && r.round == round,
        r.warmup <==> round == 0,
        r.valid <==> valid && overflows == 0,
        r.input_events == c.input && r.window_rows == c.window && r.output_rows == c.rows
            && r.unique_rows == c.unique && r.duplicate_rows == c.duplicate && r.invalid_rows
            == c.invalid && r.http_requests == c.requests,
        r.expected_output_rows == n,
        r.missing_rows == if n > c.unique {
            n - c.unique
        } else {
            0
        },
        r.stress_case <==> k.pressure,
        k.mqtt && !k.pressure ==> r.offered_rate == Some(rate),
        !k.mqtt || k.pressure ==> r.offered_rate is None,
        r.rated_ns is Some <==> r.valid,
        r.valid ==> r.rated_ns == Some(r.elapsed_ns) && r.rated_steady_ns == r.steady_ns,
        !r.valid ==> r.rated_steady_ns is None,
        r.elapsed_ns >= 1,
        !r.valid && times.observed_end > times.start ==> r.elapsed_ns == times.observed_end
            - times.start,
        r.valid && c.last is Some && times.publication_end is None && c.last->0 > times.start
            ==> r.elapsed_ns == c.last->0 - times.start,
        r.valid && c.last is Some && times.publication_end is Some && c.last->0 > times.start
            && times.publication_end->0 > times.start ==> r.elapsed_ns == if c.last->0
            > times.publication_end->0 {
            c.last->0 - times.start
        } else {
            times.publication_end->0 - times.start
        },
        times.publication_end is Some && times.publication_end->0 >= times.start
            ==> r.publish_elapsed_ns == Some((times.publication_end->0 - times.start) as u64),
        times.publication_end is None ==> r.publish_elapsed_ns is None,
        times.observed_end >= times.start ==> r.observation_elapsed_ns == times.observed_end
            - times.start,
        c.first is Some && c.last is Some && c.last->0 > c.first->0 ==> r.steady_ns == Some(
            (c.last->0 - c.first->0) as u64,
        ),
        c.first is None || c.last is None ==> r.steady_ns is None,
        c.first is Some && c.last is Some && c.last->0 <= c.first->0 ==> r.steady_ns is None,
        k.mqtt ==> r.timing@ == "first_publish_to_max_last_publish_or_sink_arrival"@,
        !k.mqtt && k.chunked ==> r.timing@ == "first_append_to_last_sink_and_checkpoint_ack"@,
        !k.mqtt && !k.chunked ==> r.timing@ == "submit_configuration_to_last_sink_arrival"@,
{
}

/// A run over a growing file begins with its first part; over no rows it is done.
pub proof fn law_how_a_growing_file_begins(
    rows: u64,
    window: u64,
    checkpoint: bool,
    before_sink: bool,
    r: ChunkRun,
)
    requires
        call_ensures(ChunkRun::new, (rows, window, checkpoint, before_sink), r),
    ensures
        r.rows == rows && r.window == window && r.checkpoint == checkpoint && r.before_sink
            == before_sink && r.from == 0,
        rows >= 1 ==> r.stage == ChunkStage::Append,
        rows == 0 ==> r.stage == ChunkStage::Done,
{
}

} // verus!
