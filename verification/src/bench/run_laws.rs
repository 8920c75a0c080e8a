//! What holds of every run: how its options are read, which trials it makes and
//! in what order, what is read of a process, and what the trials come to.

use super::options::{
    applied, asked, defaults, refusal, tuned, Asked, Chosen, Options, Request, Tuning,
};
use super::plan::{round_trials, run_trials, scenario_trials, trial_id, Scenario, Trial};
use super::proc::{memory, rss_kb, ticks, words, Watched};
use super::summary::{groups, members, percentile, sorted, spread, verdict, Spread};
use super::trial::Report;
use crate::table::Table;
use crate::text::{decimal, law_decimal_is_read_back, number, pieces, texts, white};
use crate::text_laws::{
    law_a_text_begins_with_its_beginning, law_decimal_has_digits_alone,
    law_pieces_stand_between_separators,
};
use vstd::prelude::*;

verus! {

/// Every option sets what it names and nothing else.
pub proof fn law_an_option_sets_what_it_names(c: Chosen, v: Seq<char>, n: nat)
    requires
        n <= u64::MAX,
    ensures
        applied(c, "--engine"@, v) == Ok::<Chosen, Seq<char>>(Chosen { engine: v, ..c }),
        applied(c, "--server-bin"@, v) == Ok::<Chosen, Seq<char>>(Chosen { server: v, ..c }),
        applied(c, "--mosquitto"@, v) == Ok::<Chosen, Seq<char>>(Chosen { mosquitto: v, ..c }),
        applied(c, "--out"@, v) == Ok::<Chosen, Seq<char>>(Chosen { out: v, ..c }),
        applied(c, "--ekuiper-dir"@, v) == Ok::<Chosen, Seq<char>>(
            Chosen { ekuiper: Some(v), ..c },
        ),
        applied(c, "--rounds"@, decimal(n)) == Ok::<Chosen, Seq<char>>(
            Chosen { rounds: n as u64, ..c },
        ),
        applied(c, "--mqtt-events"@, decimal(n)) == Ok::<Chosen, Seq<char>>(
            Chosen { mqtt_events: n as u64, ..c },
        ),
        applied(c, "--file-events"@, decimal(n)) == Ok::<Chosen, Seq<char>>(
            Chosen { file_events: n as u64, ..c },
        ),
        applied(c, "--checkpoint-events"@, decimal(n)) == Ok::<Chosen, Seq<char>>(
            Chosen { checkpoint_events: n as u64, ..c },
        ),
        applied(c, "--pressure-events"@, decimal(n)) == Ok::<Chosen, Seq<char>>(
            Chosen { pressure_events: n as u64, ..c },
        ),
        applied(c, "--rate"@, decimal(n)) == Ok::<Chosen, Seq<char>>(
            Chosen { rate: n as u64, ..c },
        ),
        applied(c, "--drain-secs"@, decimal(n)) == Ok::<Chosen, Seq<char>>(
            Chosen { drain_secs: n as u64, ..c },
        ),
        applied(c, "--window"@, decimal(n)) == Ok::<Chosen, Seq<char>>(
            Chosen { window: n as u64, ..c },
        ),
        applied(c, "--sink-delay-ms"@, decimal(n)) == Ok::<Chosen, Seq<char>>(
            Chosen { sink_delay_ms: n as u64, ..c },
        ),
        applied(c, "--metrics-ms"@, decimal(n)) == Ok::<Chosen, Seq<char>>(
            Chosen { metrics_ms: n as u64, ..c },
        ),
        applied(c, "--observe-ms"@, decimal(n)) == Ok::<Chosen, Seq<char>>(
            Chosen { observe_ms: n as u64, ..c },
        ),
        applied(c, "--inbox-wait-ms"@, decimal(n)) == Ok::<Chosen, Seq<char>>(
            Chosen { inbox_wait_ms: Some(n as u64), ..c },
        ),
        applied(c, "--broker-nodelay"@, "true"@) == Ok::<Chosen, Seq<char>>(
            Chosen { broker_nodelay: true, ..c },
        ),
        applied(c, "--broker-nodelay"@, "false"@) == Ok::<Chosen, Seq<char>>(
            Chosen { broker_nodelay: false, ..c },
        ),
        applied(c, "--checkpoint-before-sink"@, "true"@) == Ok::<Chosen, Seq<char>>(
            Chosen { checkpoint_before_sink: true, ..c },
        ),
        applied(c, "--scenarios"@, v) == Ok::<Chosen, Seq<char>>(
            Chosen { scenarios: pieces(v, ','), ..c },
        ),
{
    law_decimal_is_read_back(n, u64::MAX as nat);
    lemma_option_names();
    lemma_more_option_names();
    reveal_strlit("true");
    reveal_strlit("false");
    assert("true"@.len() == 4 && "false"@.len() == 5);
}

/// Where an option's name is put among all of them: by its length, and by the
/// character at a place where those of one length differ.
proof fn lemma_option_names()
    ensures
        "--engine"@.len() == 8 && "--server-bin"@.len() == 12 && "--mosquitto"@.len() == 11
            && "--out"@.len() == 5 && "--ekuiper-dir"@.len() == 13 && "--rounds"@.len() == 8
            && "--mqtt-events"@.len() == 13 && "--file-events"@.len() == 13
            && "--checkpoint-events"@.len() == 19 && "--pressure-events"@.len() == 17
            && "--rate"@.len() == 6 && "--drain-secs"@.len() == 12,
        "--engine"@[2] == 'e' && "--server-bin"@[2] == 's' && "--mosquitto"@[2] == 'm'
            && "--ekuiper-dir"@[2] == 'e' && "--rounds"@[2] == 'r' && "--mqtt-events"@[2] == 'm'
            && "--file-events"@[2] == 'f' && "--drain-secs"@[2] == 'd',
{
    reveal_strlit("--engine");
    reveal_strlit("--server-bin");
    reveal_strlit("--mosquitto");
    reveal_strlit("--out");
    reveal_strlit("--ekuiper-dir");
    reveal_strlit("--rounds");
    reveal_strlit("--mqtt-events");
    reveal_strlit("--file-events");
    reveal_strlit("--checkpoint-events");
    reveal_strlit("--pressure-events");
    reveal_strlit("--rate");
    reveal_strlit("--drain-secs");
}

proof fn lemma_more_option_names()
    ensures
        "--window"@.len() == 8 && "--sink-delay-ms"@.len() == 15 && "--metrics-ms"@.len() == 12
            && "--observe-ms"@.len() == 12 && "--broker-nodelay"@.len() == 16
            && "--checkpoint-before-sink"@.len() == 24 && "--scenarios"@.len() == 11
            && "--inbox-wait-ms"@.len() == 15,
        "--window"@[2] == 'w' && "--sink-delay-ms"@[2] == 's' && "--metrics-ms"@[2] == 'm'
            && "--observe-ms"@[2] == 'o' && "--scenarios"@[2] == 's' && "--inbox-wait-ms"@[2]
            == 'i',
{
    reveal_strlit("--window");
    reveal_strlit("--sink-delay-ms");
    reveal_strlit("--metrics-ms");
    reveal_strlit("--observe-ms");
    reveal_strlit("--broker-nodelay");
    reveal_strlit("--checkpoint-before-sink");
    reveal_strlit("--scenarios");
    reveal_strlit("--inbox-wait-ms");
}

/// Options are read from the first to the last, a later one over an earlier one.
/// `--quick` stands alone, `--help` ends the reading, and any other option takes
/// the argument behind it for its value.
pub proof fn law_options_are_read_in_turn(c: Chosen, name: Seq<char>, value: Seq<char>, rest: Seq<
    Seq<char>,
>)
    ensures
        asked(Seq::empty(), c) == Ok::<Asked, Seq<char>>(Asked::Run(c)),
        asked(seq!["--help"@] + rest, c) == Ok::<Asked, Seq<char>>(Asked::Help),
        asked(seq!["--quick"@] + rest, c) == asked(
            rest,
            Chosen {
                rounds: 1,
                mqtt_events: 512,
                file_events: 8000,
                checkpoint_events: 800,
                pressure_events: 128,
                drain_secs: 3,
                ..c
            },
        ),
        name != "--help"@ && name != "--quick"@ ==> asked(seq![name], c) is Err,
        name != "--help"@ && name != "--quick"@ && applied(c, name, value) is Ok ==> asked(
            seq![name, value] + rest,
            c,
        ) == asked(rest, applied(c, name, value)->Ok_0),
        name != "--help"@ && name != "--quick"@ && applied(c, name, value) is Err ==> asked(
            seq![name, value] + rest,
            c,
        ) is Err,
{
    reveal_strlit("--help");
    reveal_strlit("--quick");
    assert("--help"@.len() == 6 && "--quick"@.len() == 7);
    assert((seq!["--quick"@] + rest).skip(1) =~= rest);
    assert((seq![name, value] + rest).skip(2) =~= rest);
}

/// What stands for the options that are not given, and which runs are made.
pub proof fn law_what_runs_by_default(
    args: Vec<String>,
    server: &str,
    out: &str,
    r: Result<Request, String>,
)
    requires
        call_ensures(Options::parse, (&args, server, out), r),
        args@.len() == 0,
    ensures
        r is Ok && r->Ok_0 is Run ==> {
            let o = r->Ok_0->Run_0;
            &&& o.engine@ == "sparrow"@
            &&& o.ekuiper is None
            &&& o.server@ == server@
            &&& o.out@ == out@
            &&& o.mosquitto@ == "/usr/sbin/mosquitto"@
            &&& o.rounds == 3
            &&& o.mqtt_events == 10000
            &&& o.file_events == 80000
            &&& o.checkpoint_events == 8000
            &&& o.pressure_events == 1024
            &&& o.rate == 1000
            &&& o.drain_secs == 15
            &&& o.window == 8
            &&& o.sink_delay_ms == 0
            &&& o.metrics_ms == 0
            &&& o.observe_ms == 0
            &&& !o.broker_nodelay
            &&& !o.checkpoint_before_sink
            &&& o.inbox_wait_ms is None
            &&& o.scenarios@.len() == 5
        },
        r is Err || r->Ok_0 is Run,
{
    assert(texts(args@) =~= Seq::empty());
    if r is Ok && r->Ok_0 is Run {
        let o = r->Ok_0->Run_0;
        assert(o@ == defaults(server@, out@));
        assert(texts(o.scenarios@).len() == o.scenarios@.len());
    }
}

/// A run that is made keeps to the bounds of its options.
pub proof fn law_which_runs_are_made(o: Options, r: Result<(), String>, i: int)
    requires
        call_ensures(Options::check, (&o,), r),
    ensures
        r is Ok ==> {
            &&& o.engine@ == "sparrow"@ || o.engine@ == "ekuiper"@ || o.engine@ == "both"@
            &&& 1 <= o.rounds <= 20
            &&& 1 <= o.rate <= 100000
            &&& 1 <= o.drain_secs <= 300
            &&& 8 <= o.mqtt_events <= 2000000 && o.mqtt_events % 8 == 0
            &&& 8 <= o.file_events <= 2000000 && o.file_events % 8 == 0
            &&& 8 <= o.checkpoint_events <= 2000000 && o.checkpoint_events % 8 == 0
            &&& 8 <= o.pressure_events <= 2000000 && o.pressure_events % 8 == 0
            &&& o.engine@ != "sparrow"@ ==> o.ekuiper is Some
            &&& o.inbox_wait_ms is Some ==> o.inbox_wait_ms->0 <= 1000
            &&& o.observe_ms == 0 || 100 <= o.observe_ms <= 60000
            &&& o.metrics_ms == 0 || 100 <= o.metrics_ms <= 60000
            &&& 8 <= o.window <= 10000 && o.window % 8 == 0
            &&& o.sink_delay_ms <= 1000
            &&& o.scenarios@.len() > 0
        },
        r is Ok && 0 <= i < o.scenarios@.len() ==> {
            let s = o.scenarios@[i]@;
            &&& s == "mqtt_filter_http"@ || s == "file_count_window"@ || s
                == "mqtt_http_queue_pressure"@ || s == "file_chunked_no_checkpoint"@ || s
                == "file_chunked_checkpoint"@
            &&& s == "file_count_window"@ ==> o.file_events % o.window == 0
        },
{
    let t = texts(o.scenarios@);
    assert(t.len() == o.scenarios@.len());
    if r is Ok && 0 <= i < o.scenarios@.len() {
        assert(t[i] == o.scenarios@[i]@);
        let all = super::options::scenarios();
        assert(all.contains(t[i]));
        let k = choose|k: int| 0 <= k < all.len() && all[k] == t[i];
        assert(k == 0 || k == 1 || k == 2 || k == 3 || k == 4);
        reveal_strlit("file_count_window");
        reveal_strlit("file");
        reveal_strlit("file_chunked");
        assert("file_count_window"@.take(4) =~= "file"@);
        assert("file_count_window"@.take(12)[6] == 'o' && "file_chunked"@[6] == 'h');
    }
}

/// Options within their bounds are not refused.
pub proof fn law_options_within_bounds_are_taken(c: Chosen)
    requires
        c.engine == "sparrow"@,
        1 <= c.rounds <= 20,
        1 <= c.rate <= 100000,
        1 <= c.drain_secs <= 300,
        8 <= c.mqtt_events <= 2000000 && c.mqtt_events % 8 == 0,
        8 <= c.file_events <= 2000000 && c.file_events % 8 == 0,
        8 <= c.checkpoint_events <= 2000000 && c.checkpoint_events % 8 == 0,
        8 <= c.pressure_events <= 2000000 && c.pressure_events % 8 == 0,
        c.inbox_wait_ms is Some ==> c.inbox_wait_ms->0 <= 1000,
        c.observe_ms == 0 || 100 <= c.observe_ms <= 60000,
        c.metrics_ms == 0 || 100 <= c.metrics_ms <= 60000,
        8 <= c.window <= 10000 && c.window % 8 == 0,
        c.sink_delay_ms <= 1000,
        c.file_events % c.window == 0,
        c.checkpoint_events % c.window == 0,
        c.scenarios.len() > 0,
        c.scenarios.no_duplicates(),
        forall|i: int|
            0 <= i < c.scenarios.len() ==> #[trigger] c.scenarios[i] == "mqtt_filter_http"@
                || c.scenarios[i] == "file_count_window"@ || c.scenarios[i]
                == "mqtt_http_queue_pressure"@ || c.scenarios[i] == "file_chunked_no_checkpoint"@
                || c.scenarios[i] == "file_chunked_checkpoint"@,
    ensures
        refusal(c) is None,
{
    let all = super::options::scenarios();
    assert(all[0] == "mqtt_filter_http"@ && all[1] == "file_count_window"@ && all[2]
        == "mqtt_http_queue_pressure"@ && all[3] == "file_chunked_no_checkpoint"@ && all[4]
        == "file_chunked_checkpoint"@);
    assert forall|i: int| 0 <= i < c.scenarios.len() implies all.contains(
        #[trigger] c.scenarios[i],
    ) by {}
    reveal_strlit("sparrow");
    reveal_strlit("ekuiper");
    assert("sparrow"@[0] == 's' && "ekuiper"@[0] == 'e');
}

/// A tuning takes the place of an earlier one of its name, else it comes last.
pub proof fn law_a_tuning_is_set(
    v: Seq<(Seq<char>, Tuning)>,
    key: Seq<char>,
    t: Tuning,
    i: int,
)
    requires
        0 <= i <= v.len(),
        forall|j: int| 0 <= j < i ==> (#[trigger] v[j]).0 != key,
        i < v.len() ==> v[i].0 == key,
    ensures
        i < v.len() ==> tuned(v, key, t) == v.update(i, (key, t)),
        i == v.len() ==> tuned(v, key, t) == v.push((key, t)),
    decreases v.len(),
{
    if v.len() == 0 {
        assert(tuned(v, key, t) =~= v.push((key, t)));
    } else if i == 0 {
        assert(tuned(v, key, t) =~= v.update(0, (key, t)));
    } else {
        assert forall|j: int| 0 <= j < i - 1 implies (#[trigger] v.skip(1)[j]).0 != key by {
            assert(v.skip(1)[j] == v[j + 1]);
        }
        law_a_tuning_is_set(v.skip(1), key, t, i - 1);
        if i < v.len() {
            assert(tuned(v, key, t) =~= v.update(i, (key, t)));
        } else {
            assert(tuned(v, key, t) =~= v.push((key, t)));
        }
    }
}

/// Which options tune a connector, and under what name.
pub proof fn law_which_options_tune(c: Chosen, n: nat)
    requires
        n <= u64::MAX,
    ensures
        applied(c, "--quickack"@, "true"@) == Ok::<Chosen, Seq<char>>(
            Chosen {
                source_tuning: tuned(c.source_tuning, "tcp_quickack"@, Tuning::Flag(true)),
                ..c
            },
        ),
        applied(c, "--inbox-capacity"@, decimal(n)) == Ok::<Chosen, Seq<char>>(
            Chosen {
                source_tuning: tuned(c.source_tuning, "inbox_capacity"@, Tuning::Count(n as u64)),
                ..c
            },
        ),
        applied(c, "--inbox-bytes"@, decimal(n)) == Ok::<Chosen, Seq<char>>(
            Chosen {
                source_tuning: tuned(c.source_tuning, "inbox_bytes"@, Tuning::Count(n as u64)),
                ..c
            },
        ),
        applied(c, "--http-batch-rows"@, decimal(n)) == Ok::<Chosen, Seq<char>>(
            Chosen {
                sink_tuning: tuned(c.sink_tuning, "batch_rows"@, Tuning::Count(n as u64)),
                ..c
            },
        ),
        applied(c, "--http-batch-bytes"@, decimal(n)) == Ok::<Chosen, Seq<char>>(
            Chosen {
                sink_tuning: tuned(c.sink_tuning, "batch_bytes"@, Tuning::Count(n as u64)),
                ..c
            },
        ),
        applied(c, "--http-linger-ms"@, decimal(n)) == Ok::<Chosen, Seq<char>>(
            Chosen {
                sink_tuning: tuned(c.sink_tuning, "linger_ms"@, Tuning::Count(n as u64)),
                ..c
            },
        ),
        applied(c, "--http-max-inflight"@, decimal(n)) == Ok::<Chosen, Seq<char>>(
            Chosen {
                sink_tuning: tuned(c.sink_tuning, "max_inflight"@, Tuning::Count(n as u64)),
                ..c
            },
        ),
{
    law_decimal_is_read_back(n, u64::MAX as nat);
    lemma_option_names();
    lemma_more_option_names();
    reveal_strlit("--quickack");
    reveal_strlit("--inbox-capacity");
    reveal_strlit("--inbox-bytes");
    reveal_strlit("--http-batch-rows");
    reveal_strlit("--http-batch-bytes");
    reveal_strlit("--http-linger-ms");
    reveal_strlit("--http-max-inflight");
    reveal_strlit("--broker-nodelay");
    reveal_strlit("--pressure-events");
    reveal_strlit("--checkpoint-events");
    assert("--quickack"@.len() == 10 && "--inbox-capacity"@.len() == 16 && "--inbox-bytes"@.len()
        == 13 && "--http-batch-rows"@.len() == 17 && "--http-batch-bytes"@.len() == 18
        && "--http-linger-ms"@.len() == 16 && "--http-max-inflight"@.len() == 19);
    assert("--inbox-capacity"@[2] == 'i' && "--inbox-bytes"@[2] == 'i' && "--http-batch-rows"@[2]
        == 'h' && "--http-linger-ms"@[2] == 'h' && "--http-max-inflight"@[2] == 'h'
        && "--broker-nodelay"@[2] == 'b' && "--pressure-events"@[2] == 'p'
        && "--checkpoint-events"@[2] == 'c');
}

/// What a scenario asks for follows from its name.
pub proof fn law_what_a_scenario_asks_for(
    a: &str,
    b: &str,
    c: &str,
    d: &str,
    e: &str,
    ra: Scenario,
    rb: Scenario,
    rc: Scenario,
    rd: Scenario,
    re: Scenario,
)
    requires
        a@ == "mqtt_filter_http"@,
        b@ == "file_count_window"@,
        c@ == "mqtt_http_queue_pressure"@,
        d@ == "file_chunked_no_checkpoint"@,
        e@ == "file_chunked_checkpoint"@,
        call_ensures(Scenario::of, (a,), ra),
        call_ensures(Scenario::of, (b,), rb),
        call_ensures(Scenario::of, (c,), rc),
        call_ensures(Scenario::of, (d,), rd),
        call_ensures(Scenario::of, (e,), re),
    ensures
        ra.mqtt && !ra.pressure && !ra.chunked && !ra.checkpoint,
        !rb.mqtt && !rb.pressure && !rb.chunked && !rb.checkpoint,
        rc.mqtt && rc.pressure && !rc.chunked && !rc.checkpoint,
        !rd.mqtt && !rd.pressure && rd.chunked && !rd.checkpoint,
        !re.mqtt && !re.pressure && re.chunked && re.checkpoint,
{
    reveal_strlit("mqtt");
    reveal_strlit("file_chunked");
    reveal_strlit("mqtt_filter_http");
    reveal_strlit("file_count_window");
    reveal_strlit("mqtt_http_queue_pressure");
    reveal_strlit("file_chunked_no_checkpoint");
    reveal_strlit("file_chunked_checkpoint");
    assert("mqtt_filter_http"@.len() == 16 && "file_count_window"@.len() == 17
        && "mqtt_http_queue_pressure"@.len() == 24 && "file_chunked_no_checkpoint"@.len() == 26
        && "file_chunked_checkpoint"@.len() == 23);
    assert("mqtt_filter_http"@.take(4) =~= "mqtt"@);
    assert("mqtt_http_queue_pressure"@.take(4) =~= "mqtt"@);
    assert("file_chunked_no_checkpoint"@.take(12) =~= "file_chunked"@);
    assert("file_chunked_checkpoint"@.take(12) =~= "file_chunked"@);
    assert("file_count_window"@.take(12)[6] == 'o' && "file_chunked"@[6] == 'h');
    assert("file_count_window"@.take(4)[0] == 'f' && "mqtt"@[0] == 'm' && "file_chunked"@[0]
        == 'f');
    assert("file_chunked_no_checkpoint"@.take(4)[0] == 'f');
    assert("file_chunked_checkpoint"@.take(4)[0] == 'f');
    assert("mqtt_filter_http"@.take(12)[0] == 'm');
    assert("mqtt_http_queue_pressure"@.take(12)[0] == 'm');
}

/// A trial is named by its engine, its scenario and its round.
pub proof fn law_trials_are_named(engine: &str, scenario: &str, round: u64, r: String)
    requires
        call_ensures(trial_id, (engine, scenario, round), r),
    ensures
        r@ == "b_"@ + engine@ + "_"@ + scenario@ + "_"@ + decimal(round as nat),
{
}

/// A round has as many events as were asked for. The first one warms up: a tenth
/// of them in whole groups of eight, at least 128, and never more than there
/// are.
pub proof fn law_how_many_events_a_trial_has(o: Options, scenario: &str, round: u64, r: u64)
    requires
        call_ensures(Options::events, (&o, scenario, round), r),
        scenario@ == "mqtt_filter_http"@,
    ensures
        round > 0 ==> r == o.mqtt_events,
        round == 0 && o.mqtt_events >= 1280 ==> o.mqtt_events as int / 10 - 8 < r
            <= o.mqtt_events as int / 10 && r % 8 == 0,
        round == 0 && 128 <= o.mqtt_events < 1280 ==> r == 128,
        round == 0 && o.mqtt_events < 128 ==> r <= o.mqtt_events < r + 8 && r % 8 == 0,
{
    reveal_strlit("file");
    reveal_strlit("mqtt_filter_http");
    assert("mqtt_filter_http"@.take(4)[0] == 'm' && "file"@[0] == 'f');
}

/// Which count of events a scenario goes by.
pub proof fn law_which_count_a_scenario_goes_by(
    o: Options,
    a: &str,
    b: &str,
    c: &str,
    d: &str,
    round: u64,
    ra: u64,
    rb: u64,
    rc: u64,
    rd: u64,
)
    requires
        round > 0,
        a@ == "file_count_window"@,
        b@ == "mqtt_http_queue_pressure"@,
        c@ == "file_chunked_no_checkpoint"@,
        d@ == "file_chunked_checkpoint"@,
        call_ensures(Options::events, (&o, a, round), ra),
        call_ensures(Options::events, (&o, b, round), rb),
        call_ensures(Options::events, (&o, c, round), rc),
        call_ensures(Options::events, (&o, d, round), rd),
    ensures
        ra == o.file_events,
        rb == o.pressure_events,
        rc == o.checkpoint_events,
        rd == o.checkpoint_events,
{
    reveal_strlit("mqtt_filter_http");
    reveal_strlit("file_count_window");
    reveal_strlit("mqtt_http_queue_pressure");
    reveal_strlit("file_chunked_no_checkpoint");
    reveal_strlit("file_chunked_checkpoint");
    assert("mqtt_filter_http"@.len() == 16 && "file_count_window"@.len() == 17
        && "mqtt_http_queue_pressure"@.len() == 24 && "file_chunked_no_checkpoint"@.len() == 26
        && "file_chunked_checkpoint"@.len() == 23);
}

/// Two engines take turns at going first: in even rounds the first one does, in
/// odd rounds the second.
pub proof fn law_engines_take_turns(c: Chosen, a: Seq<char>, b: Seq<char>, s: int, round: int)
    requires
        0 <= s < c.scenarios.len(),
        s <= usize::MAX,
        0 <= round <= u64::MAX,
        c.scenarios[s] == "mqtt_filter_http"@,
    ensures
        ({
            let t = round_trials(c, seq![a, b], s, round, 2);
            &&& t.len() == 2
            &&& t[0].round == round && t[1].round == round
            &&& t[0].scenario == s && t[1].scenario == s
            &&& round % 2 == 0 ==> t[0].engine == 0 && t[1].engine == 1
            &&& round % 2 != 0 ==> t[0].engine == 1 && t[1].engine == 0
        }),
{
    reveal_with_fuel(round_trials, 3);
    reveal_strlit("mqtt_filter_http");
    reveal_strlit("file_chunked");
    assert("mqtt_filter_http"@.take(12)[0] == 'm' && "file_chunked"@[0] == 'f');
}

/// Scenario comes after scenario, and round after round: of each scenario first
/// the warm-up and then as many rounds as were asked for.
pub proof fn law_trials_come_in_order(c: Chosen, engines: Seq<Seq<char>>, n: nat, rounds: nat)
    ensures
        run_trials(c, engines, 0) == Seq::<Trial>::empty(),
        run_trials(c, engines, n + 1) == run_trials(c, engines, n) + scenario_trials(
            c,
            engines,
            n as int,
            (c.rounds + 1) as nat,
        ),
        scenario_trials(c, engines, n as int, 0) == Seq::<Trial>::empty(),
        scenario_trials(c, engines, n as int, rounds + 1) == scenario_trials(
            c,
            engines,
            n as int,
            rounds,
        ) + round_trials(c, engines, n as int, rounds as int, engines.len()),
{
}

/// A file that grows is read by one engine alone.
pub proof fn law_one_engine_reads_a_growing_file(scenario: Seq<char>, engine: Seq<char>, rest: Seq<
    char,
>)
    ensures
        super::plan::left_out("file_chunked"@ + rest, engine) <==> engine != "sparrow"@,
        super::plan::left_out("mqtt_filter_http"@, engine) == false,
        super::plan::left_out("file_count_window"@, engine) == false,
{
    law_a_text_begins_with_its_beginning("file_chunked"@, rest, "file_chunked"@ + rest);
    reveal_strlit("mqtt_filter_http");
    reveal_strlit("file_count_window");
    reveal_strlit("file_chunked");
    assert("mqtt_filter_http"@.take(12)[0] == 'm' && "file_chunked"@[0] == 'f');
    assert("file_count_window"@.take(12)[6] == 'o' && "file_chunked"@[6] == 'h');
}

/// A percentile is the number whose place is nearest to that part of the way
/// from the first number to the last; a half goes up.
pub proof fn law_a_percentile_lies_where_it_should(v: Vec<u64>, h: u64, r: Option<u64>)
    requires
        call_ensures(percentile, (&v, h), r),
        h <= 100,
    ensures
        r is None <==> v@.len() == 0,
        v@.len() > 0 && h == 0 ==> r == Some(v@[0]),
        v@.len() > 0 && h == 100 ==> r == Some(v@.last()),
        v@.len() > 0 ==> exists|k: int|
            0 <= k < v@.len() && r == Some(#[trigger] v@[k]) && 100 * k - 50 <= (v@.len() - 1) * h
                < 100 * k + 50,
{
    if v@.len() > 0 {
        let n = v@.len() as int;
        let m = (n - 1) * h;
        let k = (m + 50) / 100;
        assert(0 <= m <= (n - 1) * 100) by (nonlinear_arith)
            requires
                m == (n - 1) * h,
                n >= 1,
                0 <= h <= 100,
        ;
        assert(r == Some(v@[k]));
        assert(h == 0 ==> m == 0) by (nonlinear_arith)
            requires
                m == (n - 1) * h,
        ;
        assert(h == 100 ==> m == (n - 1) * 100);
    }
}

/// The spread of numbers: the smallest and the largest of them, and one of them
/// in the middle.
pub proof fn law_the_spread_of_numbers(v: Vec<u64>, r: Option<Spread>, i: int)
    requires
        call_ensures(spread, (v,), r),
        0 <= i < v@.len(),
    ensures
        r is Some,
        r->0.min <= v@[i] <= r->0.max,
        v@.contains(r->0.min) && v@.contains(r->0.max) && v@.contains(r->0.median),
        r->0.min <= r->0.median <= r->0.max,
        v@.len() == 1 ==> r->0.median == v@[0],
        v@.len() == 2 ==> r->0.median == r->0.max,
{
    broadcast use vstd::seq_lib::group_to_multiset_ensures;

    let s = choose|s: Seq<u64>|
        #![trigger super::summary::ascending(s)]
        super::summary::ascending(s) && s.to_multiset() == v@.to_multiset() && s.len() == v@.len()
            && r->0.min == s[0] && r->0.median == s[v@.len() as int / 2] && r->0.max == s[v@.len()
            - 1];
    assert(s.contains(s[0]) && s.contains(s[v@.len() as int / 2]) && s.contains(s[v@.len() - 1]));
    assert(v@.to_multiset().count(s[0]) > 0);
    assert(v@.to_multiset().count(s[v@.len() as int / 2]) > 0);
    assert(v@.to_multiset().count(s[v@.len() - 1]) > 0);
    assert(v@.contains(v@[i]));
    assert(s.to_multiset().count(v@[i]) > 0);
    assert(s.contains(v@[i]));
    let j = choose|j: int| 0 <= j < s.len() && s[j] == v@[i];
    assert(s[0] <= s[j] <= s[s.len() - 1]);
}

/// The trials of a group are those of its engine and scenario that are no
/// warm-ups, in order.
pub proof fn law_which_trials_are_a_group(reports: Seq<Report>, key: Seq<char>, i: int)
    requires
        0 <= i < reports.len() <= usize::MAX,
    ensures
        members(reports, key).contains(i as usize) <==> !reports[i].warmup && reports[i].engine@
            + "/"@ + reports[i].scenario@ == key,
    decreases reports.len(),
{
    lemma_members_lie_within(reports.drop_last(), key);
    let before = members(reports.drop_last(), key);
    let all = members(reports, key);
    if i < reports.len() - 1 {
        law_which_trials_are_a_group(reports.drop_last(), key, i);
        if before.contains(i as usize) {
            let k = choose|k: int| 0 <= k < before.len() && before[k] == i as usize;
            assert(all[k] == i as usize);
        }
        if all.contains(i as usize) {
            let k = choose|k: int| 0 <= k < all.len() && all[k] == i as usize;
            assert(k < before.len());
            assert(before[k] == i as usize);
        }
    } else {
        if all.len() > before.len() {
            assert(all[all.len() - 1] == i as usize);
        }
        if before.contains(i as usize) {
            let k = choose|k: int| 0 <= k < before.len() && before[k] == i as usize;
            assert(before[k] < i);
        }
    }
}

proof fn lemma_members_lie_within(reports: Seq<Report>, key: Seq<char>)
    requires
        reports.len() <= usize::MAX,
    ensures
        forall|k: int|
            0 <= k < members(reports, key).len() ==> #[trigger] members(reports, key)[k]
                < reports.len(),
    decreases reports.len(),
{
    if reports.len() > 0 {
        lemma_members_lie_within(reports.drop_last(), key);
        let before = members(reports.drop_last(), key);
        let all = members(reports, key);
        assert forall|k: int| 0 <= k < all.len() implies #[trigger] all[k] < reports.len() by {
            if k < before.len() {
                assert(all[k] == before[k]);
            }
        }
    }
}

/// A run can be relied on where every trial is valid but those under pressure.
pub proof fn law_when_a_run_can_be_relied_on(reports: Vec<Report>, r: Result<(), String>)
    requires
        call_ensures(verdict, (&reports,), r),
    ensures
        r is Ok <==> forall|i: int|
            0 <= i < reports@.len() ==> (#[trigger] reports@[i]).valid || reports@[i].stress_case,
{
}

proof fn lemma_words_of_a_word(w: Seq<char>)
    requires
        w.len() > 0,
        forall|i: int| 0 <= i < w.len() ==> !white(#[trigger] w[i]),
    ensures
        words(w) == seq![w],
    decreases w.len(),
{
    reveal_with_fuel(words, 2);
    if w.len() > 1 {
        let u = w.drop_last();
        assert forall|i: int| 0 <= i < u.len() implies !white(#[trigger] u[i]) by {
            assert(u[i] == w[i]);
        }
        lemma_words_of_a_word(u);
        assert(!white(w[w.len() - 2]) && !white(w[w.len() - 1]));
        assert(words(w) =~= seq![w]) by {
            assert(u.push(w.last()) =~= w);
        }
    } else {
        assert(!white(w[0]));
        assert(w.drop_last() =~= Seq::empty());
        assert(seq![w.last()] =~= w);
    }
}

/// The words of a text stand between white space.
pub proof fn law_words_stand_between_white_space(w: Seq<char>, c: char, rest: Seq<char>)
    requires
        w.len() > 0,
        forall|i: int| 0 <= i < w.len() ==> !white(#[trigger] w[i]),
        white(c),
    ensures
        words(w) == seq![w],
        words(w + seq![c] + rest) == seq![w] + words(rest),
        words(seq![c] + rest) == words(rest),
    decreases rest.len(),
{
    lemma_words_of_a_word(w);
    lemma_words_join(w, c, rest);
    lemma_words_join(Seq::empty(), c, rest);
    assert(Seq::empty() + seq![c] + rest =~= seq![c] + rest);
    assert(words(Seq::empty()) + words(rest) =~= words(rest));
}

proof fn lemma_words_join(a: Seq<char>, c: char, rest: Seq<char>)
    requires
        white(c),
    ensures
        words(a + seq![c] + rest) == words(a) + words(rest),
        rest.len() > 0 && !white(rest.last()) ==> words(rest).len() > 0,
    decreases rest.len(),
{
    let t = a + seq![c] + rest;
    if rest.len() == 0 {
        assert(t.drop_last() =~= a);
        assert(t.last() == c);
        assert(words(a) + words(rest) =~= words(a));
    } else {
        let u = rest.drop_last();
        lemma_words_join(a, c, u);
        assert(t.drop_last() =~= a + seq![c] + u);
        assert(t.last() == rest.last());
        if !white(rest.last()) {
            assert(t[t.len() - 2] == if rest.len() > 1 {
                rest[rest.len() - 2]
            } else {
                c
            });
            if rest.len() > 1 && !white(rest[rest.len() - 2]) {
                assert(u.last() == rest[rest.len() - 2]);
                let x = words(a) + words(u);
                assert(x.last() == words(u).last());
                assert(x.drop_last() =~= words(a) + words(u).drop_last());
            }
            assert(words(t) =~= words(a) + words(rest));
        }
    }
}

/// How large a process became: the first sample is the baseline, the largest one
/// the peak.
pub proof fn law_the_peak_is_the_largest(
    first: Option<(u64, u64)>,
    r: Watched,
    w: &mut Watched,
    rss: u64,
    high: u64,
)
    requires
        call_ensures(Watched::new, (first,), r),
        call_ensures(Watched::sample, (w, rss, high), ()),
    ensures
        first is Some ==> r.baseline == Some((first->0).0) && r.peak == Some((first->0).0)
            && r.lifetime_peak == Some((first->0).1),
        first is None ==> r.baseline is None && r.peak is None && r.lifetime_peak is None,
        r.samples == 0,
        final(w).baseline == old(w).baseline,
        final(w).samples == old(w).samples + 1 || old(w).samples == u64::MAX,
        final(w).lifetime_peak == Some(high),
        final(w).peak is Some && final(w).peak->0 >= rss,
        old(w).peak is Some ==> final(w).peak->0 >= old(w).peak->0 && (final(w).peak->0 == rss
            || final(w).peak == old(w).peak),
        old(w).peak is None ==> final(w).peak->0 == rss,
{
}

/// The memory of a process: the number behind `VmRSS:` and that behind `VmHWM:`,
/// each on its line.
pub proof fn law_what_is_read_of_memory(
    status: &str,
    a: nat,
    b: nat,
    r: Option<(u64, u64)>,
    rss: Option<u64>,
)
    requires
        a <= u64::MAX,
        b <= u64::MAX,
        status@ == "VmHWM:"@ + (seq!['\t'] + decimal(b) + " kB"@) + seq!['\n'] + ("VmRSS:"@ + (
        seq!['\t'] + decimal(a) + " kB"@)),
        call_ensures(memory, (status,), r),
        call_ensures(rss_kb, (status,), rss),
    ensures
        r == Some((a as u64, b as u64)),
        rss == Some(a as u64),
{
    let x = "VmHWM:"@ + (seq!['\t'] + decimal(b) + " kB"@);
    let y = "VmRSS:"@ + (seq!['\t'] + decimal(a) + " kB"@);
    reveal_strlit("VmHWM:");
    reveal_strlit("VmRSS:");
    lemma_value_line("VmHWM:"@, b);
    lemma_value_line("VmRSS:"@, a);
    assert(x[2] == 'H' && y[2] == 'R');
    assert("VmHWM:"@[2] == 'H' && "VmRSS:"@[2] == 'R');
    lemma_no_newline("VmHWM:"@, b);
    lemma_no_newline("VmRSS:"@, a);
    law_pieces_stand_between_separators(x, '\n', y);
    law_pieces_stand_between_separators(y, '\n', Seq::empty());
    let l = pieces(status@, '\n');
    assert(l =~= seq![x, y]);
    assert(x.take(6)[2] == 'H' && y.take(6)[2] == 'R');
    assert(l.skip(1) =~= seq![y]);
    assert(l.skip(1).skip(1) =~= Seq::empty());
    reveal_with_fuel(super::proc::first_value, 3);
    reveal_with_fuel(super::proc::only_value, 3);
}

proof fn lemma_no_newline(key: Seq<char>, n: nat)
    requires
        key == "VmHWM:"@ || key == "VmRSS:"@,
    ensures
        !(key + (seq!['\t'] + decimal(n) + " kB"@)).contains('\n'),
{
    reveal_strlit("VmHWM:");
    reveal_strlit("VmRSS:");
    reveal_strlit(" kB");
    let s = key + (seq!['\t'] + decimal(n) + " kB"@);
    if s.contains('\n') {
        let i = choose|i: int| 0 <= i < s.len() && s[i] == '\n';
        if 7 <= i < 7 + decimal(n).len() {
            law_decimal_has_digits_alone(n, i - 7);
            assert(s[i] == decimal(n)[i - 7]);
        }
    }
}

proof fn lemma_value_line(key: Seq<char>, n: nat)
    requires
        key.len() == 6,
        n <= u64::MAX,
    ensures
        super::proc::line_value(key + (seq!['\t'] + decimal(n) + " kB"@), key) == Some(n as u64),
{
    reveal_strlit(" kB");
    let rest = seq!['\t'] + decimal(n) + " kB"@;
    law_a_text_begins_with_its_beginning(key, rest, key + rest);
    assert((key + rest).skip(6) =~= rest);
    let d = decimal(n);
    assert(d.len() > 0) by {
        reveal(decimal);
    }
    assert forall|i: int| 0 <= i < d.len() implies !white(#[trigger] d[i]) by {
        law_decimal_has_digits_alone(n, i);
    }
    assert(white('\t') && white(' '));
    let k = seq!['k', 'B'];
    assert(rest =~= seq!['\t'] + (d + seq![' '] + k));
    law_words_stand_between_white_space(d, '\t', d + seq![' '] + k);
    law_words_stand_between_white_space(d, ' ', k);
    assert(words(rest)[0] == d);
    law_decimal_is_read_back(n, u64::MAX as nat);
}

/// The ticks of a process are the twelfth and the thirteenth word behind its
/// name, which ends at the last `) `.
pub proof fn law_which_ticks_are_read(stat: &str, name: Seq<char>, rest: Seq<char>, r: Option<(u64, u64)>)
    requires
        call_ensures(ticks, (stat,), r),
        stat@ == name + seq![')', ' '] + rest,
        forall|i: int| 0 <= i < rest.len() ==> #[trigger] rest[i] != ')',
    ensures
        words(rest).len() > 12 && number(words(rest)[11], u64::MAX as nat) is Ok && number(
            words(rest)[12],
            u64::MAX as nat,
        ) is Ok ==> r == Some(
            (
                number(words(rest)[11], u64::MAX as nat)->Ok_0 as u64,
                number(words(rest)[12], u64::MAX as nat)->Ok_0 as u64,
            ),
        ),
        words(rest).len() <= 12 ==> r is None,
{
    let s = stat@;
    let i = name.len() as int;
    assert(s[i] == ')' && s[i + 1] == ' ');
    assert forall|j: int| i < j implies !super::proc::ends_name(s, j) by {
        if super::proc::ends_name(s, j) {
            if j >= i + 2 {
                assert(s[j] == rest[j - i - 2]);
            }
        }
    }
    super::proc::lemma_after_name(s, i);
    assert(s.skip(i + 2) =~= rest);
}

/// Latencies are put in order, and none is added or lost.
pub proof fn law_latencies_are_put_in_order(v: Vec<u64>, r: Vec<u64>, i: int, j: int)
    requires
        call_ensures(sorted, (v,), r),
        0 <= i <= j < r@.len(),
    ensures
        r@[i] <= r@[j],
        r@.to_multiset() == v@.to_multiset(),
{
}

/// Every trial that is no warm-up is in the group of its engine and scenario, and
/// in no other.
pub proof fn law_trials_are_grouped(reports: Vec<Report>, t: Table<Vec<usize>>, key: Seq<char>, i: int)
    requires
        call_ensures(groups, (&reports,), t),
        0 <= i < reports@.len(),
        reports@.len() <= usize::MAX,
    ensures
        !reports@[i].warmup && reports@[i].engine@ + "/"@ + reports@[i].scenario@ == key
            ==> t@.dom().contains(key) && t@[key]@.contains(i as usize),
        t@.dom().contains(key) && t@[key]@.contains(i as usize) ==> !reports@[i].warmup
            && reports@[i].engine@ + "/"@ + reports@[i].scenario@ == key,
{
    law_which_trials_are_a_group(reports@, key, i);
    let m = members(reports@, key);
    if m.contains(i as usize) {
        assert(m.len() > 0);
        assert(super::summary::has_group(reports@, key));
    }
    assert(t@.dom().contains(key) <==> super::summary::has_group(reports@, key));
}

} // verus!
