//! The options of the benchmark.

use crate::text::{begins, cat2, number, pieces, read_number, same, split, starts_with, texts};
use vstd::prelude::*;
use vstd::string::*;

verus! {

/// Rows of a window where nothing else is said.
pub const WINDOW: u64 = 8;

/// A value that tunes a connector.
#[derive(Clone, Copy, Debug, PartialEq, Eq, Structural)]
pub enum Tuning {
    Flag(bool),
    Count(u64),
}

/// The options of a run.
#[derive(Debug)]
pub struct Options {
    pub engine: String,
    pub ekuiper: Option<String>,
    pub server: String,
    pub mosquitto: String,
    pub out: String,
    pub rounds: u64,
    pub mqtt_events: u64,
    pub file_events: u64,
    pub checkpoint_events: u64,
    pub pressure_events: u64,
    pub rate: u64,
    pub drain_secs: u64,
    pub window: u64,
    pub sink_delay_ms: u64,
    pub metrics_ms: u64,
    pub observe_ms: u64,
    pub broker_nodelay: bool,
    pub checkpoint_before_sink: bool,
    pub scenarios: Vec<String>,
    pub inbox_wait_ms: Option<u64>,
    pub source_tuning: Vec<(String, Tuning)>,
    pub sink_tuning: Vec<(String, Tuning)>,
}

/// The options of a run, by what they hold.
#[verifier::ext_equal]
pub ghost struct Chosen {
    pub engine: Seq<char>,
    pub ekuiper: Option<Seq<char>>,
    pub server: Seq<char>,
    pub mosquitto: Seq<char>,
    pub out: Seq<char>,
    pub rounds: u64,
    pub mqtt_events: u64,
    pub file_events: u64,
    pub checkpoint_events: u64,
    pub pressure_events: u64,
    pub rate: u64,
    pub drain_secs: u64,
    pub window: u64,
    pub sink_delay_ms: u64,
    pub metrics_ms: u64,
    pub observe_ms: u64,
    pub broker_nodelay: bool,
    pub checkpoint_before_sink: bool,
    pub scenarios: Seq<Seq<char>>,
    pub inbox_wait_ms: Option<u64>,
    pub source_tuning: Seq<(Seq<char>, Tuning)>,
    pub sink_tuning: Seq<(Seq<char>, Tuning)>,
}

/// Tunings by what they hold.
pub open spec fn tunings(v: Seq<(String, Tuning)>) -> Seq<(Seq<char>, Tuning)> {
    v.map_values(|t: (String, Tuning)| (t.0@, t.1))
}

impl View for Options {
    type V = Chosen;

    open spec fn view(&self) -> Chosen {
        Chosen {
            engine: self.engine@,
            ekuiper: match self.ekuiper {
                Some(p) => Some(p@),
                None => None,
            },
            server: self.server@,
            mosquitto: self.mosquitto@,
            out: self.out@,
            rounds: self.rounds,
            mqtt_events: self.mqtt_events,
            file_events: self.file_events,
            checkpoint_events: self.checkpoint_events,
            pressure_events: self.pressure_events,
            rate: self.rate,
            drain_secs: self.drain_secs,
            window: self.window,
            sink_delay_ms: self.sink_delay_ms,
            metrics_ms: self.metrics_ms,
            observe_ms: self.observe_ms,
            broker_nodelay: self.broker_nodelay,
            checkpoint_before_sink: self.checkpoint_before_sink,
            scenarios: texts(self.scenarios@),
            inbox_wait_ms: self.inbox_wait_ms,
            source_tuning: tunings(self.source_tuning@),
            sink_tuning: tunings(self.sink_tuning@),
        }
    }
}

/// What can be measured.
pub open spec fn scenarios() -> Seq<Seq<char>> {
    seq![
        "mqtt_filter_http"@,
        "file_count_window"@,
        "mqtt_http_queue_pressure"@,
        "file_chunked_no_checkpoint"@,
        "file_chunked_checkpoint"@,
    ]
}

/// Everything that can be measured, in order.
pub fn all_scenarios() -> (r: Vec<String>)
    ensures
        texts(r@) == scenarios(),
{
    let mut r: Vec<String> = Vec::new();
    r.push("mqtt_filter_http".to_owned());
    r.push("file_count_window".to_owned());
    r.push("mqtt_http_queue_pressure".to_owned());
    r.push("file_chunked_no_checkpoint".to_owned());
    r.push("file_chunked_checkpoint".to_owned());
    assert(texts(r@) =~= scenarios());
    r
}

/// What stands for the options that are not given.
pub open spec fn defaults(server: Seq<char>, out: Seq<char>) -> Chosen {
    Chosen {
        engine: "sparrow"@,
        ekuiper: None,
        server,
        mosquitto: "/usr/sbin/mosquitto"@,
        out,
        rounds: 3,
        mqtt_events: 10000,
        file_events: 80000,
        checkpoint_events: 8000,
        pressure_events: 1024,
        rate: 1000,
        drain_secs: 15,
        window: WINDOW,
        sink_delay_ms: 0,
        metrics_ms: 0,
        observe_ms: 0,
        broker_nodelay: false,
        checkpoint_before_sink: false,
        scenarios: scenarios(),
        inbox_wait_ms: None,
        source_tuning: Seq::empty(),
        sink_tuning: Seq::empty(),
    }
}

/// A run that only shows that everything works.
pub open spec fn quick(c: Chosen) -> Chosen {
    Chosen {
        rounds: 1,
        mqtt_events: 512,
        file_events: 8000,
        checkpoint_events: 800,
        pressure_events: 128,
        drain_secs: 3,
        ..c
    }
}

/// A number, or why the text is none.
pub open spec fn count_of(s: Seq<char>) -> Result<u64, Seq<char>> {
    match number(s, u64::MAX as nat) {
        Ok(n) => Ok(n as u64),
        Err(e) => Err(e.words()),
    }
}

/// A truth value, or why the text is none.
pub open spec fn flag_of(s: Seq<char>) -> Result<bool, Seq<char>> {
    if s == "true"@ {
        Ok(true)
    } else if s == "false"@ {
        Ok(false)
    } else {
        Err("provided string was not `true` or `false`"@)
    }
}

fn read_count(s: &str) -> (r: Result<u64, String>)
    ensures
        match r {
            Ok(n) => count_of(s@) == Ok::<u64, Seq<char>>(n),
            Err(t) => count_of(s@) == Err::<u64, Seq<char>>(t@),
        },
{
    match read_number(s, u64::MAX) {
        Ok(n) => Ok(n),
        Err(e) => Err(e.as_str().to_owned()),
    }
}

fn read_flag(s: &str) -> (r: Result<bool, String>)
    ensures
        match r {
            Ok(b) => flag_of(s@) == Ok::<bool, Seq<char>>(b),
            Err(t) => flag_of(s@) == Err::<bool, Seq<char>>(t@),
        },
{
    if same(s, "true") {
        Ok(true)
    } else if same(s, "false") {
        Ok(false)
    } else {
        Err("provided string was not `true` or `false`".to_owned())
    }
}

/// Tunings with one set: it takes the place of an earlier one.
pub open spec fn tuned(
    v: Seq<(Seq<char>, Tuning)>,
    key: Seq<char>,
    t: Tuning,
) -> Seq<(Seq<char>, Tuning)>
    decreases v.len(),
{
    if v.len() == 0 {
        seq![(key, t)]
    } else if v[0].0 == key {
        seq![(key, t)] + v.skip(1)
    } else {
        seq![v[0]] + tuned(v.skip(1), key, t)
    }
}

fn tune(v: &mut Vec<(String, Tuning)>, key: &str, t: Tuning)
    ensures
        tunings(final(v)@) == tuned(tunings(old(v)@), key@, t),
{
    let ghost before = tunings(v@);
    let mut i: usize = 0;
    assert(before.skip(0) =~= before);
    assert(before.take(0) + tuned(before, key@, t) =~= tuned(before, key@, t));
    while i < v.len()
        invariant
            i <= v.len(),
            tunings(v@) == before,
            before == tunings(old(v)@),
            tuned(before, key@, t) == before.take(i as int) + tuned(before.skip(i as int), key@, t),
        decreases v.len() - i,
    {
        let ghost rest = before.skip(i as int);
        assert(rest[0] == before[i as int]);
        assert(before[i as int] == (v@[i as int].0@, v@[i as int].1));
        assert(rest.skip(1) =~= before.skip(i + 1));
        if same(v[i].0.as_str(), key) {
            v.set(i, (key.to_owned(), t));
            assert(tunings(v@) =~= before.take(i as int) + (seq![(key@, t)] + before.skip(i + 1)));
            return;
        }
        assert(before.take(i as int) + (seq![rest[0]] + tuned(rest.skip(1), key@, t))
            =~= before.take(i + 1) + tuned(before.skip(i + 1), key@, t));
        i = i + 1;
    }
    assert(before.skip(i as int) =~= Seq::<(Seq<char>, Tuning)>::empty());
    v.push((key.to_owned(), t));
    assert(tunings(v@) =~= before.take(i as int) + seq![(key@, t)]);
}

/// The options with one more given, or why it cannot be.
pub open spec fn applied(c: Chosen, name: Seq<char>, value: Seq<char>) -> Result<
    Chosen,
    Seq<char>,
> {
    if name == "--engine"@ {
        Ok(Chosen { engine: value, ..c })
    } else if name == "--server-bin"@ {
        Ok(Chosen { server: value, ..c })
    } else if name == "--mosquitto"@ {
        Ok(Chosen { mosquitto: value, ..c })
    } else if name == "--out"@ {
        Ok(Chosen { out: value, ..c })
    } else if name == "--ekuiper-dir"@ {
        Ok(Chosen { ekuiper: Some(value), ..c })
    } else if name == "--rounds"@ {
        match count_of(value) {
            Ok(n) => Ok(Chosen { rounds: n, ..c }),
            Err(t) => Err(t),
        }
    } else if name == "--mqtt-events"@ {
        match count_of(value) {
            Ok(n) => Ok(Chosen { mqtt_events: n, ..c }),
            Err(t) => Err(t),
        }
    } else if name == "--file-events"@ {
        match count_of(value) {
            Ok(n) => Ok(Chosen { file_events: n, ..c }),
            Err(t) => Err(t),
        }
    } else if name == "--checkpoint-events"@ {
        match count_of(value) {
            Ok(n) => Ok(Chosen { checkpoint_events: n, ..c }),
            Err(t) => Err(t),
        }
    } else if name == "--pressure-events"@ {
        match count_of(value) {
            Ok(n) => Ok(Chosen { pressure_events: n, ..c }),
            Err(t) => Err(t),
        }
    } else if name == "--rate"@ {
        match count_of(value) {
            Ok(n) => Ok(Chosen { rate: n, ..c }),
            Err(t) => Err(t),
        }
    } else if name == "--drain-secs"@ {
        match count_of(value) {
            Ok(n) => Ok(Chosen { drain_secs: n, ..c }),
            Err(t) => Err(t),
        }
    } else if name == "--window"@ {
        match count_of(value) {
            Ok(n) => Ok(Chosen { window: n, ..c }),
            Err(t) => Err(t),
        }
    } else if name == "--sink-delay-ms"@ {
        match count_of(value) {
            Ok(n) => Ok(Chosen { sink_delay_ms: n, ..c }),
            Err(t) => Err(t),
        }
    } else if name == "--metrics-ms"@ {
        match count_of(value) {
            Ok(n) => Ok(Chosen { metrics_ms: n, ..c }),
            Err(t) => Err(t),
        }
    } else if name == "--observe-ms"@ {
        match count_of(value) {
            Ok(n) => Ok(Chosen { observe_ms: n, ..c }),
            Err(t) => Err(t),
        }
    } else if name == "--broker-nodelay"@ {
        match flag_of(value) {
            Ok(b) => Ok(Chosen { broker_nodelay: b, ..c }),
            Err(t) => Err(t),
        }
    } else if name == "--checkpoint-before-sink"@ {
        match flag_of(value) {
            Ok(b) => Ok(Chosen { checkpoint_before_sink: b, ..c }),
            Err(t) => Err(t),
        }
    } else if name == "--scenarios"@ {
        Ok(Chosen { scenarios: pieces(value, ','), ..c })
    } else if name == "--inbox-wait-ms"@ {
        match count_of(value) {
            Ok(n) => Ok(Chosen { inbox_wait_ms: Some(n), ..c }),
            Err(t) => Err(t),
        }
    } else if name == "--quickack"@ {
        match flag_of(value) {
            Ok(b) => Ok(
                Chosen {
                    source_tuning: tuned(c.source_tuning, "tcp_quickack"@, Tuning::Flag(b)),
                    ..c
                },
            ),
            Err(t) => Err(t),
        }
    } else if name == "--inbox-capacity"@ {
        match count_of(value) {
            Ok(n) => Ok(
                Chosen {
                    source_tuning: tuned(c.source_tuning, "inbox_capacity"@, Tuning::Count(n)),
                    ..c
                },
            ),
            Err(t) => Err(t),
        }
    } else if name == "--inbox-bytes"@ {
        match count_of(value) {
            Ok(n) => Ok(
                Chosen {
                    source_tuning: tuned(c.source_tuning, "inbox_bytes"@, Tuning::Count(n)),
                    ..c
                },
            ),
            Err(t) => Err(t),
        }
    } else if name == "--http-batch-rows"@ {
        match count_of(value) {
            Ok(n) => Ok(
                Chosen {
                    sink_tuning: tuned(c.sink_tuning, "batch_rows"@, Tuning::Count(n)),
                    ..c
                },
            ),
            Err(t) => Err(t),
        }
    } else if name == "--http-batch-bytes"@ {
        match count_of(value) {
            Ok(n) => Ok(
                Chosen {
                    sink_tuning: tuned(c.sink_tuning, "batch_bytes"@, Tuning::Count(n)),
                    ..c
                },
            ),
            Err(t) => Err(t),
        }
    } else if name == "--http-linger-ms"@ {
        match count_of(value) {
            Ok(n) => Ok(
                Chosen {
                    sink_tuning: tuned(c.sink_tuning, "linger_ms"@, Tuning::Count(n)),
                    ..c
                },
            ),
            Err(t) => Err(t),
        }
    } else if name == "--http-max-inflight"@ {
        match count_of(value) {
            Ok(n) => Ok(
                Chosen {
                    sink_tuning: tuned(c.sink_tuning, "max_inflight"@, Tuning::Count(n)),
                    ..c
                },
            ),
            Err(t) => Err(t),
        }
    } else {
        Err("unknown option "@ + name)
    }
}

/// What the arguments come to.
pub ghost enum Asked {
    Help,
    Run(Chosen),
}

/// What the arguments come to, given the options so far, or why they cannot be
/// read.
pub open spec fn asked(args: Seq<Seq<char>>, c: Chosen) -> Result<Asked, Seq<char>>
    decreases args.len(),
{
    if args.len() == 0 {
        Ok(Asked::Run(c))
    } else if args[0] == "--help"@ {
        Ok(Asked::Help)
    } else if args[0] == "--quick"@ {
        asked(args.skip(1), quick(c))
    } else if args.len() < 2 {
        Err("option requires a value"@)
    } else {
        match applied(c, args[0], args[1]) {
            Ok(d) => asked(args.skip(2), d),
            Err(t) => Err(t),
        }
    }
}

/// A count of events that can be cut into groups of eight.
pub open spec fn even_count(n: u64) -> bool {
    8 <= n <= 2000000 && n % 8 == 0
}

/// A period that is off or within its bounds.
pub open spec fn period_ok(ms: u64) -> bool {
    ms == 0 || 100 <= ms <= 60000
}

/// The scenarios are known, and none is named twice.
pub open spec fn scenarios_ok(s: Seq<Seq<char>>) -> bool {
    &&& s.len() > 0
    &&& forall|i: int| 0 <= i < s.len() ==> scenarios().contains(#[trigger] s[i])
    &&& s.no_duplicates()
}

/// The events of a scenario over a file.
pub open spec fn file_count(c: Chosen, scenario: Seq<char>) -> u64 {
    if begins(scenario, "file_chunked"@) {
        c.checkpoint_events
    } else {
        c.file_events
    }
}

/// Every scenario over a file has only whole windows.
pub open spec fn whole_windows(c: Chosen) -> bool {
    forall|i: int|
        0 <= i < c.scenarios.len() && begins(#[trigger] c.scenarios[i], "file"@) ==> file_count(
            c,
            c.scenarios[i],
        ) % c.window == 0
}

/// Every scenario is one over a file that is appended to.
pub open spec fn only_chunked(s: Seq<Seq<char>>) -> bool {
    forall|i: int| 0 <= i < s.len() ==> begins(#[trigger] s[i], "file_chunked"@)
}

/// Why a run with these options is refused.
pub open spec fn refusal(c: Chosen) -> Option<Seq<char>> {
    if !(c.engine == "sparrow"@ || c.engine == "ekuiper"@ || c.engine == "both"@) || c.rounds == 0
        || c.rounds > 20 || c.rate == 0 || c.rate > 100000 || c.drain_secs == 0 || c.drain_secs
        > 300 {
        Some("invalid engine, rounds, rate or drain duration"@)
    } else if !(even_count(c.mqtt_events) && even_count(c.file_events) && even_count(
        c.checkpoint_events,
    ) && even_count(c.pressure_events)) {
        Some("event counts must be multiples of 8 in 8..=2000000"@)
    } else if c.engine != "sparrow"@ && c.ekuiper is None {
        Some("--ekuiper-dir is required"@)
    } else if c.inbox_wait_ms matches Some(ms) && ms > 1000 {
        Some("--inbox-wait-ms must be in 0..=1000"@)
    } else if !period_ok(c.observe_ms) {
        Some("--observe-ms must be 0 or 100..60000"@)
    } else if !scenarios_ok(c.scenarios) || c.window < 8 || c.window > 10000 || c.window % 8 != 0
        || c.sink_delay_ms > 1000 || !period_ok(c.metrics_ms) {
        Some("invalid scenarios, window (8..=10000, multiple of 8) or sink delay (0..=1000)"@)
    } else if !whole_windows(c) {
        Some("selected file event counts must be multiples of --window"@)
    } else if c.engine == "ekuiper"@ && only_chunked(c.scenarios) {
        Some("selected checkpoint scenarios require Sparrow"@)
    } else {
        None
    }
}

/// What the arguments ask for.
#[derive(Debug)]
pub enum Request {
    Help,
    Run(Options),
}

fn position(v: &Vec<String>, s: &str, end: usize) -> (r: bool)
    requires
        end <= v@.len(),
    ensures
        r == texts(v@).take(end as int).contains(s@),
{
    let ghost all = texts(v@).take(end as int);
    let mut i: usize = 0;
    while i < end
        invariant
            i <= end <= v@.len(),
            all == texts(v@).take(end as int),
            forall|j: int| 0 <= j < i ==> all[j] != s@,
        decreases end - i,
    {
        assert(all[i as int] == v@[i as int]@);
        if same(v[i].as_str(), s) {
            assert(all.contains(s@));
            return true;
        }
        i = i + 1;
    }
    false
}

fn known_scenarios(v: &Vec<String>) -> (r: bool)
    ensures
        r == scenarios_ok(texts(v@)),
{
    let ghost all = texts(v@);
    if v.len() == 0 {
        return false;
    }
    let known: Vec<String> = all_scenarios();
    assert(texts(known@).take(known@.len() as int) =~= scenarios());
    let mut i: usize = 0;
    while i < v.len()
        invariant
            i <= v.len(),
            v.len() > 0,
            all == texts(v@),
            texts(known@).take(known@.len() as int) == scenarios(),
            forall|j: int| 0 <= j < i ==> scenarios().contains(#[trigger] all[j]),
            forall|j: int, k: int| 0 <= j < k < i ==> all[j] != all[k],
        decreases v.len() - i,
    {
        assert(all[i as int] == v@[i as int]@);
        if !position(&known, v[i].as_str(), known.len()) {
            return false;
        }
        if position(v, v[i].as_str(), i) {
            proof {
                let before = all.take(i as int);
                let j = choose|j: int| 0 <= j < before.len() && before[j] == all[i as int];
                assert(all[j] == all[i as int]);
            }
            return false;
        }
        proof {
            assert forall|j: int, k: int| 0 <= j < k < i + 1 implies all[j] != all[k] by {
                if k == i && all[j] == all[k] {
                    assert(all.take(i as int)[j] == all[i as int]);
                    assert(all.take(i as int).contains(all[i as int]));
                }
            }
        }
        i = i + 1;
    }
    true
}

fn count_ok(n: u64) -> (r: bool)
    ensures
        r == even_count(n),
{
    8 <= n && n <= 2000000 && n % 8 == 0
}

fn period_fits(ms: u64) -> (r: bool)
    ensures
        r == period_ok(ms),
{
    ms == 0 || (100 <= ms && ms <= 60000)
}

impl Options {
    fn defaults(server: &str, out: &str) -> (r: Self)
        ensures
            r@ == defaults(server@, out@),
    {
        let r = Options {
            engine: "sparrow".to_owned(),
            ekuiper: None,
            server: server.to_owned(),
            mosquitto: "/usr/sbin/mosquitto".to_owned(),
            out: out.to_owned(),
            rounds: 3,
            mqtt_events: 10000,
            file_events: 80000,
            checkpoint_events: 8000,
            pressure_events: 1024,
            rate: 1000,
            drain_secs: 15,
            window: WINDOW,
            sink_delay_ms: 0,
            metrics_ms: 0,
            observe_ms: 0,
            broker_nodelay: false,
            checkpoint_before_sink: false,
            scenarios: all_scenarios(),
            inbox_wait_ms: None,
            source_tuning: Vec::new(),
            sink_tuning: Vec::new(),
        };
        assert(tunings(r.source_tuning@) =~= Seq::<(Seq<char>, Tuning)>::empty());
        assert(tunings(r.sink_tuning@) =~= Seq::<(Seq<char>, Tuning)>::empty());
        r
    }

    fn quick(&mut self)
        ensures
            final(self)@ == quick(old(self)@),
    {
        self.rounds = 1;
        self.mqtt_events = 512;
        self.file_events = 8000;
        self.checkpoint_events = 800;
        self.pressure_events = 128;
        self.drain_secs = 3;
    }

    /// Sets one option.
    #[verifier::rlimit(60)]
    fn apply(&mut self, name: &str, value: &str) -> (r: Result<(), String>)
        ensures
            match r {
                Ok(()) => applied(old(self)@, name@, value@) == Ok::<Chosen, Seq<char>>(
                    final(self)@,
                ),
                Err(t) => applied(old(self)@, name@, value@) == Err::<Chosen, Seq<char>>(t@),
            },
    {
        if same(name, "--engine") {
            self.engine = value.to_owned();
        } else if same(name, "--server-bin") {
            self.server = value.to_owned();
        } else if same(name, "--mosquitto") {
            self.mosquitto = value.to_owned();
        } else if same(name, "--out") {
            self.out = value.to_owned();
        } else if same(name, "--ekuiper-dir") {
            self.ekuiper = Some(value.to_owned());
        } else if same(name, "--rounds") {
            match read_count(value) {
                Ok(n) => {
                    self.rounds = n;
                },
                Err(t) => {
                    return Err(t);
                },
            }
        } else if same(name, "--mqtt-events") {
            match read_count(value) {
                Ok(n) => {
                    self.mqtt_events = n;
                },
                Err(t) => {
                    return Err(t);
                },
            }
        } else if same(name, "--file-events") {
            match read_count(value) {
                Ok(n) => {
                    self.file_events = n;
                },
                Err(t) => {
                    return Err(t);
                },
            }
        } else if same(name, "--checkpoint-events") {
            match read_count(value) {
                Ok(n) => {
                    self.checkpoint_events = n;
                },
                Err(t) => {
                    return Err(t);
                },
            }
        } else if same(name, "--pressure-events") {
            match read_count(value) {
                Ok(n) => {
                    self.pressure_events = n;
                },
                Err(t) => {
                    return Err(t);
                },
            }
        } else if same(name, "--rate") {
            match read_count(value) {
                Ok(n) => {
                    self.rate = n;
                },
                Err(t) => {
                    return Err(t);
                },
            }
        } else if same(name, "--drain-secs") {
            match read_count(value) {
                Ok(n) => {
                    self.drain_secs = n;
                },
                Err(t) => {
                    return Err(t);
                },
            }
        } else if same(name, "--window") {
            match read_count(value) {
                Ok(n) => {
                    self.window = n;
                },
                Err(t) => {
                    return Err(t);
                },
            }
        } else if same(name, "--sink-delay-ms") {
            match read_count(value) {
                Ok(n) => {
                    self.sink_delay_ms = n;
                },
                Err(t) => {
                    return Err(t);
                },
            }
        } else if same(name, "--metrics-ms") {
            match read_count(value) {
                Ok(n) => {
                    self.metrics_ms = n;
                },
                Err(t) => {
                    return Err(t);
                },
            }
        } else if same(name, "--observe-ms") {
            match read_count(value) {
                Ok(n) => {
                    self.observe_ms = n;
                },
                Err(t) => {
                    return Err(t);
                },
            }
        } else if same(name, "--broker-nodelay") {
            match read_flag(value) {
                Ok(n) => {
                    self.broker_nodelay = n;
                },
                Err(t) => {
                    return Err(t);
                },
            }
        } else if same(name, "--checkpoint-before-sink") {
            match read_flag(value) {
                Ok(n) => {
                    self.checkpoint_before_sink = n;
                },
                Err(t) => {
                    return Err(t);
                },
            }
        } else if same(name, "--scenarios") {
            self.scenarios = split(value, ',');
        } else if same(name, "--inbox-wait-ms") {
            match read_count(value) {
                Ok(n) => {
                    self.inbox_wait_ms = Some(n);
                },
                Err(t) => {
                    return Err(t);
                },
            }
        } else if same(name, "--quickack") {
            match read_flag(value) {
                Ok(n) => {
                    tune(&mut self.source_tuning, "tcp_quickack", Tuning::Flag(n));
                },
                Err(t) => {
                    return Err(t);
                },
            }
        } else if same(name, "--inbox-capacity") {
            match read_count(value) {
                Ok(n) => {
                    tune(&mut self.source_tuning, "inbox_capacity", Tuning::Count(n));
                },
                Err(t) => {
                    return Err(t);
                },
            }
        } else if same(name, "--inbox-bytes") {
            match read_count(value) {
                Ok(n) => {
                    tune(&mut self.source_tuning, "inbox_bytes", Tuning::Count(n));
                },
                Err(t) => {
                    return Err(t);
                },
            }
        } else if same(name, "--http-batch-rows") {
            match read_count(value) {
                Ok(n) => {
                    tune(&mut self.sink_tuning, "batch_rows", Tuning::Count(n));
                },
                Err(t) => {
                    return Err(t);
                },
            }
        } else if same(name, "--http-batch-bytes") {
            match read_count(value) {
                Ok(n) => {
                    tune(&mut self.sink_tuning, "batch_bytes", Tuning::Count(n));
                },
                Err(t) => {
                    return Err(t);
                },
            }
        } else if same(name, "--http-linger-ms") {
            match read_count(value) {
                Ok(n) => {
                    tune(&mut self.sink_tuning, "linger_ms", Tuning::Count(n));
                },
                Err(t) => {
                    return Err(t);
                },
            }
        } else if same(name, "--http-max-inflight") {
            match read_count(value) {
                Ok(n) => {
                    tune(&mut self.sink_tuning, "max_inflight", Tuning::Count(n));
                },
                Err(t) => {
                    return Err(t);
                },
            }
        } else {
            return Err(cat2("unknown option ", name));
        }
        Ok(())
    }

    fn windows_whole(&self) -> (r: bool)
        requires
            self.window > 0,
        ensures
            r == whole_windows(self@),
    {
        let ghost all = texts(self.scenarios@);
        let mut i: usize = 0;
        while i < self.scenarios.len()
            invariant
                i <= self.scenarios.len(),
                self.window > 0,
                all == texts(self.scenarios@),
                all == self@.scenarios,
                forall|j: int|
                    0 <= j < i && begins(#[trigger] all[j], "file"@) ==> file_count(self@, all[j])
                        % self.window == 0,
            decreases self.scenarios.len() - i,
        {
            assert(all[i as int] == self.scenarios@[i as int]@);
            let s: &str = self.scenarios[i].as_str();
            if starts_with(s, "file") {
                let n: u64 = if starts_with(s, "file_chunked") {
                    self.checkpoint_events
                } else {
                    self.file_events
                };
                if n % self.window != 0 {
                    return false;
                }
            }
            i = i + 1;
        }
        true
    }

    fn all_chunked(&self) -> (r: bool)
        ensures
            r == only_chunked(self@.scenarios),
    {
        let ghost all = texts(self.scenarios@);
        let mut i: usize = 0;
        while i < self.scenarios.len()
            invariant
                i <= self.scenarios.len(),
                all == texts(self.scenarios@),
                all == self@.scenarios,
                forall|j: int| 0 <= j < i ==> begins(#[trigger] all[j], "file_chunked"@),
            decreases self.scenarios.len() - i,
        {
            assert(all[i as int] == self.scenarios@[i as int]@);
            if !starts_with(self.scenarios[i].as_str(), "file_chunked") {
                return false;
            }
            i = i + 1;
        }
        true
    }

    /// Checks that a run with these options can be made.
    pub fn check(&self) -> (r: Result<(), String>)
        ensures
            match r {
                Ok(()) => refusal(self@) is None,
                Err(t) => refusal(self@) == Some(t@),
            },
    {
        let engine: &str = self.engine.as_str();
        let sparrow: bool = same(engine, "sparrow");
        let ekuiper: bool = same(engine, "ekuiper");
        if !(sparrow || ekuiper || same(engine, "both")) || self.rounds == 0 || self.rounds > 20
            || self.rate == 0 || self.rate > 100000 || self.drain_secs == 0 || self.drain_secs
            > 300 {
            return Err("invalid engine, rounds, rate or drain duration".to_owned());
        }
        if !(count_ok(self.mqtt_events) && count_ok(self.file_events) && count_ok(
            self.checkpoint_events,
        ) && count_ok(self.pressure_events)) {
            return Err("event counts must be multiples of 8 in 8..=2000000".to_owned());
        }
        if !sparrow && self.ekuiper.is_none() {
            return Err("--ekuiper-dir is required".to_owned());
        }
        match self.inbox_wait_ms {
            Some(ms) => {
                if ms > 1000 {
                    return Err("--inbox-wait-ms must be in 0..=1000".to_owned());
                }
            },
            None => {},
        }
        if !period_fits(self.observe_ms) {
            return Err("--observe-ms must be 0 or 100..60000".to_owned());
        }
        if !known_scenarios(&self.scenarios) || self.window < 8 || self.window > 10000
            || self.window % 8 != 0 || self.sink_delay_ms > 1000 || !period_fits(
            self.metrics_ms,
        ) {
            return Err(
                "invalid scenarios, window (8..=10000, multiple of 8) or sink delay (0..=1000)".to_owned(),
            );
        }
        if !self.windows_whole() {
            return Err("selected file event counts must be multiples of --window".to_owned());
        }
        if ekuiper && self.all_chunked() {
            return Err("selected checkpoint scenarios require Sparrow".to_owned());
        }
        Ok(())
    }

    /// Reads the arguments. `server` and `out` stand for the server and the
    /// directory that are used where none is named.
    pub fn parse(args: &Vec<String>, server: &str, out: &str) -> (r: Result<Request, String>)
        ensures
            match asked(texts(args@), defaults(server@, out@)) {
                Err(t) => r is Err && r->Err_0@ == t,
                Ok(Asked::Help) => r is Ok && r->Ok_0 is Help,
                Ok(Asked::Run(c)) => match refusal(c) {
                    Some(t) => r is Err && r->Err_0@ == t,
                    None => r is Ok && r->Ok_0 is Run && r->Ok_0->Run_0@ == c,
                },
            },
    {
        let ghost all = texts(args@);
        let mut o: Options = Options::defaults(server, out);
        let mut i: usize = 0;
        assert(all.skip(0) =~= all);
        while i < args.len()
            invariant
                i <= args.len(),
                all == texts(args@),
                asked(all, defaults(server@, out@)) == asked(all.skip(i as int), o@),
            decreases args.len() - i,
        {
            let ghost rest = all.skip(i as int);
            assert(rest[0] == args@[i as int]@);
            let arg: &str = args[i].as_str();
            if same(arg, "--help") {
                return Ok(Request::Help);
            }
            if same(arg, "--quick") {
                o.quick();
                assert(rest.skip(1) =~= all.skip(i + 1));
                i = i + 1;
            } else {
                if args.len() - i < 2 {
                    return Err("option requires a value".to_owned());
                }
                assert(rest[1] == args@[i + 1]@);
                assert(rest.skip(2) =~= all.skip(i + 2));
                match o.apply(arg, args[i + 1].as_str()) {
                    Ok(()) => {},
                    Err(t) => {
                        return Err(t);
                    },
                }
                i = i + 2;
            }
        }
        assert(all.skip(i as int) =~= Seq::<Seq<char>>::empty());
        match o.check() {
            Ok(()) => Ok(Request::Run(o)),
            Err(t) => Err(t),
        }
    }
}

} // verus!
