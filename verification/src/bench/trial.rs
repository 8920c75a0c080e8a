//! One trial: what the engines are told, in what steps a growing file is
//! written, and what is said of the trial in the end.

use crate::bench::check::{expected_count, hex16, seen_hash, Check, Kind, Tally};
use crate::bench::plan::{scenario_of, Scenario};
use crate::mqtt::client::{connect_packet, subscribe_packet};
use crate::mqtt::codec::{Message, Packet, Publish};
use crate::text::{cat2, cat3, cat5, dec, decimal, same};
use vstd::prelude::*;
use vstd::string::*;

verus! {

/// Rows by which a file grows at a time.
pub const CHUNK: u64 = 400;

/// How often the state of a pipeline is asked for.
pub const POLLS: u64 = 100;

/// What the engines are told of a trial.
#[derive(Debug)]
pub struct Setup {
    pub query: String,
    /// The statement that makes the stream, where an engine wants one.
    pub stream: String,
    pub inbox: u64,
    pub outbox: u64,
    pub recovery: String,
    /// How long the sink takes for a request.
    pub sink_delay_ms: u64,
}

/// The query of a trial.
pub open spec fn query_text(sparrow: bool, mqtt: bool, id: Seq<char>, window: u64) -> Seq<char> {
    if mqtt {
        "SELECT device_id, seq, temperature, ts FROM "@ + id + " WHERE temperature > 25"@
    } else {
        "SELECT device_id, SUM(v) AS s FROM "@ + id + (if sparrow {
            " GROUP BY device_id, COUNT_WINDOW("@
        } else {
            " GROUP BY device_id, COUNTWINDOW("@
        }) + decimal(window as nat) + ")"@
    }
}

/// The statement that makes the stream of a trial.
pub open spec fn stream_text(mqtt: bool, id: Seq<char>) -> Seq<char> {
    if mqtt {
        "CREATE STREAM "@ + id
            + " (device_id STRING, seq BIGINT, temperature FLOAT, ts BIGINT) WITH (DATASOURCE=\"bench/"@
            + id + "\", FORMAT=\"JSON\", TYPE=\"mqtt\")"@
    } else {
        "CREATE STREAM "@ + id + " (device_id STRING, v BIGINT) WITH (DATASOURCE=\""@ + id
            + ".jsonl\", FORMAT=\"JSON\", TYPE=\"file\")"@
    }
}

/// How long the sink takes for a request.
pub open spec fn delay_of(k: Scenario, sink_delay_ms: u64) -> u64 {
    if k.pressure {
        8
    } else {
        sink_delay_ms
    }
}

/// Tells what the engines are told of a trial.
pub fn setup(engine: &str, scenario: &str, id: &str, window: u64, sink_delay_ms: u64) -> (r: Setup)
    ensures
        ({
            let k = scenario_of(scenario@);
            &&& r.query@ == query_text(engine@ == "sparrow"@, k.mqtt, id@, window)
            &&& r.stream@ == stream_text(k.mqtt, id@)
            &&& r.inbox == if k.pressure {
                8u64
            } else {
                32
            }
            &&& r.outbox == if k.pressure {
                2u64
            } else {
                32
            }
            &&& r.recovery@ == if k.chunked {
                "aligned"@
            } else {
                "restart_fresh"@
            }
            &&& r.sink_delay_ms == delay_of(k, sink_delay_ms)
        }),
{
    let k: Scenario = Scenario::of(scenario);
    let query: String = if k.mqtt {
        cat3("SELECT device_id, seq, temperature, ts FROM ", id, " WHERE temperature > 25")
    } else if same(engine, "sparrow") {
        cat5(
            "SELECT device_id, SUM(v) AS s FROM ",
            id,
            " GROUP BY device_id, COUNT_WINDOW(",
            dec(window).as_str(),
            ")",
        )
    } else {
        cat5(
            "SELECT device_id, SUM(v) AS s FROM ",
            id,
            " GROUP BY device_id, COUNTWINDOW(",
            dec(window).as_str(),
            ")",
        )
    };
    let stream: String = if k.mqtt {
        cat5(
            "CREATE STREAM ",
            id,
            " (device_id STRING, seq BIGINT, temperature FLOAT, ts BIGINT) WITH (DATASOURCE=\"bench/",
            id,
            "\", FORMAT=\"JSON\", TYPE=\"mqtt\")",
        )
    } else {
        cat5(
            "CREATE STREAM ",
            id,
            " (device_id STRING, v BIGINT) WITH (DATASOURCE=\"",
            id,
            ".jsonl\", FORMAT=\"JSON\", TYPE=\"file\")",
        )
    };
    Setup {
        query,
        stream,
        inbox: if k.pressure {
            8
        } else {
            32
        },
        outbox: if k.pressure {
            2
        } else {
            32
        },
        recovery: if k.chunked {
            "aligned".to_owned()
        } else {
            "restart_fresh".to_owned()
        },
        sink_delay_ms: if k.pressure {
            8
        } else {
            sink_delay_ms
        },
    }
}

/// An event as it is published: three of four are warm enough to be let through.
pub open spec fn event_text(i: u64, ts: u64) -> Seq<char> {
    "{\"device_id\":\"edge\",\"seq\":"@ + decimal(i as nat) + (if i % 4 == 0 {
        ",\"temperature\":20.0,\"ts\":"@
    } else {
        ",\"temperature\":30.0,\"ts\":"@
    }) + decimal(ts as nat) + "}"@
}

/// Writes an event.
pub fn event_body(i: u64, ts: u64) -> (r: String)
    ensures
        r@ == event_text(i, ts),
{
    let middle: &str = if i % 4 == 0 {
        ",\"temperature\":20.0,\"ts\":"
    } else {
        ",\"temperature\":30.0,\"ts\":"
    };
    cat5(
        "{\"device_id\":\"edge\",\"seq\":",
        dec(i).as_str(),
        middle,
        dec(ts).as_str(),
        "}",
    )
}

/// The settings of the broker.
pub open spec fn broker_text(port: u16, nodelay: bool, observed: bool) -> Seq<char> {
    "listener "@ + decimal(port as nat) + (if nodelay {
        " 127.0.0.1\nallow_anonymous true\npersistence false\nset_tcp_nodelay true\n"@
    } else {
        " 127.0.0.1\nallow_anonymous true\npersistence false\nset_tcp_nodelay false\n"@
    }) + (if observed {
        "sys_interval 1\n"@
    } else {
        ""@
    })
}

/// Writes the settings of the broker.
pub fn broker_config(port: u16, nodelay: bool, observe_ms: u64) -> (r: String)
    ensures
        r@ == broker_text(port, nodelay, observe_ms > 0),
{
    let middle: &str = if nodelay {
        " 127.0.0.1\nallow_anonymous true\npersistence false\nset_tcp_nodelay true\n"
    } else {
        " 127.0.0.1\nallow_anonymous true\npersistence false\nset_tcp_nodelay false\n"
    };
    let end: &str = if observe_ms > 0 {
        "sys_interval 1\n"
    } else {
        ""
    };
    cat2(cat3("listener ", dec(port as u64).as_str(), middle).as_str(), end)
}

/// What to do about a pipeline whose state was asked for.
#[derive(Clone, Copy, Debug, PartialEq, Eq, Structural)]
pub enum PollStep {
    /// It is where it should be.
    Reached,
    /// It failed.
    Failed,
    /// Ask again a little later.
    Again,
    /// It takes too long.
    TooLate,
}

/// What to do about a pipeline that should be running; `polls` answers came
/// before.
pub fn ready_step(status: &str, polls: u64) -> (r: PollStep)
    ensures
        r == if status@ == "running"@ {
            PollStep::Reached
        } else if status@ == "failed"@ {
            PollStep::Failed
        } else if polls + 1 < POLLS {
            PollStep::Again
        } else {
            PollStep::TooLate
        },
{
    if same(status, "running") {
        PollStep::Reached
    } else if same(status, "failed") {
        PollStep::Failed
    } else if polls < POLLS - 1 {
        PollStep::Again
    } else {
        PollStep::TooLate
    }
}

/// What to do about a pipeline that should be stopped.
pub fn stop_step(status: &str, polls: u64) -> (r: PollStep)
    ensures
        r == if status@ == "stopped"@ {
            PollStep::Reached
        } else if polls + 1 < POLLS {
            PollStep::Again
        } else {
            PollStep::TooLate
        },
{
    if same(status, "stopped") {
        PollStep::Reached
    } else if polls < POLLS - 1 {
        PollStep::Again
    } else {
        PollStep::TooLate
    }
}

/// Whether to stop waiting for outputs.
pub fn collected(unique: usize, target: usize, now: u64, deadline: u64) -> (r: bool)
    ensures
        r == (unique >= target || now >= deadline),
{
    unique >= target || now >= deadline
}

/// Whether an engine has read the rows of the file up to `end`; it had read
/// `baseline` rows before the trial.
pub fn ingested(rows: u64, baseline: u64, end: u64) -> (r: bool)
    ensures
        r == (rows >= baseline + end),
{
    rows >= baseline && rows - baseline >= end
}

/// Where a trial over a growing file stands.
#[derive(Clone, Copy, Debug, PartialEq, Eq, Structural)]
pub enum ChunkStage {
    Append,
    Ingest,
    Collect,
    Checkpoint,
    CollectAfter,
    Done,
}

/// What a trial over a growing file does next.
#[derive(Clone, Copy, Debug, PartialEq, Eq, Structural)]
pub enum ChunkAction {
    /// Append the rows from `from` up to `end`.
    Append { from: u64, end: u64 },
    /// Wait until the rows up to `end` were read.
    AwaitIngested { end: u64 },
    /// Wait for that many outputs.
    Collect { target: u64 },
    Checkpoint,
    Done,
}

/// A trial over a growing file: part by part, each one is waited for and, where
/// that is measured, followed by a checkpoint.
#[derive(Clone, Copy, Debug, PartialEq, Eq, Structural)]
pub struct ChunkRun {
    pub rows: u64,
    pub window: u64,
    pub checkpoint: bool,
    /// The checkpoint comes before the outputs are waited for.
    pub before_sink: bool,
    pub from: u64,
    pub stage: ChunkStage,
}

impl ChunkRun {
    /// Where the part ends that is being written.
    pub open spec fn end(self) -> int {
        if self.from + CHUNK < self.rows {
            self.from + CHUNK
        } else {
            self.rows as int
        }
    }

    /// The run is at a part of the file, or done.
    pub open spec fn wf(self) -> bool {
        &&& self.window > 0
        &&& self.stage != ChunkStage::Done ==> self.from < self.rows
        &&& (self.stage == ChunkStage::Ingest || self.stage == ChunkStage::CollectAfter)
            ==> self.checkpoint && self.before_sink
        &&& self.stage == ChunkStage::Collect ==> !(self.checkpoint && self.before_sink)
        &&& self.stage == ChunkStage::Checkpoint ==> self.checkpoint
    }

    /// The run at that stage.
    pub open spec fn at(self, stage: ChunkStage) -> ChunkRun {
        ChunkRun { stage, ..self }
    }

    /// The run with the part that was written behind it.
    pub open spec fn past(self) -> ChunkRun {
        ChunkRun {
            from: self.end() as u64,
            stage: if self.end() < self.rows {
                ChunkStage::Append
            } else {
                ChunkStage::Done
            },
            ..self
        }
    }

    /// The outputs of the rows up to the end of the part.
    pub open spec fn target(self) -> int {
        self.end() / (self.window as int)
    }

    /// The run after its action, with that many outputs seen.
    pub open spec fn advanced(self, unique: int) -> ChunkRun {
        match self.stage {
            ChunkStage::Append => if self.checkpoint && self.before_sink {
                self.at(ChunkStage::Ingest)
            } else {
                self.at(ChunkStage::Collect)
            },
            ChunkStage::Ingest => self.at(ChunkStage::Checkpoint),
            ChunkStage::Collect => if unique < self.target() {
                self.at(ChunkStage::Done)
            } else if self.checkpoint {
                self.at(ChunkStage::Checkpoint)
            } else {
                self.past()
            },
            ChunkStage::Checkpoint => if self.before_sink {
                self.at(ChunkStage::CollectAfter)
            } else {
                self.past()
            },
            ChunkStage::CollectAfter => if unique < self.target() {
                self.at(ChunkStage::Done)
            } else {
                self.past()
            },
            ChunkStage::Done => self,
        }
    }

    /// A run that has written nothing yet.
    pub fn new(rows: u64, window: u64, checkpoint: bool, before_sink: bool) -> (r: Self)
        requires
            window > 0,
        ensures
            r.wf(),
            r == (ChunkRun {
                rows,
                window,
                checkpoint,
                before_sink,
                from: 0,
                stage: if rows > 0 {
                    ChunkStage::Append
                } else {
                    ChunkStage::Done
                },
            }),
    {
        ChunkRun {
            rows,
            window,
            checkpoint,
            before_sink,
            from: 0,
            stage: if rows > 0 {
                ChunkStage::Append
            } else {
                ChunkStage::Done
            },
        }
    }

    fn part_end(&self) -> (r: u64)
        requires
            self.from <= self.rows,
        ensures
            r == self.end(),
    {
        if self.rows - self.from > CHUNK {
            self.from + CHUNK
        } else {
            self.rows
        }
    }

    /// What to do next.
    pub fn action(&self) -> (r: ChunkAction)
        requires
            self.wf(),
        ensures
            r == match self.stage {
                ChunkStage::Append => ChunkAction::Append {
                    from: self.from,
                    end: self.end() as u64,
                },
                ChunkStage::Ingest => ChunkAction::AwaitIngested { end: self.end() as u64 },
                ChunkStage::Collect | ChunkStage::CollectAfter => ChunkAction::Collect {
                    target: self.target() as u64,
                },
                ChunkStage::Checkpoint => ChunkAction::Checkpoint,
                ChunkStage::Done => ChunkAction::Done,
            },
    {
        match self.stage {
            ChunkStage::Append => ChunkAction::Append { from: self.from, end: self.part_end() },
            ChunkStage::Ingest => ChunkAction::AwaitIngested { end: self.part_end() },
            ChunkStage::Collect => ChunkAction::Collect { target: self.part_end() / self.window },
            ChunkStage::CollectAfter => ChunkAction::Collect {
                target: self.part_end() / self.window,
            },
            ChunkStage::Checkpoint => ChunkAction::Checkpoint,
            ChunkStage::Done => ChunkAction::Done,
        }
    }

    /// Takes note that the action was done, with that many outputs seen by now.
    pub fn advance(&mut self, unique: u64)
        requires
            old(self).wf(),
        ensures
            final(self).wf(),
            *final(self) == old(self).advanced(unique as int),
    {
        if self.stage == ChunkStage::Done {
            return;
        }
        let end: u64 = self.part_end();
        let behind: bool = unique < end / self.window;
        let stage: ChunkStage = match self.stage {
            ChunkStage::Append => if self.checkpoint && self.before_sink {
                ChunkStage::Ingest
            } else {
                ChunkStage::Collect
            },
            ChunkStage::Ingest => ChunkStage::Checkpoint,
            ChunkStage::Collect => if behind {
                ChunkStage::Done
            } else if self.checkpoint {
                ChunkStage::Checkpoint
            } else {
                ChunkStage::Append
            },
            ChunkStage::Checkpoint => if self.before_sink {
                ChunkStage::CollectAfter
            } else {
                ChunkStage::Append
            },
            ChunkStage::CollectAfter => if behind {
                ChunkStage::Done
            } else {
                ChunkStage::Append
            },
            ChunkStage::Done => ChunkStage::Done,
        };
        if stage == ChunkStage::Append {
            self.from = end;
            self.stage = if end < self.rows {
                ChunkStage::Append
            } else {
                ChunkStage::Done
            };
        } else {
            self.stage = stage;
        }
    }
}

/// The part that was written and waited for lies behind the run, the next part
/// begins where it ended, and no run goes on past a part that is not complete.
pub proof fn law_parts_follow_each_other(run: ChunkRun, unique: int)
    requires
        run.wf(),
    ensures
        run.advanced(unique).wf(),
        run.advanced(unique).from == run.from || run.advanced(unique).from == run.end(),
        run.advanced(unique).from != run.from ==> (run.stage == ChunkStage::Checkpoint || unique
            >= run.target()),
        run.advanced(unique).stage == ChunkStage::Append ==> run.stage != ChunkStage::Append
            && run.advanced(unique).from == run.end(),
{
}

/// The packet with which the observer of the broker opens its session.
pub fn observer_hello() -> (r: Packet)
    ensures
        r is Connect,
        r->Connect_0.client_id@ == "bench-sys-observer"@,
        r->Connect_0.clean_session,
        r->Connect_0.keepalive == 30,
        r->Connect_0.username is None,
        r->Connect_0.password is None,
{
    connect_packet("bench-sys-observer", true, 30000, None, None)
}

/// What the observer of the broker sends once it is greeted.
pub fn observer_subscribe(packet: &Packet) -> (r: Result<Packet, String>)
    ensures
        match r {
            Ok(p) => packet@ matches Message::ConnAck { return_code, .. } && return_code == 0
                && p@ == (Message::Subscribe {
                packet_id: 1,
                topics: seq![("$SYS/broker/#"@, 0u8)],
            }),
            Err(t) => !(packet@ matches Message::ConnAck { return_code, .. } && return_code == 0)
                && t@ == "SYS observer CONNACK"@,
        },
{
    match packet {
        Packet::ConnAck { return_code, .. } => {
            if *return_code == 0 {
                let p: Packet = subscribe_packet("$SYS/broker/#");
                assert(p@->Subscribe_topics =~= seq![("$SYS/broker/#"@, 0u8)]);
                return Ok(p);
            }
        },
        _ => {},
    }
    Err("SYS observer CONNACK".to_owned())
}

/// Checks that the subscription of the observer is acknowledged.
pub fn observer_ready(packet: &Packet) -> (r: Result<(), String>)
    ensures
        match r {
            Ok(()) => packet@ is SubAck,
            Err(t) => !(packet@ is SubAck) && t@ == "SYS observer SUBACK"@,
        },
{
    match packet {
        Packet::SubAck { .. } => Ok(()),
        _ => Err("SYS observer SUBACK".to_owned()),
    }
}

/// What the observer writes down of a packet.
pub fn observed(packet: Packet) -> (r: Result<Option<Publish>, String>)
    ensures
        match r {
            Ok(Some(p)) => packet == Packet::Publish(p),
            Ok(None) => !(packet is Publish) && !(packet is Disconnect),
            Err(t) => packet is Disconnect && t@ == "SYS observer disconnected"@,
        },
{
    match packet {
        Packet::Publish(p) => Ok(Some(p)),
        Packet::Disconnect => Err("SYS observer disconnected".to_owned()),
        _ => Ok(None),
    }
}

/// The moments of a trial, in nanoseconds.
#[derive(Clone, Copy, Debug, PartialEq, Eq, Structural)]
pub struct Times {
    pub start: u64,
    /// When everything was published or written.
    pub publication_end: Option<u64>,
    pub observed_end: u64,
}

/// What a trial showed.
#[derive(Debug)]
pub struct Report {
    pub engine: String,
    pub scenario: String,
    pub round: u64,
    pub warmup: bool,
    pub input_events: usize,
    pub window_rows: usize,
    pub expected_output_rows: usize,
    pub output_rows: usize,
    pub unique_rows: usize,
    pub missing_rows: usize,
    pub duplicate_rows: usize,
    pub invalid_rows: usize,
    pub http_requests: usize,
    pub mqtt_publisher_connections: u64,
    pub offered_rate: Option<u64>,
    pub sink_delay_ms: u64,
    pub publish_elapsed_ns: Option<u64>,
    pub elapsed_ns: u64,
    pub observation_elapsed_ns: u64,
    pub steady_ns: Option<u64>,
    /// The time that the rate of the input counts over. There is none of a trial
    /// that is not valid.
    pub rated_ns: Option<u64>,
    /// The time that the steady rate of the output counts over.
    pub rated_steady_ns: Option<u64>,
    pub timing: String,
    pub valid: bool,
    pub stress_case: bool,
    pub normalized_output_fnv1a64: String,
}

/// The time from `a` to `b`, none where `b` comes first.
pub open spec fn span(a: u64, b: u64) -> u64 {
    if b > a {
        (b - a) as u64
    } else {
        0
    }
}

/// When a valid trial ended: with its last output, or with the last publication
/// where that came later.
pub open spec fn finish(last: Option<u64>, publication_end: Option<u64>) -> u64 {
    match (last, publication_end) {
        (Some(a), Some(b)) => if b > a {
            b
        } else {
            a
        },
        (Some(a), None) => a,
        (None, Some(b)) => b,
        (None, None) => 0,
    }
}

/// Whether the outputs of a trial are complete and were all seen.
pub open spec fn sound_trial(t: Tally, overflows: u64) -> bool {
    t.complete() && overflows == 0
}

/// The duration of a trial. One that is not valid lasts until it was given up.
pub open spec fn duration(t: Tally, times: Times, overflows: u64) -> u64 {
    let ns = span(
        times.start,
        if sound_trial(t, overflows) {
            finish(t.last, times.publication_end)
        } else {
            times.observed_end
        },
    );
    if ns > 0 {
        ns
    } else {
        1
    }
}

/// The time from the first output to the last.
pub open spec fn steady(t: Tally) -> Option<u64> {
    match (t.first, t.last) {
        (Some(a), Some(b)) => if b > a {
            Some(span(a, b))
        } else {
            None
        },
        _ => None,
    }
}

/// What is timed.
pub open spec fn timing_text(k: Scenario) -> Seq<char> {
    if k.mqtt {
        "first_publish_to_max_last_publish_or_sink_arrival"@
    } else if k.chunked {
        "first_append_to_last_sink_and_checkpoint_ack"@
    } else {
        "submit_configuration_to_last_sink_arrival"@
    }
}

fn span_ns(a: u64, b: u64) -> (r: u64)
    ensures
        r == span(a, b),
{
    if b > a {
        b - a
    } else {
        0
    }
}

/// Says what a trial showed.
pub fn report(
    engine: &str,
    scenario: &str,
    round: u64,
    rate: u64,
    sink_delay_ms: u64,
    check: &Check,
    times: Times,
    overflows: u64,
) -> (r: Report)
    requires
        check@.sound(),
        check.kind == Kind::Mqtt ==> check.input <= usize::MAX - 3,
        check.kind == Kind::File ==> check.window * check.window * check.seen@.len() <= u64::MAX,
        sound_trial(check@, overflows) ==> check.last is Some || times.publication_end is Some,
    ensures
        ({
            let k = scenario_of(scenario@);
            let t = check@;
            &&& r.engine@ == engine@
            &&& r.scenario@ == scenario@
            &&& r.round == round
            &&& r.warmup == (round == 0)
            &&& r.input_events == t.input
            &&& r.window_rows == t.window
            &&& r.expected_output_rows == expected_count(t)
            &&& r.output_rows == t.rows
            &&& r.unique_rows == t.unique
            &&& r.missing_rows == if expected_count(t) > t.unique {
                expected_count(t) - t.unique
            } else {
                0
            }
            &&& r.duplicate_rows == t.duplicate
            &&& r.invalid_rows == t.invalid
            &&& r.http_requests == t.requests
            &&& r.mqtt_publisher_connections == if k.mqtt {
                1u64
            } else {
                0
            }
            &&& r.offered_rate == if k.mqtt && !k.pressure {
                Some(rate)
            } else {
                None
            }
            &&& r.sink_delay_ms == delay_of(k, sink_delay_ms)
            &&& r.publish_elapsed_ns == match times.publication_end {
                Some(p) => Some(span(times.start, p)),
                None => None,
            }
            &&& r.elapsed_ns == duration(t, times, overflows)
            &&& r.observation_elapsed_ns == span(times.start, times.observed_end)
            &&& r.steady_ns == steady(t)
            &&& r.rated_ns == if r.valid {
                Some(r.elapsed_ns)
            } else {
                None
            }
            &&& r.rated_steady_ns == if r.valid {
                steady(t)
            } else {
                None
            }
            &&& r.timing@ == timing_text(k)
            &&& r.valid == sound_trial(t, overflows)
            &&& r.stress_case == k.pressure
            &&& r.normalized_output_fnv1a64@ == hex16(seen_hash(t, t.seen.len() as int))
        }),
{
    let k: Scenario = Scenario::of(scenario);
    let expected: usize = check.expected();
    let valid: bool = check.valid() && overflows == 0;
    let end: u64 = if valid {
        match (check.last, times.publication_end) {
            (Some(a), Some(b)) => if b > a {
                b
            } else {
                a
            },
            (Some(a), None) => a,
            (None, Some(b)) => b,
            (None, None) => 0,
        }
    } else {
        times.observed_end
    };
    let ns: u64 = span_ns(times.start, end);
    let elapsed_ns: u64 = if ns > 0 {
        ns
    } else {
        1
    };
    let steady_ns: Option<u64> = match (check.first, check.last) {
        (Some(a), Some(b)) => if b > a {
            Some(b - a)
        } else {
            None
        },
        _ => None,
    };
    let timing: &str = if k.mqtt {
        "first_publish_to_max_last_publish_or_sink_arrival"
    } else if k.chunked {
        "first_append_to_last_sink_and_checkpoint_ack"
    } else {
        "submit_configuration_to_last_sink_arrival"
    };
    Report {
        engine: engine.to_owned(),
        scenario: scenario.to_owned(),
        round,
        warmup: round == 0,
        input_events: check.input,
        window_rows: check.window,
        expected_output_rows: expected,
        output_rows: check.rows,
        unique_rows: check.unique,
        missing_rows: if expected > check.unique {
            expected - check.unique
        } else {
            0
        },
        duplicate_rows: check.duplicate,
        invalid_rows: check.invalid,
        http_requests: check.requests,
        mqtt_publisher_connections: if k.mqtt {
            1
        } else {
            0
        },
        offered_rate: if k.mqtt && !k.pressure {
            Some(rate)
        } else {
            None
        },
        sink_delay_ms: if k.pressure {
            8
        } else {
            sink_delay_ms
        },
        publish_elapsed_ns: match times.publication_end {
            Some(p) => Some(span_ns(times.start, p)),
            None => None,
        },
        elapsed_ns,
        observation_elapsed_ns: span_ns(times.start, times.observed_end),
        steady_ns,
        rated_ns: if valid {
            Some(elapsed_ns)
        } else {
            None
        },
        rated_steady_ns: if valid {
            steady_ns
        } else {
            None
        },
        timing: timing.to_owned(),
        valid,
        stress_case: k.pressure,
        normalized_output_fnv1a64: check.hash(),
    }
}

} // verus!
