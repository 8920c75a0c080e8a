//! The benchmark: options, trials, what is written and what is checked.

use sparrow::bench::body::{body_rows, rows_of, Body, Member};
use sparrow::bench::check::{integer, write_rows, Check, Figure, Kind, THIRTY};
use sparrow::bench::options::{all_scenarios, Options, Request, Tuning, WINDOW};
use sparrow::bench::plan::{trial_id, Scenario};
use sparrow::bench::proc::{memory, rss_kb, split_words, ticks, Watched};
use sparrow::bench::summary::{groups, percentile, sorted, spread, verdict, Spread};
use sparrow::bench::trial::{
    broker_config, collected, event_body, ingested, observed, observer_hello, observer_ready,
    observer_subscribe, ready_step, report, setup, stop_step, ChunkAction, ChunkRun, PollStep,
    Report, Times,
};
use sparrow::mqtt::codec::{Packet, Publish};

fn json(text: &str) -> serde_json::Value {
    serde_json::from_str(text).unwrap()
}

#[test]
fn sink_light_windows_validate_exact_sums_and_keys() {
    for window in [8usize, 80, 800] {
        let input = window * 16;
        let text = write_rows(0, input as u64, window as u64);
        let rows: Vec<serde_json::Value> = text.lines().map(json).collect();
        let mut check = Check::new(Kind::File, input, window);
        for chunk in rows.chunks(window) {
            assert!(chunk.iter().all(|r| r["device_id"] == chunk[0]["device_id"]));
            let sum: u64 = chunk.iter().map(|r| r["v"].as_u64().unwrap()).sum();
            let body = format!("{{\"device_id\":{},\"s\":{sum}}}", chunk[0]["device_id"]);
            assert!(check.accept(body.as_bytes(), 1));
        }
        assert!(check.valid());
        assert_eq!(check.unique, 16);
    }
}

#[test]
fn receive_time_not_poll_time_and_batch_rows_are_counted() {
    let mut check = Check::new(Kind::Mqtt, 8, WINDOW as usize);
    let sent = 1_000_000;
    for i in 0..8 {
        check.sending(i, sent, 100 + i as u64);
    }
    let rows: Vec<String> = (0..8)
        .filter(|i| i % 4 != 0)
        .map(|i| format!("{{\"device_id\":\"edge\",\"seq\":{i},\"temperature\":30,\"ts\":{}}}", 100 + i))
        .collect();
    let body = format!("[{}]", rows.join(","));
    assert!(check.accept(body.as_bytes(), sent + 3_000_000));
    assert!(check.valid());
    assert_eq!(check.requests, 1);
    assert_eq!(check.unique, 6);
    assert_eq!(percentile(&check.latencies, 99), Some(3000));
}

#[test]
fn exact_windows_reject_missing_duplicate_and_wrong_values() {
    let mut check = Check::new(Kind::File, 16, WINDOW as usize);
    check.accept(br#"{"device_id":"d1","s":92}"#, 0);
    assert!(!check.valid());
    check.accept(br#"[{"device_id":"d0","s":28}]"#, 0);
    assert!(check.valid());
    check.accept(br#"{"device_id":"d0","s":28}"#, 0);
    assert!(!check.valid());
    assert_eq!(check.duplicate, 1);
    check.accept(br#"{"device_id":"d0","s":29}"#, 0);
    assert_eq!(check.invalid, 1);
}

#[test]
fn what_is_complete_came_exactly_once() {
    let mut check = Check::new(Kind::Mqtt, 8, 8);
    assert_eq!(check.expected(), 6);
    for i in 0..8 {
        check.sending(i, 10, i as u64);
    }
    for i in [1, 2, 3, 5, 6, 7] {
        assert!(!check.valid());
        let body = event_body(i, i);
        check.accept(body.as_bytes(), 10);
    }
    assert!(check.valid());
    assert_eq!(
        check.seen,
        vec![false, true, true, true, false, true, true, true]
    );
    assert_eq!((check.first, check.last), (Some(10), Some(10)));
    check.accept(event_body(4, 4).as_bytes(), 10);
    assert_eq!(check.invalid, 1, "a cold event is not let through");
    check.accept(b"not json", 10);
    check.accept(b"7", 10);
    assert_eq!((check.invalid, check.requests), (3, 9));
}

#[test]
fn what_arrives_before_it_was_sent_is_invalid() {
    let mut check = Check::new(Kind::Mqtt, 8, 8);
    check.sending(1, 100, 5);
    check.accept(event_body(1, 5).as_bytes(), 99);
    assert_eq!((check.unique, check.invalid), (1, 1));
    check.accept(event_body(2, 5).as_bytes(), 99);
    assert_eq!(check.invalid, 2, "what was never sent is not expected");
}

#[test]
fn whole_numbers_are_read_from_doubles() {
    let of = |v: f64| integer(&Figure { whole: None, bits: Some(v.to_bits()) });
    assert_eq!(of(0.0), Some(0));
    assert_eq!(of(-0.0), Some(0));
    assert_eq!(of(1.0), Some(1));
    assert_eq!(of(92.0), Some(92));
    assert_eq!(of(9_007_199_254_740_991.0), Some(9_007_199_254_740_991));
    for v in [0.5, -1.0, 9_007_199_254_740_992.0, f64::NAN, f64::INFINITY, 1e-310, 3.25] {
        assert_eq!(of(v), None, "{v}");
    }
    assert_eq!(integer(&Figure { whole: Some(u64::MAX), bits: None }), Some(u64::MAX));
    assert_eq!(integer(&Figure { whole: None, bits: None }), None);
    assert_eq!(THIRTY, 30.0f64.to_bits());
}

#[test]
fn sums_may_come_as_doubles() {
    let mut check = Check::new(Kind::File, 16, 8);
    check.accept(br#"[{"device_id":"d0","s":28.0},{"device_id":"d1","s":92.5}]"#, 0);
    assert_eq!((check.unique, check.invalid, check.rows), (1, 1, 2));
}

#[test]
fn the_hash_covers_what_was_seen() {
    let empty = Check::new(Kind::File, 16, 8);
    assert_eq!(empty.hash(), "cbf29ce484222325");
    let mut a = Check::new(Kind::File, 16, 8);
    a.accept(br#"{"device_id":"d0","s":28}"#, 0);
    let mut h = 0xcbf29ce484222325u64;
    for b in b"d0:28\n" {
        h ^= *b as u64;
        h = h.wrapping_mul(0x100000001b3);
    }
    assert_eq!(a.hash(), format!("{h:016x}"));
}

#[test]
fn rows_are_written_window_by_window() {
    assert_eq!(
        write_rows(7, 9, 8),
        "{\"device_id\":\"d0\",\"v\":7}\n{\"device_id\":\"d1\",\"v\":8}\n"
    );
    assert_eq!(write_rows(3, 3, 8), "");
    assert_eq!(
        event_body(4, 9),
        r#"{"device_id":"edge","seq":4,"temperature":20.0,"ts":9}"#
    );
}

fn args(list: &[&str]) -> Vec<String> {
    list.iter().map(|s| s.to_string()).collect()
}

fn parse(list: &[&str]) -> Result<Options, String> {
    match Options::parse(&args(list), "srv", "out")? {
        Request::Run(o) => Ok(o),
        Request::Help => Err("help".to_string()),
    }
}

#[test]
fn options_have_defaults() {
    let o = parse(&[]).unwrap();
    assert_eq!((o.rounds, o.mqtt_events, o.file_events, o.rate), (3, 10_000, 80_000, 1000));
    assert_eq!((o.checkpoint_events, o.pressure_events, o.drain_secs), (8000, 1024, 15));
    assert_eq!((o.engine.as_str(), o.server.as_str(), o.out.as_str()), ("sparrow", "srv", "out"));
    assert_eq!(o.scenarios, all_scenarios());
    let q = parse(&["--quick"]).unwrap();
    assert_eq!((q.rounds, q.mqtt_events, q.file_events), (1, 512, 8000));
    assert!(matches!(Options::parse(&args(&["--help"]), "", "").unwrap(), Request::Help));
}

#[test]
fn options_are_read_and_refused() {
    let o = parse(&["--rounds", "2", "--quickack", "true", "--http-batch-rows", "4"]).unwrap();
    assert_eq!(o.rounds, 2);
    assert_eq!(o.source_tuning, vec![("tcp_quickack".to_string(), Tuning::Flag(true))]);
    assert_eq!(o.sink_tuning, vec![("batch_rows".to_string(), Tuning::Count(4))]);
    let refused = |list: &[&str]| parse(list).unwrap_err();
    assert_eq!(refused(&["--rounds"]), "option requires a value");
    assert!(refused(&["--bogus", "1"]).contains("--bogus"));
    assert_eq!(refused(&["--rounds", "x"]), "invalid digit found in string");
    assert!(refused(&["--rounds", "0"]).starts_with("invalid engine"));
    assert!(refused(&["--mqtt-events", "9"]).starts_with("event counts"));
    assert_eq!(refused(&["--engine", "both"]), "--ekuiper-dir is required");
    assert!(refused(&["--inbox-wait-ms", "1001"]).starts_with("--inbox-wait-ms"));
    assert!(refused(&["--observe-ms", "50"]).starts_with("--observe-ms"));
    assert!(refused(&["--window", "9"]).starts_with("invalid scenarios"));
    assert!(refused(&["--scenarios", "nope"]).starts_with("invalid scenarios"));
    assert!(refused(&["--window", "6400"]).starts_with("selected file event counts"));
    assert!(refused(&[
        "--engine", "ekuiper", "--ekuiper-dir", "d", "--scenarios", "file_chunked_checkpoint"
    ])
    .starts_with("selected checkpoint"));
}

#[test]
fn every_trial_is_made_once() {
    let o = parse(&["--engine", "both", "--ekuiper-dir", "d", "--rounds", "2"]).unwrap();
    let engines = args(&["sparrow", "ekuiper"]);
    let trials = o.trials(&engines);
    assert_eq!(trials.len(), 3 * 3 * 2 + 2 * 3);
    let mut ids: Vec<String> = trials
        .iter()
        .map(|t| trial_id(&engines[t.engine], &o.scenarios[t.scenario], t.round))
        .collect();
    assert_eq!(ids[0], "b_sparrow_mqtt_filter_http_0");
    assert_eq!(ids[2], "b_ekuiper_mqtt_filter_http_1", "engines take turns");
    ids.sort();
    ids.dedup();
    assert_eq!(ids.len(), trials.len());
    assert!(trials.iter().all(|t| {
        !(o.scenarios[t.scenario].starts_with("file_chunked") && engines[t.engine] == "ekuiper")
    }));
}

#[test]
fn warmups_are_whole_and_no_larger() {
    let o = parse(&[]).unwrap();
    assert_eq!(o.events("mqtt_filter_http", 0), 1000);
    assert_eq!(o.events("mqtt_filter_http", 1), 10_000);
    assert_eq!(o.events("mqtt_http_queue_pressure", 0), 128);
    assert_eq!(o.events("file_count_window", 0), 8000);
    let wide = parse(&["--window", "80", "--file-events", "80", "--checkpoint-events", "80"]).unwrap();
    assert_eq!(wide.events("file_count_window", 0), 80);
    let k = Scenario::of("file_chunked_checkpoint");
    assert!(k.chunked && k.checkpoint && !k.mqtt && !k.pressure);
    assert!(Scenario::of("mqtt_http_queue_pressure").pressure);
}

#[test]
fn engines_are_told_what_to_do() {
    let s = setup("sparrow", "file_count_window", "x", 8, 3);
    assert_eq!(s.query, "SELECT device_id, SUM(v) AS s FROM x GROUP BY device_id, COUNT_WINDOW(8)");
    assert_eq!((s.inbox, s.outbox, s.sink_delay_ms), (32, 32, 3));
    assert_eq!(s.recovery, "restart_fresh");
    let s = setup("ekuiper", "mqtt_http_queue_pressure", "y", 8, 3);
    assert_eq!(s.query, "SELECT device_id, seq, temperature, ts FROM y WHERE temperature > 25");
    assert_eq!((s.inbox, s.outbox, s.sink_delay_ms), (8, 2, 8));
    assert!(s.stream.contains("bench/y"));
    assert_eq!(setup("sparrow", "file_chunked_checkpoint", "z", 8, 0).recovery, "aligned");
    assert_eq!(
        broker_config(1883, true, 200),
        "listener 1883 127.0.0.1\nallow_anonymous true\npersistence false\nset_tcp_nodelay true\nsys_interval 1\n"
    );
}

#[test]
fn states_are_polled_for_a_while() {
    assert_eq!(ready_step("running", 0), PollStep::Reached);
    assert_eq!(ready_step("failed", 0), PollStep::Failed);
    assert_eq!(ready_step("starting", 98), PollStep::Again);
    assert_eq!(ready_step("starting", 99), PollStep::TooLate);
    assert_eq!(stop_step("stopped", 99), PollStep::Reached);
    assert_eq!(stop_step("running", 99), PollStep::TooLate);
    assert!(collected(2, 2, 0, 9));
    assert!(collected(1, 2, 9, 9));
    assert!(!collected(1, 2, 8, 9));
    assert!(ingested(10, 2, 8));
    assert!(!ingested(9, 2, 8));
    assert!(!ingested(1, 2, 0));
}

fn actions(mut run: ChunkRun, unique: u64) -> Vec<ChunkAction> {
    let mut out = Vec::new();
    loop {
        let a = run.action();
        if a == ChunkAction::Done {
            return out;
        }
        out.push(a);
        run.advance(unique);
    }
}

#[test]
fn parts_follow_each_other() {
    let plain = actions(ChunkRun::new(800, 8, false, false), 1000);
    assert_eq!(
        plain,
        vec![
            ChunkAction::Append { from: 0, end: 400 },
            ChunkAction::Collect { target: 50 },
            ChunkAction::Append { from: 400, end: 800 },
            ChunkAction::Collect { target: 100 },
        ]
    );
    let early = actions(ChunkRun::new(500, 8, true, true), 1000);
    assert_eq!(
        early,
        vec![
            ChunkAction::Append { from: 0, end: 400 },
            ChunkAction::AwaitIngested { end: 400 },
            ChunkAction::Checkpoint,
            ChunkAction::Collect { target: 50 },
            ChunkAction::Append { from: 400, end: 500 },
            ChunkAction::AwaitIngested { end: 500 },
            ChunkAction::Checkpoint,
            ChunkAction::Collect { target: 62 },
        ]
    );
    let behind = actions(ChunkRun::new(800, 8, true, false), 49);
    assert_eq!(
        behind,
        vec![ChunkAction::Append { from: 0, end: 400 }, ChunkAction::Collect { target: 50 }]
    );
    assert!(actions(ChunkRun::new(0, 8, true, false), 0).is_empty());
}

#[test]
fn the_observer_follows_the_broker() {
    let Packet::Connect(c) = observer_hello() else { panic!("connect") };
    assert_eq!((c.client_id.as_str(), c.keepalive), ("bench-sys-observer", 30));
    let greeted = Packet::ConnAck { session_present: false, return_code: 0 };
    let Packet::Subscribe { topics, .. } = observer_subscribe(&greeted).unwrap() else { panic!() };
    assert_eq!(topics, vec![("$SYS/broker/#".to_string(), 0)]);
    let refused = Packet::ConnAck { session_present: false, return_code: 5 };
    assert_eq!(observer_subscribe(&refused).unwrap_err(), "SYS observer CONNACK");
    assert!(observer_ready(&Packet::SubAck { packet_id: 1, codes: vec![0] }).is_ok());
    assert_eq!(observer_ready(&Packet::PingResp).unwrap_err(), "SYS observer SUBACK");
    let p = Publish {
        dup: false,
        qos: 0,
        retain: true,
        topic: "$SYS/broker/load".to_string(),
        packet_id: None,
        payload: b"1".to_vec(),
    };
    assert_eq!(observed(Packet::Publish(p)).unwrap().unwrap().topic, "$SYS/broker/load");
    assert!(observed(Packet::PingResp).unwrap().is_none());
    assert_eq!(observed(Packet::Disconnect).unwrap_err(), "SYS observer disconnected");
}

fn complete(scenario: &str, round: u64, overflows: u64) -> Report {
    let mut check = Check::new(Kind::File, 16, 8);
    check.accept(br#"[{"device_id":"d0","s":28}]"#, 50);
    check.accept(br#"[{"device_id":"d1","s":92}]"#, 80);
    let times = Times { start: 10, publication_end: None, observed_end: 500 };
    report("sparrow", scenario, round, 1000, 2, &check, times, overflows)
}

#[test]
fn a_report_says_what_a_trial_showed() {
    let r = complete("file_count_window", 1, 0);
    assert!(r.valid && !r.warmup && !r.stress_case);
    assert_eq!((r.elapsed_ns, r.steady_ns, r.observation_elapsed_ns), (70, Some(30), 490));
    assert_eq!((r.rated_ns, r.rated_steady_ns), (Some(70), Some(30)));
    assert_eq!((r.expected_output_rows, r.unique_rows, r.missing_rows), (2, 2, 0));
    assert_eq!((r.offered_rate, r.mqtt_publisher_connections, r.sink_delay_ms), (None, 0, 2));
    assert_eq!(r.timing, "submit_configuration_to_last_sink_arrival");
    let lost = complete("file_count_window", 0, 1);
    assert!(!lost.valid && lost.warmup);
    assert_eq!(lost.elapsed_ns, 490, "an invalid trial lasts until it was given up");
    assert_eq!((lost.rated_ns, lost.rated_steady_ns, lost.steady_ns), (None, None, Some(30)));
    let empty = Check::new(Kind::Mqtt, 8, 8);
    let times = Times { start: 10, publication_end: Some(40), observed_end: 5 };
    let r = report("sparrow", "mqtt_filter_http", 1, 1000, 0, &empty, times, 0);
    assert_eq!((r.missing_rows, r.publish_elapsed_ns, r.elapsed_ns), (6, Some(30), 1));
    assert_eq!(r.offered_rate, Some(1000));
}

#[test]
fn a_run_is_summed_up() {
    let reports = vec![
        complete("file_count_window", 0, 0),
        complete("file_count_window", 1, 0),
        complete("a", 1, 0),
        complete("file_count_window", 2, 0),
    ];
    let g = groups(&reports);
    assert_eq!(g.len(), 2);
    assert_eq!(g.row(0).0, "sparrow/a");
    assert_eq!(g.row(1), (&"sparrow/file_count_window".to_string(), &vec![1, 3]));
    verdict(&reports).unwrap();
    let bad = vec![complete("file_count_window", 1, 1)];
    assert!(verdict(&bad).unwrap_err().starts_with("incomplete/invalid delivery"));
    let stress = vec![complete("mqtt_http_queue_pressure", 1, 1)];
    assert!(verdict(&stress).is_ok());
}

#[test]
fn figures_are_put_in_order() {
    assert_eq!(sorted(vec![3, 1, 2, 1]), vec![1, 1, 2, 3]);
    assert_eq!(spread(vec![]), None);
    assert_eq!(spread(vec![9, 1, 5, 7]), Some(Spread { min: 1, median: 7, max: 9 }));
    let v: Vec<u64> = (0..101).collect();
    assert_eq!(percentile(&v, 50), Some(50));
    assert_eq!(percentile(&v, 99), Some(99));
    assert_eq!(percentile(&vec![], 50), None);
    for n in 1..400usize {
        let v: Vec<u64> = (0..n as u64).collect();
        for (p, hundredths) in [(0.5f64, 50), (0.99, 99)] {
            let at = ((n - 1) as f64 * p).round() as u64;
            assert_eq!(percentile(&v, hundredths), Some(at));
        }
    }
}

#[test]
fn the_kernel_is_read() {
    let status = "Name:\tx\nVmHWM:\t  900 kB\nVmRSS:\t  800 kB\n";
    assert_eq!(memory(status), Some((800, 900)));
    assert_eq!(memory("VmRSS: 1 kB\n"), None);
    assert_eq!(memory("VmRSS: x\nVmRSS: 5\nVmHWM: 6"), Some((5, 6)));
    assert_eq!(rss_kb(status), Some(800));
    assert_eq!(rss_kb("VmRSS: x\nVmRSS: 5"), None);
    assert_eq!(split_words("  a\tb  c "), vec!["a", "b", "c"]);
    let stat = "42 (na) me) S 1 2 3 4 5 6 7 8 9 10 110 120 13";
    assert_eq!(ticks(stat), Some((110, 120)));
    assert_eq!(ticks("no name"), None);
    assert_eq!(ticks("1 (x) S 1"), None);
    let mut w = Watched::new(Some((10, 20)));
    w.sample(15, 21);
    w.sample(12, 22);
    assert_eq!(
        w,
        Watched { baseline: Some(10), peak: Some(15), lifetime_peak: Some(22), samples: 2 }
    );
}

#[test]
fn bodies_are_arrays_or_one_object() {
    let number = |n: u64| Figure { whole: Some(n), bits: Some((n as f64).to_bits()) };
    let nothing = Figure { whole: None, bits: None };
    let rows = body_rows(br#"[{"s":5,"device_id":"d1","more":true},7]"#).unwrap();
    assert_eq!(rows.len(), 2);
    assert_eq!(rows[0].device_id.as_deref(), Some("d1"));
    assert_eq!(rows[0].s, number(5));
    assert_eq!(rows[0].seq, nothing);
    assert_eq!(rows[1].device_id, None);
    let one = body_rows(br#"{"temperature":30.5,"seq":-1,"ts":"x"}"#).unwrap();
    assert_eq!(one.len(), 1);
    assert_eq!(one[0].temperature, Figure { whole: None, bits: Some(30.5f64.to_bits()) });
    assert_eq!(one[0].seq.whole, None);
    assert_eq!(one[0].ts, nothing);
    for other in ["7", "\"x\"", "null", "{", ""] {
        assert!(body_rows(other.as_bytes()).is_none());
    }
    let member = |n: u64| Member { name: "seq".to_string(), text: None, figure: number(n) };
    let object = Some(vec![member(3), member(4)]);
    let rows = rows_of(&Some(Body { rows: None, members: object })).unwrap();
    assert_eq!(rows[0].seq, number(3));
    let array = Some(vec![None, Some(vec![member(5)])]);
    let rows = rows_of(&Some(Body { rows: array, members: None })).unwrap();
    assert_eq!((rows[0].seq, rows[1].seq), (nothing, number(5)));
    assert!(rows_of(&Some(Body { rows: Some(Vec::new()), members: None })).unwrap().is_empty());
    assert!(rows_of(&Some(Body { rows: None, members: None })).is_none());
    assert!(rows_of(&None).is_none());
}
