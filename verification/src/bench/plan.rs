//! Which trials a run makes, in what order and with how many events.

use crate::bench::options::{Chosen, Options};
use crate::text::{begins, cat2, cat5, dec, decimal, same, starts_with, texts};
use vstd::prelude::*;
use vstd::string::*;

verus! {

/// What kind of trial a scenario asks for.
#[derive(Clone, Copy, Debug, PartialEq, Eq, Structural)]
pub struct Scenario {
    /// Events come from a broker, not from a file.
    pub mqtt: bool,
    /// Events come faster than the sink takes them.
    pub pressure: bool,
    /// The file grows while it is read.
    pub chunked: bool,
    /// A checkpoint is taken after every part of the file.
    pub checkpoint: bool,
}

/// What kind of trial a scenario asks for.
pub open spec fn scenario_of(name: Seq<char>) -> Scenario {
    Scenario {
        mqtt: begins(name, "mqtt"@),
        pressure: name == "mqtt_http_queue_pressure"@,
        chunked: begins(name, "file_chunked"@),
        checkpoint: name == "file_chunked_checkpoint"@,
    }
}

impl Scenario {
    /// Tells what a scenario asks for by its name.
    pub fn of(name: &str) -> (r: Self)
        ensures
            r == scenario_of(name@),
    {
        Scenario {
            mqtt: starts_with(name, "mqtt"),
            pressure: same(name, "mqtt_http_queue_pressure"),
            chunked: starts_with(name, "file_chunked"),
            checkpoint: same(name, "file_chunked_checkpoint"),
        }
    }
}

/// The name of a trial.
pub open spec fn trial_name(engine: Seq<char>, scenario: Seq<char>, round: u64) -> Seq<char> {
    "b_"@ + engine + "_"@ + scenario + "_"@ + decimal(round as nat)
}

/// Names a trial.
pub fn trial_id(engine: &str, scenario: &str, round: u64) -> (r: String)
    ensures
        r@ == trial_name(engine@, scenario@, round),
{
    cat2(cat5("b_", engine, "_", scenario, "_").as_str(), dec(round).as_str())
}

/// The events of a scenario.
pub open spec fn base_events(c: Chosen, scenario: Seq<char>) -> u64 {
    if scenario == "mqtt_filter_http"@ {
        c.mqtt_events
    } else if scenario == "file_count_window"@ {
        c.file_events
    } else if scenario == "mqtt_http_queue_pressure"@ {
        c.pressure_events
    } else {
        c.checkpoint_events
    }
}

/// Events come in whole groups of this size.
pub open spec fn unit_of(c: Chosen, scenario: Seq<char>) -> u64 {
    if begins(scenario, "file"@) {
        c.window
    } else {
        8
    }
}

/// A tenth of the events in whole groups, but at least 128 events where there
/// are as many.
pub open spec fn warmup_events(base: int, unit: int) -> int {
    let tenth = base / 10 / unit;
    let least = (128 + unit - 1) / unit;
    let most = base / unit;
    let wanted = if tenth > least {
        tenth
    } else {
        least
    };
    (if wanted < most {
        wanted
    } else {
        most
    }) * unit
}

/// The events of a trial: the first round only warms up.
pub open spec fn trial_events(c: Chosen, scenario: Seq<char>, round: int) -> int {
    let base = base_events(c, scenario) as int;
    if round == 0 {
        warmup_events(base, unit_of(c, scenario) as int)
    } else {
        base
    }
}

proof fn lemma_warmup(base: int, unit: int)
    requires
        base >= 0,
        unit > 0,
    ensures
        0 <= warmup_events(base, unit) <= base,
        warmup_events(base, unit) % unit == 0,
        base >= unit ==> warmup_events(base, unit) >= unit,
        base >= 128 + unit ==> warmup_events(base, unit) >= 128,
{
    let tenth = base / 10 / unit;
    let least = (128 + unit - 1) / unit;
    let most = base / unit;
    let wanted = if tenth > least {
        tenth
    } else {
        least
    };
    let k = if wanted < most {
        wanted
    } else {
        most
    };
    vstd::arithmetic::div_mod::lemma_fundamental_div_mod(base, unit);
    vstd::arithmetic::div_mod::lemma_fundamental_div_mod(128 + unit - 1, unit);
    vstd::arithmetic::div_mod::lemma_div_pos_is_pos(base, unit);
    vstd::arithmetic::div_mod::lemma_div_pos_is_pos(128 + unit - 1, unit);
    vstd::arithmetic::div_mod::lemma_mod_bound(base, unit);
    vstd::arithmetic::div_mod::lemma_mod_bound(128 + unit - 1, unit);
    vstd::arithmetic::div_mod::lemma_mod_multiples_basic(k, unit);
    assert(k * unit <= most * unit) by (nonlinear_arith)
        requires
            k <= most,
            unit > 0,
    ;
    assert(most * unit == unit * most) by (nonlinear_arith);
    assert(least * unit == unit * least) by (nonlinear_arith);
    assert(k * unit >= 0) by (nonlinear_arith)
        requires
            k >= 0,
            unit > 0,
    ;
    if base >= unit {
        assert(most >= 1) by (nonlinear_arith)
            requires
                base == unit * most + base % unit,
                base % unit < unit,
                base >= unit,
                unit > 0,
        ;
        assert(least >= 1) by (nonlinear_arith)
            requires
                128 + unit - 1 == unit * least + (128 + unit - 1) % unit,
                (128 + unit - 1) % unit < unit,
                unit > 0,
        ;
        assert(k * unit >= unit) by (nonlinear_arith)
            requires
                k >= 1,
                unit > 0,
        ;
    }
    if base >= 128 + unit {
        assert(k >= least || k >= most);
        if k >= least {
            assert(k * unit >= least * unit) by (nonlinear_arith)
                requires
                    k >= least,
                    unit > 0,
            ;
        }
    }
}

/// A warm-up is made of whole groups, is no larger than the trial that it
/// prepares, and is never empty.
pub proof fn law_warmups_are_whole_and_no_larger(c: Chosen, scenario: Seq<char>)
    requires
        c.window > 0,
        base_events(c, scenario) >= unit_of(c, scenario),
    ensures
        unit_of(c, scenario) <= trial_events(c, scenario, 0) <= base_events(c, scenario),
        trial_events(c, scenario, 0) % (unit_of(c, scenario) as int) == 0,
{
    lemma_warmup(base_events(c, scenario) as int, unit_of(c, scenario) as int);
}

/// One trial of a run.
#[derive(Clone, Copy, Debug, PartialEq, Eq, Structural)]
pub struct Trial {
    /// The scenario, by its place among those that are asked for.
    pub scenario: usize,
    pub round: u64,
    /// The engine, by its place among those that were started.
    pub engine: usize,
    pub events: u64,
}

/// The engines take turns at going first.
pub open spec fn turn(round: int, idx: int, engines: int) -> int {
    if round % 2 == 0 {
        idx
    } else {
        engines - 1 - idx
    }
}

/// Only one engine reads a file that grows.
pub open spec fn left_out(scenario: Seq<char>, engine: Seq<char>) -> bool {
    begins(scenario, "file_chunked"@) && engine != "sparrow"@
}

/// The trial of an engine in a round.
pub open spec fn trial_of(c: Chosen, s: int, round: int, engine: int) -> Trial {
    Trial {
        scenario: s as usize,
        round: round as u64,
        engine: engine as usize,
        events: trial_events(c, c.scenarios[s], round) as u64,
    }
}

/// The first trials of a round.
pub open spec fn round_trials(
    c: Chosen,
    engines: Seq<Seq<char>>,
    s: int,
    round: int,
    k: nat,
) -> Seq<Trial>
    decreases k,
{
    if k == 0 {
        Seq::empty()
    } else {
        let before = round_trials(c, engines, s, round, (k - 1) as nat);
        let e = turn(round, k - 1, engines.len() as int);
        if left_out(c.scenarios[s], engines[e]) {
            before
        } else {
            before.push(trial_of(c, s, round, e))
        }
    }
}

/// The trials of the first rounds of a scenario.
pub open spec fn scenario_trials(
    c: Chosen,
    engines: Seq<Seq<char>>,
    s: int,
    rounds: nat,
) -> Seq<Trial>
    decreases rounds,
{
    if rounds == 0 {
        Seq::empty()
    } else {
        scenario_trials(c, engines, s, (rounds - 1) as nat) + round_trials(
            c,
            engines,
            s,
            rounds - 1,
            engines.len(),
        )
    }
}

/// The trials of the first scenarios: a warm-up and then the rounds of each.
pub open spec fn run_trials(c: Chosen, engines: Seq<Seq<char>>, scenarios: nat) -> Seq<Trial>
    decreases scenarios,
{
    if scenarios == 0 {
        Seq::empty()
    } else {
        run_trials(c, engines, (scenarios - 1) as nat) + scenario_trials(
            c,
            engines,
            scenarios - 1,
            (c.rounds + 1) as nat,
        )
    }
}

impl Options {
    /// The events of a trial.
    pub fn events(&self, scenario: &str, round: u64) -> (r: u64)
        requires
            self.window > 0,
            self.window <= u64::MAX - 128,
        ensures
            r == trial_events(self@, scenario@, round as int),
    {
        let base: u64 = if same(scenario, "mqtt_filter_http") {
            self.mqtt_events
        } else if same(scenario, "file_count_window") {
            self.file_events
        } else if same(scenario, "mqtt_http_queue_pressure") {
            self.pressure_events
        } else {
            self.checkpoint_events
        };
        if round != 0 {
            return base;
        }
        let unit: u64 = if starts_with(scenario, "file") {
            self.window
        } else {
            8
        };
        let tenth: u64 = base / 10 / unit;
        let least: u64 = (128 + unit - 1) / unit;
        let most: u64 = base / unit;
        let wanted: u64 = if tenth > least {
            tenth
        } else {
            least
        };
        let k: u64 = if wanted < most {
            wanted
        } else {
            most
        };
        proof {
            lemma_warmup(base as int, unit as int);
        }
        k * unit
    }

    /// The trials of a run on those engines, in order.
    pub fn trials(&self, engines: &Vec<String>) -> (r: Vec<Trial>)
        requires
            self.window > 0,
            self.window <= u64::MAX - 128,
            self.rounds < u64::MAX,
        ensures
            r@ == run_trials(self@, texts(engines@), self.scenarios@.len()),
    {
        let ghost c = self@;
        let ghost names = texts(engines@);
        let mut r: Vec<Trial> = Vec::new();
        let mut s: usize = 0;
        while s < self.scenarios.len()
            invariant
                s <= self.scenarios.len(),
                self.window > 0,
                self.window <= u64::MAX - 128,
                self.rounds < u64::MAX,
                c == self@,
                names == texts(engines@),
                r@ == run_trials(c, names, s as nat),
            decreases self.scenarios.len() - s,
        {
            let ghost done = r@;
            assert(c.scenarios[s as int] == self.scenarios@[s as int]@);
            let scenario: &str = self.scenarios[s].as_str();
            let mut round: u64 = 0;
            assert(done + scenario_trials(c, names, s as int, 0) =~= done);
            while round <= self.rounds
                invariant
                    s < self.scenarios.len(),
                    scenario@ == c.scenarios[s as int],
                    self.window > 0,
                    self.window <= u64::MAX - 128,
                    self.rounds < u64::MAX,
                    round <= self.rounds + 1,
                    c == self@,
                    names == texts(engines@),
                    r@ == done + scenario_trials(c, names, s as int, round as nat),
                decreases self.rounds + 1 - round,
            {
                let ghost had = r@;
                let n: usize = engines.len();
                let events: u64 = self.events(scenario, round);
                let chunked: bool = starts_with(scenario, "file_chunked");
                let mut idx: usize = 0;
                assert(had + round_trials(c, names, s as int, round as int, 0) =~= had);
                while idx < n
                    invariant
                        n == engines.len(),
                        idx <= n,
                        s < self.scenarios.len(),
                        scenario@ == c.scenarios[s as int],
                        chunked == begins(scenario@, "file_chunked"@),
                        events == trial_events(c, scenario@, round as int),
                        names == texts(engines@),
                        r@ == had + round_trials(c, names, s as int, round as int, idx as nat),
                    decreases n - idx,
                {
                    let e: usize = if round % 2 == 0 {
                        idx
                    } else {
                        n - 1 - idx
                    };
                    assert(names[e as int] == engines@[e as int]@);
                    if !(chunked && !same(engines[e].as_str(), "sparrow")) {
                        let ghost sofar = r@;
                        r.push(Trial { scenario: s, round, engine: e, events });
                        assert(r@ =~= had + round_trials(
                            c,
                            names,
                            s as int,
                            round as int,
                            (idx + 1) as nat,
                        ));
                    }
                    idx = idx + 1;
                }
                assert(r@ =~= done + scenario_trials(c, names, s as int, (round + 1) as nat));
                round = round + 1;
            }
            s = s + 1;
        }
        r
    }
}

/// A trial that a run should make.
pub open spec fn due(c: Chosen, engines: Seq<Seq<char>>, s: int, round: int, e: int) -> bool {
    &&& 0 <= s < c.scenarios.len()
    &&& 0 <= round <= c.rounds
    &&& 0 <= e < engines.len()
    &&& !left_out(c.scenarios[s], engines[e])
}

proof fn lemma_round_has(
    c: Chosen,
    engines: Seq<Seq<char>>,
    s: int,
    round: int,
    k: nat,
    idx: int,
)
    requires
        0 <= idx < k <= engines.len(),
        !left_out(c.scenarios[s], engines[turn(round, idx, engines.len() as int)]),
    ensures
        round_trials(c, engines, s, round, k).contains(
            trial_of(c, s, round, turn(round, idx, engines.len() as int)),
        ),
    decreases k,
{
    let t = trial_of(c, s, round, turn(round, idx, engines.len() as int));
    let before = round_trials(c, engines, s, round, (k - 1) as nat);
    let all = round_trials(c, engines, s, round, k);
    if idx == k - 1 {
        assert(all.last() == t);
        assert(all[all.len() - 1] == t);
    } else {
        lemma_round_has(c, engines, s, round, (k - 1) as nat, idx);
        let j = choose|j: int| 0 <= j < before.len() && before[j] == t;
        assert(all[j] == t);
    }
}

proof fn lemma_scenario_has(
    c: Chosen,
    engines: Seq<Seq<char>>,
    s: int,
    rounds: nat,
    round: int,
    t: Trial,
)
    requires
        0 <= round < rounds,
        round_trials(c, engines, s, round, engines.len()).contains(t),
    ensures
        scenario_trials(c, engines, s, rounds).contains(t),
    decreases rounds,
{
    let before = scenario_trials(c, engines, s, (rounds - 1) as nat);
    let last = round_trials(c, engines, s, rounds - 1, engines.len());
    if round == rounds - 1 {
        let j = choose|j: int| 0 <= j < last.len() && last[j] == t;
        assert((before + last)[before.len() + j] == t);
    } else {
        lemma_scenario_has(c, engines, s, (rounds - 1) as nat, round, t);
        let j = choose|j: int| 0 <= j < before.len() && before[j] == t;
        assert((before + last)[j] == t);
    }
}

proof fn lemma_run_has(c: Chosen, engines: Seq<Seq<char>>, scenarios: nat, s: int, t: Trial)
    requires
        0 <= s < scenarios,
        scenario_trials(c, engines, s, (c.rounds + 1) as nat).contains(t),
    ensures
        run_trials(c, engines, scenarios).contains(t),
    decreases scenarios,
{
    let before = run_trials(c, engines, (scenarios - 1) as nat);
    let last = scenario_trials(c, engines, scenarios - 1, (c.rounds + 1) as nat);
    if s == scenarios - 1 {
        let j = choose|j: int| 0 <= j < last.len() && last[j] == t;
        assert((before + last)[before.len() + j] == t);
    } else {
        lemma_run_has(c, engines, (scenarios - 1) as nat, s, t);
        let j = choose|j: int| 0 <= j < before.len() && before[j] == t;
        assert((before + last)[j] == t);
    }
}

proof fn lemma_round_only(c: Chosen, engines: Seq<Seq<char>>, s: int, round: int, k: nat)
    requires
        k <= engines.len() <= usize::MAX,
        0 <= s <= usize::MAX,
        0 <= round <= u64::MAX,
    ensures
        ({
            let all = round_trials(c, engines, s, round, k);
            &&& all.no_duplicates()
            &&& forall|i: int|
                0 <= i < all.len() ==> (#[trigger] all[i]).scenario == s && all[i].round == round
                    && all[i].engine < engines.len() && !left_out(
                    c.scenarios[s],
                    engines[all[i].engine as int],
                ) && exists|idx: int|
                    0 <= idx < k && #[trigger] turn(round, idx, engines.len() as int)
                        == all[i].engine
        }),
    decreases k,
{
    if k > 0 {
        lemma_round_only(c, engines, s, round, (k - 1) as nat);
        let before = round_trials(c, engines, s, round, (k - 1) as nat);
        let all = round_trials(c, engines, s, round, k);
        let e = turn(round, k - 1, engines.len() as int);
        if !left_out(c.scenarios[s], engines[e]) {
            let t = trial_of(c, s, round, e);
            assert forall|i: int| 0 <= i < before.len() implies before[i] != t by {
                let idx = choose|idx: int|
                    0 <= idx < k - 1 && #[trigger] turn(round, idx, engines.len() as int)
                        == before[i].engine;
                assert(turn(round, idx, engines.len() as int) != e);
            }
            assert forall|i: int| 0 <= i < all.len() implies (#[trigger] all[i]).scenario == s
                && all[i].round == round && all[i].engine < engines.len() && !left_out(
                c.scenarios[s],
                engines[all[i].engine as int],
            ) && exists|idx: int|
                0 <= idx < k && #[trigger] turn(round, idx, engines.len() as int)
                    == all[i].engine by {
                if i < before.len() {
                    assert(all[i] == before[i]);
                } else {
                    assert(all[i] == t);
                    assert(turn(round, k - 1, engines.len() as int) == t.engine);
                }
            }
        }
    }
}

proof fn lemma_scenario_only(c: Chosen, engines: Seq<Seq<char>>, s: int, rounds: nat)
    requires
        engines.len() <= usize::MAX,
        0 <= s <= usize::MAX,
        rounds <= u64::MAX,
    ensures
        ({
            let all = scenario_trials(c, engines, s, rounds);
            &&& all.no_duplicates()
            &&& forall|i: int|
                0 <= i < all.len() ==> (#[trigger] all[i]).scenario == s && all[i].round < rounds
                    && all[i].engine < engines.len() && !left_out(
                    c.scenarios[s],
                    engines[all[i].engine as int],
                )
        }),
    decreases rounds,
{
    if rounds > 0 {
        lemma_scenario_only(c, engines, s, (rounds - 1) as nat);
        lemma_round_only(c, engines, s, rounds - 1, engines.len());
        let before = scenario_trials(c, engines, s, (rounds - 1) as nat);
        let last = round_trials(c, engines, s, rounds - 1, engines.len());
        let all = before + last;
        assert forall|i: int| 0 <= i < all.len() implies (#[trigger] all[i]).scenario == s
            && all[i].round < rounds && all[i].engine < engines.len() && !left_out(
            c.scenarios[s],
            engines[all[i].engine as int],
        ) by {
            if i < before.len() {
                assert(all[i] == before[i]);
            } else {
                assert(all[i] == last[i - before.len()]);
            }
        }
        assert forall|i: int, j: int| 0 <= i < j < all.len() implies all[i] != all[j] by {
            if j < before.len() {
                assert(before[i] != before[j]);
            } else if i >= before.len() {
                assert(last[i - before.len()] != last[j - before.len()]);
            } else {
                assert(all[i] == before[i]);
                assert(all[j] == last[j - before.len()]);
            }
        }
    }
}

proof fn lemma_run_only(c: Chosen, engines: Seq<Seq<char>>, scenarios: nat)
    requires
        engines.len() <= usize::MAX,
        scenarios <= usize::MAX,
        c.rounds < u64::MAX,
    ensures
        ({
            let all = run_trials(c, engines, scenarios);
            &&& all.no_duplicates()
            &&& forall|i: int|
                0 <= i < all.len() ==> (#[trigger] all[i]).scenario < scenarios && all[i].round
                    <= c.rounds && all[i].engine < engines.len() && !left_out(
                    c.scenarios[all[i].scenario as int],
                    engines[all[i].engine as int],
                )
        }),
    decreases scenarios,
{
    if scenarios > 0 {
        lemma_run_only(c, engines, (scenarios - 1) as nat);
        lemma_scenario_only(c, engines, scenarios - 1, (c.rounds + 1) as nat);
        let before = run_trials(c, engines, (scenarios - 1) as nat);
        let last = scenario_trials(c, engines, scenarios - 1, (c.rounds + 1) as nat);
        let all = before + last;
        assert forall|i: int| 0 <= i < all.len() implies (#[trigger] all[i]).scenario < scenarios
            && all[i].round <= c.rounds && all[i].engine < engines.len() && !left_out(
            c.scenarios[all[i].scenario as int],
            engines[all[i].engine as int],
        ) by {
            if i < before.len() {
                assert(all[i] == before[i]);
            } else {
                assert(all[i] == last[i - before.len()]);
            }
        }
        assert forall|i: int, j: int| 0 <= i < j < all.len() implies all[i] != all[j] by {
            if j < before.len() {
                assert(before[i] != before[j]);
            } else if i >= before.len() {
                assert(last[i - before.len()] != last[j - before.len()]);
            } else {
                assert(all[i] == before[i]);
                assert(all[j] == last[j - before.len()]);
            }
        }
    }
}

/// A run makes every trial that is due, and makes no trial twice.
pub proof fn law_every_trial_is_made_once(c: Chosen, engines: Seq<Seq<char>>)
    requires
        engines.len() <= usize::MAX,
        c.scenarios.len() <= usize::MAX,
        c.rounds < u64::MAX,
    ensures
        run_trials(c, engines, c.scenarios.len()).no_duplicates(),
        forall|s: int, round: int, e: int|
            #![trigger trial_of(c, s, round, e)]
            due(c, engines, s, round, e) ==> run_trials(c, engines, c.scenarios.len()).contains(
                trial_of(c, s, round, e),
            ),
        forall|i: int|
            0 <= i < run_trials(c, engines, c.scenarios.len()).len() ==> {
                let t = #[trigger] run_trials(c, engines, c.scenarios.len())[i];
                due(c, engines, t.scenario as int, t.round as int, t.engine as int)
            },
{
    lemma_run_only(c, engines, c.scenarios.len());
    assert forall|s: int, round: int, e: int|
        #![trigger trial_of(c, s, round, e)]
        due(c, engines, s, round, e) implies run_trials(
        c,
        engines,
        c.scenarios.len(),
    ).contains(trial_of(c, s, round, e)) by {
        let n = engines.len() as int;
        let idx = turn(round, e, n);
        assert(turn(round, idx, n) == e);
        let t = trial_of(c, s, round, e);
        lemma_round_has(c, engines, s, round, engines.len(), idx);
        lemma_scenario_has(c, engines, s, (c.rounds + 1) as nat, round, t);
        lemma_run_has(c, engines, c.scenarios.len(), s, t);
    }
}

} // verus!
