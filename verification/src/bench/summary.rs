//! What a whole run showed: the trials by engine and scenario, and how far their
//! figures lie apart.

use crate::bench::trial::Report;
use crate::table::Table;
use crate::text::cat3;
use vstd::prelude::*;
use vstd::string::*;

verus! {

/// The numbers do not fall.
pub open spec fn ascending(s: Seq<u64>) -> bool {
    forall|i: int, j: int| 0 <= i <= j < s.len() ==> #[trigger] s[i] <= #[trigger] s[j]
}

/// Sorts numbers through the standard library's `sort_unstable`: they do not
/// fall afterwards, and they are the numbers that were there before.
#[verifier::external_body]
fn sort_numbers(v: &mut Vec<u64>)
    ensures
        ascending(final(v)@),
        final(v)@.to_multiset() == old(v)@.to_multiset(),
{
    v.sort_unstable();
}

/// Puts latencies in order.
pub fn sorted(v: Vec<u64>) -> (r: Vec<u64>)
    ensures
        ascending(r@),
        r@.to_multiset() == v@.to_multiset(),
{
    let mut r: Vec<u64> = v;
    sort_numbers(&mut r);
    r
}

/// The place of a percentile among `n` numbers in order, rounded to the nearest;
/// a half is rounded up.
pub open spec fn place(n: int, hundredths: int) -> int {
    ((n - 1) * hundredths + 50) / 100
}

/// The percentile of numbers in order.
pub fn percentile(sorted: &Vec<u64>, hundredths: u64) -> (r: Option<u64>)
    requires
        hundredths <= 100,
    ensures
        r == if sorted@.len() == 0 {
            None
        } else {
            Some(sorted@[place(sorted@.len() as int, hundredths as int)])
        },
{
    if sorted.len() == 0 {
        return None;
    }
    let n: u128 = sorted.len() as u128;
    proof {
        assert(0 <= (n - 1) * hundredths <= (n - 1) * 100) by (nonlinear_arith)
            requires
                n >= 1,
                0 <= hundredths <= 100,
        ;
    }
    let i: u128 = ((n - 1) * (hundredths as u128) + 50) / 100;
    Some(sorted[i as usize])
}

/// The extremes of some numbers, and the one in the middle.
#[derive(Clone, Copy, Debug, PartialEq, Eq, Structural)]
pub struct Spread {
    pub min: u64,
    pub median: u64,
    pub max: u64,
}

/// Whether a spread is that of these numbers.
pub open spec fn spread_of(v: Seq<u64>, r: Spread) -> bool {
    exists|s: Seq<u64>|
        #![trigger ascending(s)]
        ascending(s) && s.to_multiset() == v.to_multiset() && s.len() == v.len() && r.min == s[0]
            && r.median == s[v.len() as int / 2] && r.max == s[v.len() - 1]
}

/// The spread of some numbers. Doubles that are not negative are ordered as
/// their bits are.
pub fn spread(v: Vec<u64>) -> (r: Option<Spread>)
    ensures
        match r {
            Some(x) => v@.len() > 0 && spread_of(v@, x),
            None => v@.len() == 0,
        },
{
    if v.len() == 0 {
        return None;
    }
    let ghost given = v@;
    let s: Vec<u64> = sorted(v);
    proof {
        given.to_multiset_ensures();
        s@.to_multiset_ensures();
        assert(s@.len() == given.len());
    }
    let n: usize = s.len();
    let x: Spread = Spread { min: s[0], median: s[n / 2], max: s[n - 1] };
    assert(ascending(s@));
    Some(x)
}

/// The trials that count: all but the warm-ups, by engine and scenario.
pub open spec fn group_key(r: Report) -> Seq<char> {
    r.engine@ + "/"@ + r.scenario@
}

/// The places of the trials of a group.
pub open spec fn members(reports: Seq<Report>, key: Seq<char>) -> Seq<usize>
    decreases reports.len(),
{
    if reports.len() == 0 {
        Seq::empty()
    } else {
        let before = members(reports.drop_last(), key);
        if !reports.last().warmup && group_key(reports.last()) == key {
            before.push((reports.len() - 1) as usize)
        } else {
            before
        }
    }
}

/// Whether a group has a trial.
pub open spec fn has_group(reports: Seq<Report>, key: Seq<char>) -> bool {
    members(reports, key).len() > 0
}

/// The groups of a run: every trial that counts is in one.
pub open spec fn grouped(reports: Seq<Report>, m: Map<Seq<char>, Vec<usize>>) -> bool {
    &&& forall|k: Seq<char>| #[trigger] m.dom().contains(k) <==> has_group(reports, k)
    &&& forall|k: Seq<char>| m.dom().contains(k) ==> (#[trigger] m[k])@ == members(reports, k)
}

/// Groups the trials that count by engine and scenario.
pub fn groups(reports: &Vec<Report>) -> (r: Table<Vec<usize>>)
    ensures
        r.wf(),
        grouped(reports@, r@),
{
    let mut r: Table<Vec<usize>> = Table::new();
    let mut i: usize = 0;
    assert(reports@.take(0) =~= Seq::<Report>::empty());
    while i < reports.len()
        invariant
            i <= reports.len(),
            r.wf(),
            grouped(reports@.take(i as int), r@),
        decreases reports.len() - i,
    {
        let ghost before = reports@.take(i as int);
        let ghost now = reports@.take(i + 1);
        let ghost had = r@;
        assert(now.drop_last() =~= before);
        assert(now.last() == reports@[i as int]);
        if !reports[i].warmup {
            let key: String = cat3(
                reports[i].engine.as_str(),
                "/",
                reports[i].scenario.as_str(),
            );
            let ghost name = key@;
            let mut places: Vec<usize> = match r.take(key.as_str()) {
                Some(v) => v,
                None => Vec::new(),
            };
            assert(places@ =~= members(before, name)) by {
                if !had.dom().contains(name) {
                    assert(!has_group(before, name));
                }
            }
            places.push(i);
            r.put(key, places);
            assert forall|k: Seq<char>| #[trigger] r@.dom().contains(k) <==> has_group(now, k) by {
                if k != name {
                    assert(had.dom().contains(k) <==> has_group(before, k));
                }
            }
            assert forall|k: Seq<char>| r@.dom().contains(k) implies (#[trigger] r@[k])@
                == members(now, k) by {
                if k != name {
                    assert(had[k]@ == members(before, k));
                }
            }
        } else {
            assert forall|k: Seq<char>| #[trigger] r@.dom().contains(k) <==> has_group(now, k) by {
                assert(had.dom().contains(k) <==> has_group(before, k));
            }
            assert forall|k: Seq<char>| r@.dom().contains(k) implies (#[trigger] r@[k])@
                == members(now, k) by {
                assert(had[k]@ == members(before, k));
            }
        }
        i = i + 1;
    }
    assert(reports@.take(i as int) =~= reports@);
    r
}

/// A trial that should have been valid and is not.
pub open spec fn failed(r: Report) -> bool {
    !r.stress_case && !r.valid
}

/// Whether a run as a whole can be relied on: every trial but those under
/// pressure must be valid.
pub fn verdict(reports: &Vec<Report>) -> (r: Result<(), String>)
    ensures
        match r {
            Ok(()) => forall|i: int| 0 <= i < reports@.len() ==> !failed(#[trigger] reports@[i]),
            Err(t) => (exists|i: int| 0 <= i < reports@.len() && failed(#[trigger] reports@[i]))
                && t@
                == "incomplete/invalid delivery: inspect results.jsonl; invalid trials have no throughput claim"@,
        },
        r is Ok <==> forall|i: int|
            0 <= i < reports@.len() ==> (#[trigger] reports@[i]).valid || reports@[i].stress_case,
{
    let mut i: usize = 0;
    while i < reports.len()
        invariant
            i <= reports.len(),
            forall|j: int| 0 <= j < i ==> !failed(#[trigger] reports@[j]),
        decreases reports.len() - i,
    {
        if !reports[i].stress_case && !reports[i].valid {
            assert(failed(reports@[i as int]));
            return Err(
                "incomplete/invalid delivery: inspect results.jsonl; invalid trials have no throughput claim".to_owned(),
            );
        }
        i = i + 1;
    }
    assert forall|j: int| 0 <= j < reports@.len() implies (#[trigger] reports@[j]).valid
        || reports@[j].stress_case by {
        assert(!failed(reports@[j]));
    }
    Ok(())
}

} // verus!
