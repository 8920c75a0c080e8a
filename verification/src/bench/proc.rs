//! What the kernel says of a process.

use crate::text::{
    begins, chars, from_chars, is_white, number, pieces, read_number, split, starts_with,
    strip_prefix, sub_chars, texts, white,
};
use vstd::prelude::*;
use vstd::string::*;

verus! {

/// The words of a text: what stands between white space.
pub open spec fn words(s: Seq<char>) -> Seq<Seq<char>>
    decreases s.len(),
{
    if s.len() == 0 {
        Seq::empty()
    } else {
        let before = words(s.drop_last());
        if white(s.last()) {
            before
        } else if s.len() > 1 && !white(s[s.len() - 2]) {
            before.drop_last().push(before.last().push(s.last()))
        } else {
            before.push(seq![s.last()])
        }
    }
}

/// Splits a text into its words.
pub fn split_words(s: &str) -> (r: Vec<String>)
    ensures
        texts(r@) == words(s@),
{
    let a: Vec<char> = chars(s);
    let mut r: Vec<String> = Vec::new();
    let mut cur: String = String::new();
    let mut i: usize = 0;
    let mut inside: bool = false;
    assert(s@.take(0) =~= Seq::<char>::empty());
    assert(texts(r@) =~= words(s@.take(0)));
    while i < a.len()
        invariant
            i <= a.len(),
            a@ == s@,
            inside == (i > 0 && !white(s@[i - 1])),
            inside ==> texts(r@).push(cur@) == words(s@.take(i as int)),
            !inside ==> texts(r@) == words(s@.take(i as int)) && cur@.len() == 0,
        decreases a.len() - i,
    {
        let ghost now = s@.take(i + 1);
        let ghost old_r = r@;
        let ghost old_cur = cur@;
        assert(now.drop_last() =~= s@.take(i as int));
        assert(now.last() == s@[i as int]);
        if i > 0 {
            assert(now[now.len() - 2] == s@[i - 1]);
        }
        if is_white(a[i]) {
            if inside {
                r.push(cur);
                cur = String::new();
                assert(texts(r@) =~= texts(old_r).push(old_cur));
            }
            inside = false;
        } else {
            cur.push(a[i]);
            if inside {
                let ghost w = words(s@.take(i as int));
                assert(w.drop_last() =~= texts(old_r));
                assert(w.last() == old_cur);
            } else {
                assert(cur@ =~= seq![s@[i as int]]);
            }
            inside = true;
        }
        i = i + 1;
    }
    assert(s@.take(i as int) =~= s@);
    if inside {
        let ghost old_r = r@;
        let ghost old_cur = cur@;
        r.push(cur);
        assert(texts(r@) =~= texts(old_r).push(old_cur));
    }
    r
}

/// The number that a line gives to a key.
pub open spec fn line_value(line: Seq<char>, key: Seq<char>) -> Option<u64> {
    if begins(line, key) {
        let w = words(line.skip(key.len() as int));
        if w.len() > 0 {
            match number(w[0], u64::MAX as nat) {
                Ok(n) => Some(n as u64),
                Err(_) => None,
            }
        } else {
            None
        }
    } else {
        None
    }
}

/// The number that the first line with the key gives to it.
pub open spec fn first_value(lines: Seq<Seq<char>>, key: Seq<char>) -> Option<u64>
    decreases lines.len(),
{
    if lines.len() == 0 {
        None
    } else {
        match line_value(lines[0], key) {
            Some(n) => Some(n),
            None => first_value(lines.skip(1), key),
        }
    }
}

fn value_of(line: &str, key: &str) -> (r: Option<u64>)
    ensures
        r == line_value(line@, key@),
{
    match strip_prefix(line, key) {
        Some(rest) => {
            let w: Vec<String> = split_words(rest.as_str());
            if w.len() > 0 {
                assert(texts(w@)[0] == w@[0]@);
                match read_number(w[0].as_str(), u64::MAX) {
                    Ok(n) => Some(n),
                    Err(_) => None,
                }
            } else {
                None
            }
        },
        None => None,
    }
}

fn find_value(lines: &Vec<String>, key: &str) -> (r: Option<u64>)
    ensures
        r == first_value(texts(lines@), key@),
{
    let ghost all = texts(lines@);
    let mut i: usize = 0;
    assert(all.skip(0) =~= all);
    while i < lines.len()
        invariant
            i <= lines.len(),
            all == texts(lines@),
            first_value(all, key@) == first_value(all.skip(i as int), key@),
        decreases lines.len() - i,
    {
        assert(all.skip(i as int)[0] == lines@[i as int]@);
        assert(all.skip(i as int).skip(1) =~= all.skip(i + 1));
        match value_of(lines[i].as_str(), key) {
            Some(n) => {
                return Some(n);
            },
            None => {},
        }
        i = i + 1;
    }
    assert(all.skip(i as int) =~= Seq::<Seq<char>>::empty());
    None
}

/// The resident size of a process and the most that it was, in kibibytes, out of
/// the text of its `status`.
pub fn memory(status: &str) -> (r: Option<(u64, u64)>)
    ensures
        r == match (
            first_value(pieces(status@, '\n'), "VmRSS:"@),
            first_value(pieces(status@, '\n'), "VmHWM:"@),
        ) {
            (Some(a), Some(b)) => Some((a, b)),
            _ => None,
        },
{
    let lines: Vec<String> = split(status, '\n');
    match (find_value(&lines, "VmRSS:"), find_value(&lines, "VmHWM:")) {
        (Some(a), Some(b)) => Some((a, b)),
        _ => None,
    }
}

/// The number on the first line that begins with the key.
pub open spec fn only_value(lines: Seq<Seq<char>>, key: Seq<char>) -> Option<u64>
    decreases lines.len(),
{
    if lines.len() == 0 {
        None
    } else if begins(lines[0], key) {
        line_value(lines[0], key)
    } else {
        only_value(lines.skip(1), key)
    }
}

/// The resident size of a process in kibibytes, out of the text of its `status`:
/// the first line that names it decides.
pub fn rss_kb(status: &str) -> (r: Option<u64>)
    ensures
        r == only_value(pieces(status@, '\n'), "VmRSS:"@),
{
    let lines: Vec<String> = split(status, '\n');
    let ghost all = texts(lines@);
    let ghost key = "VmRSS:"@;
    let mut i: usize = 0;
    assert(all.skip(0) =~= all);
    while i < lines.len()
        invariant
            i <= lines.len(),
            all == texts(lines@),
            key == "VmRSS:"@,
            all == pieces(status@, '\n'),
            only_value(all, key) == only_value(all.skip(i as int), key),
        decreases lines.len() - i,
    {
        assert(all.skip(i as int)[0] == lines@[i as int]@);
        assert(all.skip(i as int).skip(1) =~= all.skip(i + 1));
        if starts_with(lines[i].as_str(), "VmRSS:") {
            return value_of(lines[i].as_str(), "VmRSS:");
        }
        i = i + 1;
    }
    assert(all.skip(i as int) =~= Seq::<Seq<char>>::empty());
    None
}

/// Whether the name of the process ends there: after it stands `) `.
pub open spec fn ends_name(s: Seq<char>, i: int) -> bool {
    0 <= i && i + 1 < s.len() && s[i] == ')' && s[i + 1] == ' '
}

/// What stands after the last `) `.
pub open spec fn after_name(s: Seq<char>) -> Option<Seq<char>>
    decreases s.len(),
{
    if s.len() < 2 {
        None
    } else if ends_name(s, s.len() - 2) {
        Some(Seq::empty())
    } else {
        match after_name(s.drop_last()) {
            Some(t) => Some(t.push(s.last())),
            None => None,
        }
    }
}

pub(crate) proof fn lemma_after_name(s: Seq<char>, i: int)
    requires
        ends_name(s, i),
        forall|j: int| i < j ==> !ends_name(s, j),
    ensures
        after_name(s) == Some(s.skip(i + 2)),
    decreases s.len(),
{
    if i == s.len() - 2 {
        assert(s.skip(i + 2) =~= Seq::empty());
    } else {
        assert(!ends_name(s, s.len() - 2));
        assert forall|j: int| i < j implies !ends_name(s.drop_last(), j) by {
            assert(!ends_name(s, j));
        }
        lemma_after_name(s.drop_last(), i);
        assert(s.drop_last().skip(i + 2).push(s.last()) =~= s.skip(i + 2));
    }
}

proof fn lemma_no_name(s: Seq<char>)
    requires
        forall|j: int| 0 <= j ==> !ends_name(s, j),
    ensures
        after_name(s) is None,
    decreases s.len(),
{
    if s.len() >= 2 {
        assert(!ends_name(s, s.len() - 2));
        assert forall|j: int| 0 <= j implies !ends_name(s.drop_last(), j) by {
            assert(!ends_name(s, j));
        }
        lemma_no_name(s.drop_last());
    }
}

/// The ticks that a `stat` line counts: those of the process and those of the
/// kernel on its behalf.
pub open spec fn ticks_of(stat: Seq<char>) -> Option<(u64, u64)> {
    match after_name(stat) {
        None => None,
        Some(rest) => {
            let w = words(rest);
            if w.len() > 12 {
                match (number(w[11], u64::MAX as nat), number(w[12], u64::MAX as nat)) {
                    (Ok(a), Ok(b)) => Some((a as u64, b as u64)),
                    _ => None,
                }
            } else {
                None
            }
        },
    }
}

/// Reads the ticks of a process out of its `stat` line.
pub fn ticks(stat: &str) -> (r: Option<(u64, u64)>)
    ensures
        r == ticks_of(stat@),
{
    let a: Vec<char> = chars(stat);
    if a.len() < 2 {
        return None;
    }
    let mut i: usize = a.len() - 1;
    let mut found: bool = false;
    while i > 0 && !found
        invariant
            a@ == stat@,
            i < a.len(),
            found ==> ends_name(stat@, i as int),
            forall|j: int| (if found {
                i < j
            } else {
                i <= j
            }) ==> !ends_name(stat@, j),
        decreases i + if found {
            0int
        } else {
            1
        },
    {
        i = i - 1;
        found = a[i] == ')' && a[i + 1] == ' ';
    }
    if !found {
        proof {
            lemma_no_name(stat@);
        }
        return None;
    }
    proof {
        lemma_after_name(stat@, i as int);
    }
    let rest: Vec<char> = sub_chars(a.as_slice(), i + 2, a.len());
    assert(rest@ =~= stat@.skip(i + 2));
    let rest: String = from_chars(rest.as_slice());
    let w: Vec<String> = split_words(rest.as_str());
    if w.len() > 12 {
        assert(texts(w@)[11] == w@[11]@);
        assert(texts(w@)[12] == w@[12]@);
        match (read_number(w[11].as_str(), u64::MAX), read_number(w[12].as_str(), u64::MAX)) {
            (Ok(x), Ok(y)) => Some((x, y)),
            _ => None,
        }
    } else {
        None
    }
}

/// How large a process became while it was watched.
#[derive(Clone, Copy, Debug, PartialEq, Eq, Structural)]
pub struct Watched {
    pub baseline: Option<u64>,
    pub peak: Option<u64>,
    pub lifetime_peak: Option<u64>,
    pub samples: u64,
}

impl Watched {
    /// A process that is watched from now on.
    pub fn new(first: Option<(u64, u64)>) -> (r: Self)
        ensures
            r == (match first {
                Some((rss, high)) => Watched {
                    baseline: Some(rss),
                    peak: Some(rss),
                    lifetime_peak: Some(high),
                    samples: 0,
                },
                None => Watched { baseline: None, peak: None, lifetime_peak: None, samples: 0 },
            }),
    {
        match first {
            Some((rss, high)) => Watched {
                baseline: Some(rss),
                peak: Some(rss),
                lifetime_peak: Some(high),
                samples: 0,
            },
            None => Watched { baseline: None, peak: None, lifetime_peak: None, samples: 0 },
        }
    }

    /// Takes note of a sample.
    pub fn sample(&mut self, rss: u64, high: u64)
        requires
            old(self).samples < u64::MAX,
        ensures
            *final(self) == (Watched {
                baseline: old(self).baseline,
                peak: Some(
                    match old(self).peak {
                        Some(p) => if p > rss {
                            p
                        } else {
                            rss
                        },
                        None => rss,
                    },
                ),
                lifetime_peak: Some(high),
                samples: (old(self).samples + 1) as u64,
            }),
    {
        self.peak = Some(
            match self.peak {
                Some(p) => if p > rss {
                    p
                } else {
                    rss
                },
                None => rss,
            },
        );
        self.lifetime_peak = Some(high);
        self.samples = self.samples + 1;
    }
}

} // verus!
