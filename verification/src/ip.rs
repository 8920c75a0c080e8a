//! The textual forms of IP addresses.

use crate::text::{chars, digits_value, from_chars, pieces, read_digits, split, sub_chars, texts};
use vstd::prelude::*;

verus! {

/// One part of a dotted address: one to three digits without a leading zero,
/// up to 255.
pub open spec fn octet(p: Seq<char>) -> Option<int> {
    if 1 <= p.len() <= 3 && (p.len() == 1 || p[0] != '0') {
        match digits_value(p, 255) {
            Ok(v) => Some(v as int),
            Err(_) => None,
        }
    } else {
        None
    }
}

/// An IPv4 address: four parts with dots between them.
pub open spec fn ipv4(s: Seq<char>) -> Option<(int, int, int, int)> {
    let p = pieces(s, '.');
    if p.len() == 4 && octet(p[0]) is Some && octet(p[1]) is Some && octet(p[2]) is Some && octet(
        p[3],
    ) is Some {
        Some((octet(p[0])->0, octet(p[1])->0, octet(p[2])->0, octet(p[3])->0))
    } else {
        None
    }
}

/// The first of several pieces begins as the text does.
pub proof fn lemma_first_piece(s: Seq<char>, c: char)
    requires
        s.len() > 0,
        s[0] != c,
    ensures
        pieces(s, c).len() > 0,
        pieces(s, c)[0].len() > 0,
        pieces(s, c)[0][0] == s[0],
    decreases s.len(),
{
    let front = s.drop_last();
    reveal_with_fuel(pieces, 2);
    if front.len() > 0 {
        lemma_first_piece(front, c);
    } else {
        assert(pieces(front, c) == seq![Seq::<char>::empty()]);
        assert(s.last() == s[0]);
    }
}

/// A number begins with a digit.
pub proof fn lemma_first_digit(s: Seq<char>, max: nat)
    requires
        s.len() > 0,
        digits_value(s, max) is Ok,
    ensures
        '0' <= s[0] <= '9',
    decreases s.len(),
{
    if s.len() > 1 {
        lemma_first_digit(s.drop_last(), max);
    }
}

/// The value of a hexadecimal digit.
pub open spec fn hex_digit(c: char) -> Option<int> {
    if '0' <= c <= '9' {
        Some((c as u32) - ('0' as u32))
    } else if 'a' <= c <= 'f' {
        Some((c as u32) - ('a' as u32) + 10)
    } else if 'A' <= c <= 'F' {
        Some((c as u32) - ('A' as u32) + 10)
    } else {
        None
    }
}

/// The hexadecimal digit of a value below sixteen.
pub open spec fn hex_char(n: int) -> char {
    if n < 10 {
        (48 + n) as char
    } else {
        (87 + n) as char
    }
}

/// The value of a run of hexadecimal digits.
pub open spec fn hex_run(p: Seq<char>) -> Option<int>
    decreases p.len(),
{
    if p.len() == 0 {
        Some(0)
    } else {
        match (hex_run(p.drop_last()), hex_digit(p.last())) {
            (Some(v), Some(d)) => Some(v * 16 + d),
            _ => None,
        }
    }
}

/// One group of an IPv6 address: one to four hexadecimal digits.
pub open spec fn group(p: Seq<char>) -> Option<int> {
    if 1 <= p.len() <= 4 {
        hex_run(p)
    } else {
        None
    }
}

/// A list of groups.
pub open spec fn plain_groups(p: Seq<Seq<char>>) -> Option<Seq<int>>
    decreases p.len(),
{
    if p.len() == 0 {
        Some(Seq::empty())
    } else {
        match (plain_groups(p.drop_last()), group(p.last())) {
            (Some(g), Some(v)) => Some(g.push(v)),
            _ => None,
        }
    }
}

/// A list of groups between colons; at the end of an address the last may be
/// an IPv4 address, which stands for two.
pub open spec fn groups(s: Seq<char>, end: bool) -> Option<Seq<int>> {
    if s.len() == 0 {
        Some(Seq::empty())
    } else {
        let p = pieces(s, ':');
        match plain_groups(p.drop_last()) {
            None => None,
            Some(g) => match group(p.last()) {
                Some(v) => Some(g.push(v)),
                None => if end {
                    match ipv4(p.last()) {
                        Some((a, b, c, d)) => Some(g.push(a * 256 + b).push(c * 256 + d)),
                        None => None,
                    }
                } else {
                    None
                },
            },
        }
    }
}

/// Where `::` first stands at `i` or later.
pub open spec fn double_colon(s: Seq<char>, i: int) -> Option<int>
    decreases s.len() - i,
{
    if i + 1 >= s.len() {
        None
    } else if s[i] == ':' && s[i + 1] == ':' {
        Some(i)
    } else {
        double_colon(s, i + 1)
    }
}

/// The eight groups of an IPv6 address; `::` stands for one or more groups of
/// zero.
pub open spec fn ipv6(s: Seq<char>) -> Option<Seq<int>> {
    match double_colon(s, 0) {
        None => match groups(s, true) {
            Some(g) => if g.len() == 8 {
                Some(g)
            } else {
                None
            },
            None => None,
        },
        Some(i) => match (groups(s.take(i), false), groups(s.skip(i + 2), true)) {
            (Some(h), Some(t)) => if h.len() + t.len() <= 7 {
                Some(h + Seq::new((8 - h.len() - t.len()) as nat, |k: int| 0int) + t)
            } else {
                None
            },
            _ => None,
        },
    }
}

fn read_octet(p: &str) -> (r: Option<u8>)
    ensures
        match r {
            Some(v) => octet(p@) == Some(v as int),
            None => octet(p@) is None,
        },
{
    let a: Vec<char> = chars(p);
    if a.len() < 1 || a.len() > 3 || (a.len() > 1 && a[0] == '0') {
        return None;
    }
    match read_digits(a.as_slice(), 255) {
        Ok(v) => {
            assert(v <= 255);
            Some(v as u8)
        },
        Err(_) => None,
    }
}

/// Reads an IPv4 address.
pub fn read_ipv4(s: &str) -> (r: Option<(u8, u8, u8, u8)>)
    ensures
        match r {
            Some((a, b, c, d)) => ipv4(s@) == Some((a as int, b as int, c as int, d as int)),
            None => ipv4(s@) is None,
        },
{
    let p: Vec<String> = split(s, '.');
    assert(forall|i: int| 0 <= i < p.len() ==> #[trigger] texts(p@)[i] == p@[i]@);
    assert(texts(p@).len() == p.len());
    if p.len() != 4 {
        return None;
    }
    let a: Option<u8> = read_octet(p[0].as_str());
    let b: Option<u8> = read_octet(p[1].as_str());
    let c: Option<u8> = read_octet(p[2].as_str());
    let d: Option<u8> = read_octet(p[3].as_str());
    assert(texts(p@)[0] == p@[0]@ && texts(p@)[1] == p@[1]@ && texts(p@)[2] == p@[2]@ && texts(
        p@,
    )[3] == p@[3]@);
    match (a, b, c, d) {
        (Some(a), Some(b), Some(c), Some(d)) => Some((a, b, c, d)),
        _ => None,
    }
}

/// Reads a hexadecimal digit.
pub fn read_hex_digit(c: char) -> (r: Option<u8>)
    ensures
        match r {
            Some(v) => hex_digit(c) == Some(v as int) && v < 16,
            None => hex_digit(c) is None,
        },
{
    if '0' <= c && c <= '9' {
        Some((c as u8) - 48)
    } else if 'a' <= c && c <= 'f' {
        Some((c as u8) - 97 + 10)
    } else if 'A' <= c && c <= 'F' {
        Some((c as u8) - 65 + 10)
    } else {
        None
    }
}

/// Writes a hexadecimal digit.
pub fn hex_digit_of(n: u8) -> (r: char)
    requires
        n < 16,
    ensures
        r == hex_char(n as int),
{
    if n < 10 {
        (48 + n) as char
    } else {
        (87 + n) as char
    }
}

proof fn lemma_hex_run_stays(p: Seq<char>, k: int)
    requires
        0 <= k <= p.len(),
        hex_run(p.take(k)) is None,
    ensures
        hex_run(p) is None,
    decreases p.len() - k,
{
    if k < p.len() {
        assert(p.take(k + 1).drop_last() == p.take(k));
        lemma_hex_run_stays(p, k + 1);
    } else {
        assert(p.take(k) == p);
    }
}

fn read_group(p: &str) -> (r: Option<u16>)
    ensures
        match r {
            Some(v) => group(p@) == Some(v as int),
            None => group(p@) is None,
        },
{
    let a: Vec<char> = chars(p);
    if a.len() < 1 || a.len() > 4 {
        return None;
    }
    let mut v: u32 = 0;
    let mut i: usize = 0;
    assert(a@.take(0) == Seq::<char>::empty());
    while i < a.len()
        invariant
            i <= a.len() <= 4,
            a@ == p@,
            1 <= p@.len() <= 4,
            hex_run(a@.take(i as int)) == Some(v as int),
            i == 0 ==> v == 0,
            i == 1 ==> v < 16,
            i == 2 ==> v < 256,
            i == 3 ==> v < 4096,
            i == 4 ==> v < 65536,
        decreases a.len() - i,
    {
        assert(a@.take(i + 1).drop_last() == a@.take(i as int));
        assert(a@.take(i + 1).last() == a@[i as int]);
        match read_hex_digit(a[i]) {
            Some(d) => {
                v = v * 16 + d as u32;
            },
            None => {
                proof {
                    lemma_hex_run_stays(a@, i + 1);
                }
                return None;
            },
        }
        i = i + 1;
    }
    assert(a@.take(a@.len() as int) == a@);
    Some(v as u16)
}

/// The numbers in a list, as integers.
pub open spec fn ints(v: Seq<u16>) -> Seq<int> {
    v.map_values(|x: u16| x as int)
}

proof fn lemma_plain_groups_stay(p: Seq<Seq<char>>, k: int)
    requires
        0 <= k <= p.len(),
        plain_groups(p.take(k)) is None,
    ensures
        plain_groups(p) is None,
    decreases p.len() - k,
{
    if k < p.len() {
        assert(p.take(k + 1).drop_last() == p.take(k));
        lemma_plain_groups_stay(p, k + 1);
    } else {
        assert(p.take(k) == p);
    }
}

fn read_groups(s: &str, end: bool) -> (r: Option<Vec<u16>>)
    ensures
        match r {
            Some(g) => groups(s@, end) == Some(ints(g@)),
            None => groups(s@, end) is None,
        },
{
    let mut out: Vec<u16> = Vec::new();
    assert(ints(out@) == Seq::<int>::empty());
    if s.is_empty() {
        return Some(out);
    }
    let p: Vec<String> = split(s, ':');
    let ghost t = texts(p@);
    assert(t.len() == p.len());
    let n: usize = p.len() - 1;
    let mut i: usize = 0;
    let ghost front = t.drop_last();
    assert(front.take(0) == Seq::<Seq<char>>::empty());
    while i < n
        invariant
            i <= n,
            n + 1 == p.len(),
            t == texts(p@),
            t == pieces(s@, ':'),
            t.len() == p.len(),
            front == t.drop_last(),
            s@.len() > 0,
            plain_groups(front.take(i as int)) == Some(ints(out@)),
        decreases n - i,
    {
        let ghost before = out@;
        assert(front.take(i + 1).drop_last() == front.take(i as int));
        assert(front.take(i + 1).last() == p@[i as int]@);
        match read_group(p[i].as_str()) {
            Some(v) => {
                out.push(v);
                assert(ints(out@) == ints(before).push(v as int));
            },
            None => {
                proof {
                    lemma_plain_groups_stay(front, i + 1);
                }
                return None;
            },
        }
        i = i + 1;
    }
    assert(front.take(front.len() as int) == front);
    assert(t.last() == p@[n as int]@);
    let ghost before = out@;
    match read_group(p[n].as_str()) {
        Some(v) => {
            out.push(v);
            assert(ints(out@) == ints(before).push(v as int));
            Some(out)
        },
        None => {
            if !end {
                return None;
            }
            match read_ipv4(p[n].as_str()) {
                Some((a, b, c, d)) => {
                    let x: u16 = (a as u16) * 256 + b as u16;
                    let y: u16 = (c as u16) * 256 + d as u16;
                    out.push(x);
                    out.push(y);
                    assert(ints(out@) == ints(before).push(x as int).push(y as int));
                    Some(out)
                },
                None => None,
            }
        },
    }
}

fn find_double_colon(a: &Vec<char>) -> (r: Option<usize>)
    ensures
        match r {
            Some(i) => double_colon(a@, 0) == Some(i as int) && i + 2 <= a.len(),
            None => double_colon(a@, 0) is None,
        },
{
    let mut i: usize = 0;
    while i < a.len() && a.len() - i >= 2
        invariant
            i <= a.len(),
            double_colon(a@, 0) == double_colon(a@, i as int),
        decreases a.len() - i,
    {
        if a[i] == ':' && a[i + 1] == ':' {
            return Some(i);
        }
        i = i + 1;
    }
    None
}

/// Reads an IPv6 address.
pub fn read_ipv6(s: &str) -> (r: Option<Vec<u16>>)
    ensures
        match r {
            Some(g) => g.len() == 8 && ipv6(s@) == Some(ints(g@)),
            None => ipv6(s@) is None,
        },
{
    let a: Vec<char> = chars(s);
    match find_double_colon(&a) {
        None => match read_groups(s, true) {
            Some(g) => {
                assert(ints(g@).len() == g.len());
                if g.len() == 8 {
                    Some(g)
                } else {
                    None
                }
            },
            None => None,
        },
        Some(i) => {
            let head: String = from_chars(sub_chars(a.as_slice(), 0, i).as_slice());
            let tail: String = from_chars(sub_chars(a.as_slice(), i + 2, a.len()).as_slice());
            assert(head@ == s@.take(i as int));
            assert(tail@ == s@.skip(i + 2));
            let h: Vec<u16> = match read_groups(head.as_str(), false) {
                Some(g) => g,
                None => {
                    return None;
                },
            };
            let t: Vec<u16> = match read_groups(tail.as_str(), true) {
                Some(g) => g,
                None => {
                    return None;
                },
            };
            assert(ints(h@).len() == h.len());
            assert(ints(t@).len() == t.len());
            if h.len() > 7 || t.len() > 7 || h.len() + t.len() > 7 {
                return None;
            }
            let ghost hv = h@;
            let ghost tv = t@;
            let mut out: Vec<u16> = h;
            let zeros: usize = 8 - out.len() - t.len();
            let mut k: usize = 0;
            while k < zeros
                invariant
                    k <= zeros,
                    out@ == hv + Seq::new(k as nat, |j: int| 0u16),
                decreases zeros - k,
            {
                out.push(0);
                k = k + 1;
                assert(out@ =~= hv + Seq::new(k as nat, |j: int| 0u16));
            }
            let mut m: usize = 0;
            let ghost mid = out@;
            while m < t.len()
                invariant
                    m <= t.len(),
                    t@ == tv,
                    out@ == mid + tv.take(m as int),
                decreases t.len() - m,
            {
                out.push(t[m]);
                m = m + 1;
                assert(tv.take(m as int) == tv.take(m - 1).push(tv[m - 1]));
            }
            assert(tv.take(tv.len() as int) == tv);
            assert(ints(out@) =~= ints(hv) + Seq::new(
                (8 - ints(hv).len() - ints(tv).len()) as nat,
                |j: int| 0int,
            ) + ints(tv));
            Some(out)
        },
    }
}

} // verus!
