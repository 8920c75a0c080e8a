//! Socket addresses: an address and a port in one text, and the usual way to
//! write an address.

use crate::ip::{hex_char, hex_digit_of, ints, ipv4, ipv6, read_ipv4, read_ipv6};
use crate::text::{
    cat2, cat3, chars, dec, decimal, digits_value, from_chars, pieces, read_digits, split,
    sub_chars, texts,
};
use vstd::prelude::*;

verus! {

/// Where the last colon stands.
pub open spec fn last_colon(s: Seq<char>) -> Option<int>
    decreases s.len(),
{
    if s.len() == 0 {
        None
    } else if s.last() == ':' {
        Some(s.len() - 1)
    } else {
        last_colon(s.drop_last())
    }
}

/// Finds the last colon.
pub fn find_last_colon(v: &Vec<char>) -> (r: Option<usize>)
    ensures
        match r {
            Some(i) => i < v.len() && last_colon(v@) == Some(i as int),
            None => last_colon(v@) is None,
        },
{
    let mut n: usize = v.len();
    assert(v@.take(v@.len() as int) == v@);
    while n > 0
        invariant
            n <= v.len(),
            last_colon(v@) == last_colon(v@.take(n as int)),
        decreases n,
    {
        assert(v@.take(n as int).drop_last() == v@.take(n - 1));
        if v[n - 1] == ':' {
            return Some(n - 1);
        }
        n = n - 1;
    }
    None
}

/// A number in hexadecimal, without leading zeros.
pub open spec fn hexadecimal(n: nat) -> Seq<char>
    decreases n,
{
    if n < 16 {
        seq![hex_char(n as int)]
    } else {
        hexadecimal(n / 16).push(hex_char(n as int % 16))
    }
}

/// Writes a number in hexadecimal.
fn write_hexadecimal(n: u16) -> (r: String)
    ensures
        r@ == hexadecimal(n as nat),
    decreases n,
{
    let c: char = hex_digit_of((n % 16) as u8);
    if n < 16 {
        let mut r: String = String::new();
        r.push(c);
        assert(r@ == seq![hex_char(n as int)]);
        r
    } else {
        let mut r: String = write_hexadecimal(n / 16);
        r.push(c);
        r
    }
}

/// Groups in hexadecimal, with colons between them.
pub open spec fn grouped(g: Seq<int>) -> Seq<char>
    decreases g.len(),
{
    if g.len() == 0 {
        Seq::empty()
    } else if g.len() == 1 {
        hexadecimal(g[0] as nat)
    } else {
        grouped(g.drop_last()) + ":"@ + hexadecimal(g.last() as nat)
    }
}

/// How many groups of zero there are from `i` on.
pub open spec fn zero_run(g: Seq<int>, i: int) -> int
    decreases g.len() - i,
{
    if 0 <= i < g.len() && g[i] == 0 {
        1 + zero_run(g, i + 1)
    } else {
        0
    }
}

/// Where the longest run of groups of zero begins, of those that begin before
/// `n`, and how long it is. The first of several counts.
pub open spec fn longest_run(g: Seq<int>, n: int) -> (int, int)
    decreases n,
{
    if n <= 0 {
        (0, 0)
    } else {
        let before = longest_run(g, n - 1);
        let here = zero_run(g, n - 1);
        if here > before.1 {
            (n - 1, here)
        } else {
            before
        }
    }
}

/// Whether an IPv6 address stands for an IPv4 address.
pub open spec fn mapped(g: Seq<int>) -> bool {
    g[0] == 0 && g[1] == 0 && g[2] == 0 && g[3] == 0 && g[4] == 0 && g[5] == 65535
}

/// An IPv4 address in text.
pub open spec fn dotted(a: int, b: int, c: int, d: int) -> Seq<char> {
    decimal(a as nat) + "."@ + decimal(b as nat) + "."@ + decimal(c as nat) + "."@ + decimal(
        d as nat,
    )
}

/// An IPv6 address in text: the longest run of two or more groups of zero is
/// left out, and an IPv4 address that it stands for is written with dots.
pub open spec fn ipv6_text(g: Seq<int>) -> Seq<char> {
    let (from, len) = longest_run(g, g.len() as int);
    if mapped(g) {
        "::ffff:"@ + dotted(g[6] / 256, g[6] % 256, g[7] / 256, g[7] % 256)
    } else if len > 1 {
        grouped(g.take(from)) + "::"@ + grouped(g.skip(from + len))
    } else {
        grouped(g)
    }
}

/// Writes the groups from `from` up to `to`.
fn write_groups(g: &Vec<u16>, from: usize, to: usize) -> (r: String)
    requires
        from <= to <= g.len(),
    ensures
        r@ == grouped(ints(g@).subrange(from as int, to as int)),
    decreases to - from,
{
    let ghost part = ints(g@).subrange(from as int, to as int);
    if from == to {
        let r: String = String::new();
        assert(r@ == Seq::<char>::empty());
        return r;
    }
    let last: String = write_hexadecimal(g[to - 1]);
    if to - from == 1 {
        return last;
    }
    let front: String = write_groups(g, from, to - 1);
    assert(part.drop_last() == ints(g@).subrange(from as int, to - 1));
    cat3(front.as_str(), ":", last.as_str())
}

/// Counts the groups of zero from `i` on.
fn count_zeros(g: &Vec<u16>, i: usize) -> (r: usize)
    requires
        i <= g.len(),
    ensures
        r == zero_run(ints(g@), i as int),
        r <= g.len() - i,
    decreases g.len() - i,
{
    if i < g.len() && g[i] == 0 {
        1 + count_zeros(g, i + 1)
    } else {
        0
    }
}

/// Writes an IPv6 address.
pub fn write_ipv6(g: &Vec<u16>) -> (r: String)
    requires
        g.len() == 8,
    ensures
        r@ == ipv6_text(ints(g@)),
{
    let ghost all = ints(g@);
    if g[0] == 0 && g[1] == 0 && g[2] == 0 && g[3] == 0 && g[4] == 0 && g[5] == 65535 {
        let left: String = cat3(
            dec((g[6] / 256) as u64).as_str(),
            ".",
            dec((g[6] % 256) as u64).as_str(),
        );
        let right: String = cat3(
            dec((g[7] / 256) as u64).as_str(),
            ".",
            dec((g[7] % 256) as u64).as_str(),
        );
        let text: String = cat3(left.as_str(), ".", right.as_str());
        assert(text@ =~= dotted(all[6] / 256, all[6] % 256, all[7] / 256, all[7] % 256));
        return cat2("::ffff:", text.as_str());
    }
    let mut from: usize = 0;
    let mut len: usize = 0;
    let mut i: usize = 0;
    while i < 8
        invariant
            i <= 8,
            g.len() == 8,
            all == ints(g@),
            (from as int, len as int) == longest_run(all, i as int),
            from + len <= 8,
        decreases 8 - i,
    {
        let here: usize = count_zeros(g, i);
        if here > len {
            from = i;
            len = here;
        }
        i = i + 1;
    }
    assert(all.subrange(0, 8) =~= all);
    if len > 1 {
        assert(all.subrange(0, from as int) =~= all.take(from as int));
        assert(all.subrange(from + len, 8) =~= all.skip(from + len));
        let head: String = write_groups(g, 0, from);
        let tail: String = write_groups(g, from + len, 8);
        cat3(head.as_str(), "::", tail.as_str())
    } else {
        write_groups(g, 0, 8)
    }
}

/// A number of digits alone, up to `max`.
pub open spec fn plain_number(s: Seq<char>, max: nat) -> Option<nat> {
    if s.len() == 0 {
        None
    } else {
        match digits_value(s, max) {
            Ok(v) => Some(v),
            Err(_) => None,
        }
    }
}

/// The IPv6 address between brackets, which a percent sign and the number of a
/// zone may follow.
pub open spec fn bracketed(s: Seq<char>) -> Option<Seq<int>> {
    if s.len() < 2 || s[0] != '[' || s.last() != ']' {
        None
    } else {
        let p = pieces(s.subrange(1, s.len() - 1), '%');
        if p.len() == 1 || (p.len() == 2 && plain_number(p[1], 4294967295) is Some) {
            ipv6(p[0])
        } else {
            None
        }
    }
}

/// The address and the port of a socket address: an IPv4 address, or an IPv6
/// address between brackets, then a colon and the port. The address is written
/// in the usual way.
pub open spec fn socket(s: Seq<char>) -> Option<(Seq<char>, u16)> {
    match last_colon(s) {
        None => None,
        Some(i) => match plain_number(s.skip(i + 1), 65535) {
            None => None,
            Some(port) => if ipv4(s.take(i)) is Some {
                Some((s.take(i), port as u16))
            } else {
                match bracketed(s.take(i)) {
                    Some(g) => Some((ipv6_text(g), port as u16)),
                    None => None,
                }
            },
        },
    }
}

fn read_plain(a: &Vec<char>, max: u64) -> (r: Option<u64>)
    ensures
        match r {
            Some(v) => plain_number(a@, max as nat) == Some(v as nat) && v <= max,
            None => plain_number(a@, max as nat) is None,
        },
{
    if a.len() == 0 {
        return None;
    }
    match read_digits(a.as_slice(), max) {
        Ok(v) => Some(v),
        Err(_) => None,
    }
}

fn read_bracketed(a: &Vec<char>) -> (r: Option<Vec<u16>>)
    ensures
        match r {
            Some(g) => g.len() == 8 && bracketed(a@) == Some(ints(g@)),
            None => bracketed(a@) is None,
        },
{
    if a.len() < 2 || a[0] != '[' || a[a.len() - 1] != ']' {
        return None;
    }
    let inner: String = from_chars(sub_chars(a.as_slice(), 1, a.len() - 1).as_slice());
    let p: Vec<String> = split(inner.as_str(), '%');
    assert(inner@ == a@.subrange(1, a@.len() - 1));
    assert(texts(p@).len() == p.len());
    assert(p.len() > 0 ==> texts(p@)[0] == p@[0]@);
    assert(p.len() > 1 ==> texts(p@)[1] == p@[1]@);
    if p.len() == 1 {
        return read_ipv6(p[0].as_str());
    }
    if p.len() == 2 {
        let zone: Vec<char> = chars(p[1].as_str());
        if read_plain(&zone, 4294967295).is_some() {
            return read_ipv6(p[0].as_str());
        }
    }
    None
}

/// A socket address by what it holds.
pub open spec fn socket_seen(s: Option<(String, u16)>) -> Option<(Seq<char>, u16)> {
    match s {
        Some(p) => Some((p.0@, p.1)),
        None => None,
    }
}

/// Reads a socket address.
pub fn read_socket(s: &str) -> (r: Option<(String, u16)>)
    ensures
        socket_seen(r) == socket(s@),
{
    let v: Vec<char> = chars(s);
    let i: usize = match find_last_colon(&v) {
        Some(i) => i,
        None => {
            return None;
        },
    };
    let tail: Vec<char> = sub_chars(v.as_slice(), i + 1, v.len());
    let head: Vec<char> = sub_chars(v.as_slice(), 0, i);
    assert(tail@ == s@.skip(i + 1));
    assert(head@ == s@.take(i as int));
    let port: u16 = match read_plain(&tail, 65535) {
        Some(p) => p as u16,
        None => {
            return None;
        },
    };
    let host: String = from_chars(head.as_slice());
    if read_ipv4(host.as_str()).is_some() {
        return Some((host, port));
    }
    match read_bracketed(&head) {
        Some(g) => Some((write_ipv6(&g), port)),
        None => None,
    }
}

} // verus!
