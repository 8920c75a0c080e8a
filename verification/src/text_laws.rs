//! What holds of texts: pieces between separators, white space at the ends,
//! decimal numbers, addresses.

use crate::ip::{
    double_colon, group, groups, hex_char, hex_digit, hex_run, ipv4, ipv6, octet, plain_groups,
};
use crate::socket::{hexadecimal, last_colon, plain_number, socket};
use crate::text::{
    begins, decimal, digits_value, law_decimal_is_read_back, lowered, number, pieces, trimmed,
    trimmed_end, trimmed_start, white, IntError,
};
use vstd::prelude::*;
use vstd::string::*;

verus! {

proof fn lemma_one_piece(a: Seq<char>, c: char)
    requires
        !a.contains(c),
    ensures
        pieces(a, c) == seq![a],
    decreases a.len(),
{
    if a.len() > 0 {
        let front = a.drop_last();
        assert(!front.contains(c)) by {
            if front.contains(c) {
                let i = choose|i: int| 0 <= i < front.len() && front[i] == c;
                assert(a[i] == c);
            }
        }
        lemma_one_piece(front, c);
        assert(a.last() != c) by {
            assert(a.contains(a[a.len() - 1]));
        }
        assert(front.push(a.last()) =~= a);
        assert(pieces(a, c) =~= seq![a]);
    } else {
        assert(a =~= Seq::empty());
    }
}

/// A text falls into what stands before its first separator and the pieces of
/// what stands behind it. A text without one is its own only piece.
pub proof fn law_pieces_stand_between_separators(a: Seq<char>, c: char, b: Seq<char>)
    requires
        !a.contains(c),
    ensures
        pieces(a, c) == seq![a],
        pieces(a + seq![c] + b, c) == seq![a] + pieces(b, c),
        pieces(b, c).len() > 0,
    decreases b.len(),
{
    lemma_one_piece(a, c);
    let s = a + seq![c] + b;
    if b.len() == 0 {
        assert(b =~= Seq::empty());
        assert(s.drop_last() =~= a);
        assert(s.last() == c);
        assert(pieces(s, c) =~= seq![a] + seq![Seq::<char>::empty()]);
    } else {
        let front = b.drop_last();
        law_pieces_stand_between_separators(a, c, front);
        assert(s.drop_last() =~= a + seq![c] + front);
        assert(s.last() == b.last());
        let p = pieces(front, c);
        assert((seq![a] + p).last() == p.last());
        assert((seq![a] + p).drop_last() =~= seq![a] + p.drop_last());
        assert(pieces(s, c) =~= seq![a] + pieces(b, c));
    }
}

proof fn lemma_trim_start(w: Seq<char>, s: Seq<char>)
    requires
        forall|i: int| 0 <= i < w.len() ==> white(#[trigger] w[i]),
        s.len() > 0 ==> !white(s[0]),
    ensures
        trimmed_start(w + s) == s,
    decreases w.len(),
{
    if w.len() > 0 {
        assert((w + s)[0] == w[0]);
        assert((w + s).skip(1) =~= w.skip(1) + s);
        assert forall|i: int| 0 <= i < w.skip(1).len() implies white(#[trigger] w.skip(1)[i]) by {
            assert(white(w[i + 1]));
        }
        lemma_trim_start(w.skip(1), s);
    } else {
        assert(w + s =~= s);
    }
}

proof fn lemma_trim_end(s: Seq<char>, w: Seq<char>)
    requires
        forall|i: int| 0 <= i < w.len() ==> white(#[trigger] w[i]),
        s.len() > 0 ==> !white(s.last()),
    ensures
        trimmed_end(s + w) == s,
    decreases w.len(),
{
    if w.len() > 0 {
        assert((s + w).last() == w[w.len() - 1]);
        assert((s + w).drop_last() =~= s + w.drop_last());
        lemma_trim_end(s, w.drop_last());
    } else {
        assert(s + w =~= s);
    }
}

/// White space at the ends goes, and nothing else: what begins and ends with
/// other characters is kept whole.
pub proof fn law_only_the_ends_are_trimmed(w: Seq<char>, s: Seq<char>, v: Seq<char>)
    requires
        forall|i: int| 0 <= i < w.len() ==> white(#[trigger] w[i]),
        forall|i: int| 0 <= i < v.len() ==> white(#[trigger] v[i]),
        s.len() > 0,
        !white(s[0]),
        !white(s.last()),
    ensures
        trimmed(w + s + v) == s,
        trimmed(s) == s,
        white(' ') && white('\t') && white('\n') && white('\r'),
{
    assert(w + s + v =~= w + (s + v));
    assert((s + v)[0] == s[0]);
    lemma_trim_start(w, s + v);
    lemma_trim_end(s, v);
    let e = Seq::<char>::empty();
    assert(e + s =~= s);
    lemma_trim_start(e, s);
    assert(s + e =~= s);
    lemma_trim_end(s, e);
}

/// Printable ASCII characters but the blank are no white space.
pub proof fn law_what_is_printed_is_not_white(c: char)
    requires
        '!' <= c <= '~',
    ensures
        !white(c),
{
}

/// A number is read digit by digit: the digits so far stand for ten times as
/// much with every further one. A sign alone, nothing, and anything that is no
/// digit are no numbers, and neither is one above the bound.
pub proof fn law_a_number_is_read_digit_by_digit(s: Seq<char>, c: char, max: nat)
    requires
        s.len() > 0,
        s[0] != '+',
        s.len() == 1 ==> s[0] != '-',
    ensures
        number(Seq::empty(), max) is Err,
        '0' <= c <= '9' ==> match number(s, max) {
            Ok(v) => if 10 * v + (c as int - '0' as int) <= max {
                number(s.push(c), max) == Ok::<nat, IntError>(
                    (10 * v + (c as int - '0' as int)) as nat,
                )
            } else {
                number(s.push(c), max) == Err::<nat, IntError>(IntError::TooLarge)
            },
            Err(e) => number(s.push(c), max) == Err::<nat, IntError>(e),
        },
        !('0' <= c <= '9') ==> number(s.push(c), max) is Err,
        '0' <= c <= '9' && max >= 9 ==> number(seq![c], max) == Ok::<nat, IntError>(
            (c as int - '0' as int) as nat,
        ),
        number(seq!['+'] + s, max) == digits_value(s, max),
        number(seq!['+'], max) is Err && number(seq!['-'], max) is Err,
{
    assert(s.push(c).drop_last() =~= s);
    assert((seq!['+'] + s).skip(1) =~= s);
    let one = seq![c];
    assert(one.drop_last() =~= Seq::empty());
    reveal_with_fuel(digits_value, 2);
}

/// A number in decimal: one digit where it is below ten, else the digits of a
/// tenth of it and its last digit.
pub proof fn law_decimal_digits(n: nat, d: nat)
    requires
        d < 10,
    ensures
        decimal(d) == seq![(48 + d) as char],
        n > 0 ==> decimal(10 * n + d) == decimal(n) + seq![(48 + d) as char],
{
    reveal(decimal);
    assert(decimal(d) =~= seq![(48 + d) as char]);
    if n > 0 {
        assert((10 * n + d) / 10 == n && (10 * n + d) % 10 == d);
        assert(decimal(n).push((48 + d) as char) =~= decimal(n) + seq![(48 + d) as char]);
    }
}

/// A text begins with another where that and a rest make it up.
pub proof fn law_a_text_begins_with_its_beginning(p: Seq<char>, rest: Seq<char>, s: Seq<char>)
    ensures
        begins(p + rest, p),
        begins(s, p) ==> s == p + s.skip(p.len() as int),
        s.len() < p.len() ==> !begins(s, p),
{
    assert((p + rest).take(p.len() as int) =~= p);
    if begins(s, p) {
        assert(s =~= s.take(p.len() as int) + s.skip(p.len() as int));
    }
}

/// Letters are told apart without regard to case, and only letters.
pub proof fn law_lower_case(s: Seq<char>, i: int)
    requires
        0 <= i < s.len(),
    ensures
        lowered(s).len() == s.len(),
        lowered(lowered(s)) == lowered(s),
        'A' <= s[i] <= 'Z' ==> lowered(s)[i] as int == s[i] as int + 32,
        !('A' <= s[i] <= 'Z') ==> lowered(s)[i] == s[i],
{
    assert forall|j: int| 0 <= j < s.len() implies #[trigger] lowered(lowered(s))[j] == lowered(
        s,
    )[j] by {}
    assert(lowered(lowered(s)) =~= lowered(s));
}

proof fn lemma_decimal_has_no_mark(n: nat, c: char)
    requires
        !('0' <= c <= '9'),
    ensures
        !decimal(n).contains(c),
    decreases n,
{
    reveal(decimal);
    if n >= 10 {
        lemma_decimal_has_no_mark(n / 10, c);
    }
    assert forall|i: int| 0 <= i < decimal(n).len() implies decimal(n)[i] != c by {
        if n >= 10 && i < decimal(n / 10).len() {
            assert(decimal(n / 10).contains(decimal(n / 10)[i]));
        }
    }
}

proof fn lemma_octet(n: nat)
    requires
        n < 256,
    ensures
        octet(decimal(n)) == Some(n as int),
{
    reveal_with_fuel(decimal, 4);
    law_decimal_is_read_back(n, 255);
    let s = decimal(n);
    if n < 10 {
        assert(s.len() == 1);
    } else if n < 100 {
        assert(s.len() == 2);
        assert(s[0] == decimal(n / 10)[0]);
    } else {
        assert(s.len() == 3);
        assert(s[0] == decimal(n / 10)[0]);
        assert(decimal(n / 10)[0] == decimal(n / 10 / 10)[0]);
    }
}

/// An IPv4 address is four numbers up to 255 with dots between them.
pub proof fn law_four_numbers_are_an_address(a: nat, b: nat, c: nat, d: nat)
    requires
        a < 256,
        b < 256,
        c < 256,
        d < 256,
    ensures
        ipv4(
            decimal(a) + seq!['.'] + (decimal(b) + seq!['.'] + (decimal(c) + seq!['.'] + decimal(
                d,
            ))),
        ) == Some((a as int, b as int, c as int, d as int)),
{
    lemma_octet(a);
    lemma_octet(b);
    lemma_octet(c);
    lemma_octet(d);
    lemma_decimal_has_no_mark(a, '.');
    lemma_decimal_has_no_mark(b, '.');
    lemma_decimal_has_no_mark(c, '.');
    lemma_decimal_has_no_mark(d, '.');
    let z = decimal(d);
    let y = decimal(c) + seq!['.'] + z;
    let x = decimal(b) + seq!['.'] + y;
    lemma_one_piece(z, '.');
    law_pieces_stand_between_separators(decimal(c), '.', z);
    law_pieces_stand_between_separators(decimal(b), '.', y);
    law_pieces_stand_between_separators(decimal(a), '.', x);
    let s = decimal(a) + seq!['.'] + x;
    assert(pieces(s, '.') =~= seq![decimal(a), decimal(b), decimal(c), decimal(d)]);
}

/// A hexadecimal digit is worth what it says, in either case.
pub proof fn law_hexadecimal_digits(c: char, n: int)
    requires
        0 <= n < 16,
    ensures
        hex_digit(hex_char(n)) == Some(n),
        hex_digit('0') == Some(0int) && hex_digit('9') == Some(9int) && hex_digit('a') == Some(
            10int,
        ) && hex_digit('f') == Some(15int) && hex_digit('A') == Some(10int) && hex_digit('F')
            == Some(15int) && hex_digit('g') is None,
        '0' <= c <= '9' ==> hex_digit(c) == Some(c as int - '0' as int),
        'a' <= c <= 'f' ==> hex_digit(c) == Some(c as int - 'a' as int + 10),
        'A' <= c <= 'F' ==> hex_digit(c) == Some(c as int - 'A' as int + 10),
        !('0' <= c <= '9') && !('a' <= c <= 'f') && !('A' <= c <= 'F') ==> hex_digit(c) is None,
{
}

/// A number in hexadecimal is read back.
pub proof fn law_hexadecimal_is_read_back(n: nat)
    ensures
        hex_run(hexadecimal(n)) == Some(n as int),
        hexadecimal(n).len() > 0,
    decreases n,
{
    reveal_with_fuel(hex_run, 2);
    if n >= 16 {
        law_hexadecimal_is_read_back(n / 16);
        assert(hexadecimal(n).drop_last() =~= hexadecimal(n / 16));
        law_hexadecimal_digits('0', n as int % 16);
    } else {
        law_hexadecimal_digits('0', n as int);
        assert(hexadecimal(n).drop_last() =~= Seq::empty());
    }
}

proof fn lemma_last_colon(a: Seq<char>, b: Seq<char>)
    requires
        !b.contains(':'),
    ensures
        last_colon(a + seq![':'] + b) == Some(a.len() as int),
    decreases b.len(),
{
    let s = a + seq![':'] + b;
    if b.len() == 0 {
        assert(s.last() == ':');
    } else {
        let front = b.drop_last();
        assert(!front.contains(':')) by {
            if front.contains(':') {
                let i = choose|i: int| 0 <= i < front.len() && front[i] == ':';
                assert(b[i] == ':');
            }
        }
        assert(b.last() != ':') by {
            assert(b.contains(b[b.len() - 1]));
        }
        assert(s.drop_last() =~= a + seq![':'] + front);
        assert(s.last() == b.last());
        lemma_last_colon(a, front);
    }
}

/// An IPv4 address, a colon and a port are a socket address: that address, as it
/// was written, and that port.
pub proof fn law_an_address_and_a_port(host: Seq<char>, port: nat)
    requires
        ipv4(host) is Some,
        port < 65536,
    ensures
        socket(host + seq![':'] + decimal(port)) == Some((host, port as u16)),
{
    let s = host + seq![':'] + decimal(port);
    lemma_decimal_has_no_mark(port, ':');
    lemma_last_colon(host, decimal(port));
    assert(s.take(host.len() as int) =~= host);
    assert(s.skip(host.len() as int + 1) =~= decimal(port));
    lemma_plain(port);
}

proof fn lemma_plain(port: nat)
    requires
        port < 65536,
    ensures
        plain_number(decimal(port), 65535) == Some(port),
{
    law_decimal_is_read_back(port, 65535);
    lemma_decimal_starts(port);
}

proof fn lemma_decimal_starts(n: nat)
    ensures
        decimal(n).len() > 0,
        '0' <= decimal(n)[0] <= '9',
    decreases n,
{
    reveal(decimal);
    if n >= 10 {
        lemma_decimal_starts(n / 10);
        assert(decimal(n)[0] == decimal(n / 10)[0]);
    }
}

/// A number in decimal has digits alone.
pub proof fn law_decimal_has_digits_alone(n: nat, i: int)
    requires
        0 <= i < decimal(n).len(),
    ensures
        '0' <= decimal(n)[i] <= '9',
{
    let c = decimal(n)[i];
    if !('0' <= c <= '9') {
        lemma_decimal_has_no_mark(n, c);
        assert(decimal(n).contains(c));
    }
}

proof fn lemma_groups_in_turn(x: Seq<char>, p: Seq<Seq<char>>)
    ensures
        plain_groups(seq![x] + p) == match (group(x), plain_groups(p)) {
            (Some(v), Some(g)) => Some(seq![v] + g),
            _ => None,
        },
    decreases p.len(),
{
    let q = seq![x] + p;
    if p.len() == 0 {
        reveal_with_fuel(plain_groups, 2);
        assert(q =~= seq![x]);
        assert(q.drop_last() =~= p);
        if group(x) is Some {
            assert(Seq::<int>::empty().push(group(x)->0) =~= seq![group(x)->0] + Seq::<
                int,
            >::empty());
        }
    } else {
        lemma_groups_in_turn(x, p.drop_last());
        assert(q.drop_last() =~= seq![x] + p.drop_last());
        assert(q.last() == p.last());
        if group(x) is Some && plain_groups(p) is Some {
            let g = plain_groups(p.drop_last())->0;
            let v = group(p.last())->0;
            assert((seq![group(x)->0] + g).push(v) =~= seq![group(x)->0] + g.push(v));
        }
    }
}

/// The groups of an IPv6 address are hexadecimal numbers of one to four digits
/// between colons; at the end four decimal ones may stand for the last two.
pub proof fn law_groups_stand_between_colons(n: nat, s: Seq<char>, end: bool)
    requires
        hexadecimal(n).len() <= 4,
        !hexadecimal(n).contains(':'),
        s.len() > 0,
    ensures
        group(hexadecimal(n)) == Some(n as int),
        groups(s, end) is Some ==> groups(hexadecimal(n) + seq![':'] + s, end) == Some(
            seq![n as int] + groups(s, end)->0,
        ),
        groups(s, end) is None ==> groups(hexadecimal(n) + seq![':'] + s, end) is None,
        groups(hexadecimal(n), end) == Some(seq![n as int]),
        groups(Seq::empty(), end) == Some(Seq::<int>::empty()),
        ipv4(s) is Some && group(s) is None && !s.contains(':') ==> groups(s, true) == Some(
            {
                let (a, b, c, d) = ipv4(s)->0;
                seq![a * 256 + b, c * 256 + d]
            },
        ) && groups(s, false) is None,
{
    law_hexadecimal_is_read_back(n);
    let h = hexadecimal(n);
    law_pieces_stand_between_separators(h, ':', s);
    let p = pieces(s, ':');
    let q = pieces(h + seq![':'] + s, ':');
    assert(q == seq![h] + p);
    assert(q.drop_last() =~= seq![h] + p.drop_last());
    lemma_groups_in_turn(h, p.drop_last());
    if groups(s, end) is Some {
        let g = plain_groups(p.drop_last())->0;
        match group(p.last()) {
            Some(v) => {
                assert((seq![n as int] + g).push(v) =~= seq![n as int] + g.push(v));
            },
            None => {
                let (a, b, c, d) = ipv4(p.last())->0;
                assert((seq![n as int] + g).push(a * 256 + b).push(c * 256 + d) =~= seq![n as int]
                    + g.push(a * 256 + b).push(c * 256 + d));
            },
        }
    }
    let hp = pieces(h, ':');
    assert(hp =~= seq![h]);
    assert(hp.drop_last() =~= Seq::empty());
    assert(Seq::<int>::empty().push(n as int) =~= seq![n as int]);
    if !s.contains(':') {
        law_pieces_stand_between_separators(s, ':', Seq::empty());
        assert(p =~= seq![s]);
        assert(p.drop_last() =~= Seq::empty());
        if ipv4(s) is Some {
            let (a, b, c, d) = ipv4(s)->0;
            assert(Seq::<int>::empty().push(a * 256 + b).push(c * 256 + d) =~= seq![
                a * 256 + b,
                c * 256 + d,
            ]);
        }
    }
}

/// An IPv6 address has eight groups; `::` stands for as many zeros as are
/// missing, at least one.
pub proof fn law_two_colons_stand_for_zeros(a: Seq<char>, b: Seq<char>, i: int)
    requires
        double_colon(a + seq![':', ':'] + b, 0) == Some(a.len() as int),
        groups(a, false) is Some,
        groups(b, true) is Some,
    ensures
        ({
            let s = a + seq![':', ':'] + b;
            let x = groups(a, false)->0;
            let y = groups(b, true)->0;
            &&& ipv6(s) is Some <==> x.len() + y.len() < 8
            &&& ipv6(s) is Some ==> {
                &&& ipv6(s)->0.len() == 8
                &&& 0 <= i < x.len() ==> ipv6(s)->0[i] == x[i]
                &&& x.len() <= i < 8 - y.len() ==> ipv6(s)->0[i] == 0
                &&& 8 - y.len() <= i < 8 ==> ipv6(s)->0[i] == y[i - (8 - y.len())]
            }
        }),
        double_colon(b, 0) is None ==> (ipv6(b) is Some <==> groups(b, true)->0.len() == 8),
        double_colon(b, 0) is None && ipv6(b) is Some ==> ipv6(b) == groups(b, true),
{
    let s = a + seq![':', ':'] + b;
    assert(s.take(a.len() as int) =~= a);
    assert(s.skip(a.len() + 2int) =~= b);
}

} // verus!
