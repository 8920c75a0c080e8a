//! Text as sequences of characters: searching, trimming, decimal numbers.

use vstd::prelude::*;
use vstd::string::*;
use vstd::utf8::*;

verus! {

/// `String::push` appends one character at the end.
pub assume_specification[ String::push ](s: &mut String, c: char)
    ensures
        final(s)@ == old(s)@.push(c),
;

/// The characters of a string slice.
pub fn chars(s: &str) -> (r: Vec<char>)
    ensures
        r@ == s@,
{
    let mut r: Vec<char> = Vec::new();
    for c in it: s.chars()
        invariant
            r@ == it.seq().take(it.index() as int),
            it.seq() == s@,
    {
        r.push(c);
    }
    r
}

/// A string that holds the given characters.
pub fn from_chars(v: &[char]) -> (r: String)
    ensures
        r@ == v@,
{
    let mut r: String = String::new();
    let mut i: usize = 0;
    while i < v.len()
        invariant
            i <= v.len(),
            r@ == v@.take(i as int),
        decreases v.len() - i,
    {
        r.push(v[i]);
        i = i + 1;
    }
    assert(v@.take(v@.len() as int) == v@);
    r
}

/// Whether two texts are the same.
pub fn same(a: &str, b: &str) -> (r: bool)
    ensures
        r == (a@ == b@),
{
    let x: &[u8] = a.as_bytes();
    let y: &[u8] = b.as_bytes();
    proof {
        encode_utf8_decode_utf8(a@);
        encode_utf8_decode_utf8(b@);
    }
    if x.len() != y.len() {
        return false;
    }
    let mut i: usize = 0;
    while i < x.len()
        invariant
            i <= x.len(),
            x.len() == y.len(),
            x@ == a.spec_bytes(),
            y@ == b.spec_bytes(),
            x@.take(i as int) == y@.take(i as int),
        decreases x.len() - i,
    {
        if x[i] != y[i] {
            return false;
        }
        assert(x@.take(i + 1) == x@.take(i as int).push(x@[i as int]));
        assert(y@.take(i + 1) == y@.take(i as int).push(y@[i as int]));
        i = i + 1;
    }
    assert(x@.take(x@.len() as int) == x@);
    assert(y@.take(y@.len() as int) == y@);
    true
}

/// The character of a decimal digit.
pub open spec fn digit(d: nat) -> char {
    (('0' as u32) + d) as char
}

/// A natural number in decimal, without leading zeros.
#[verifier::opaque]
pub open spec fn decimal(n: nat) -> Seq<char>
    decreases n,
{
    if n < 10 {
        seq![digit(n)]
    } else {
        decimal(n / 10).push(digit(n % 10))
    }
}

/// Renders `n` in decimal.
pub fn dec(n: u64) -> (r: String)
    ensures
        r@ == decimal(n as nat),
    decreases n,
{
    reveal(decimal);
    let d: u8 = (n % 10) as u8;
    let c: char = (48 + d) as char;
    if n < 10 {
        let mut r: String = String::new();
        r.push(c);
        assert(r@ == seq![digit(n as nat)]);
        r
    } else {
        let mut r: String = dec(n / 10);
        r.push(c);
        r
    }
}

/// `a` followed by `b`.
pub fn cat2(a: &str, b: &str) -> (r: String)
    ensures
        r@ == a@ + b@,
{
    let mut r: String = a.to_owned();
    r.append(b);
    r
}

/// `a`, `b`, `c` in order.
pub fn cat3(a: &str, b: &str, c: &str) -> (r: String)
    ensures
        r@ == a@ + b@ + c@,
{
    let mut r: String = cat2(a, b);
    r.append(c);
    r
}

/// `a`, `b`, `c`, `d` in order.
pub fn cat4(a: &str, b: &str, c: &str, d: &str) -> (r: String)
    ensures
        r@ == a@ + b@ + c@ + d@,
{
    let mut r: String = cat3(a, b, c);
    r.append(d);
    r
}

/// `a`, `b`, `c`, `d`, `e` in order.
pub fn cat5(a: &str, b: &str, c: &str, d: &str, e: &str) -> (r: String)
    ensures
        r@ == a@ + b@ + c@ + d@ + e@,
{
    let mut r: String = cat4(a, b, c, d);
    r.append(e);
    r
}

/// Whether `s` begins with `p`.
pub open spec fn begins(s: Seq<char>, p: Seq<char>) -> bool {
    p.len() <= s.len() && s.take(p.len() as int) == p
}

/// Whether the characters `s` begin with `p`.
pub fn begins_chars(s: &[char], p: &[char]) -> (r: bool)
    ensures
        r == begins(s@, p@),
{
    if p.len() > s.len() {
        return false;
    }
    let mut i: usize = 0;
    while i < p.len()
        invariant
            i <= p.len(),
            p.len() <= s.len(),
            s@.take(i as int) == p@.take(i as int),
        decreases p.len() - i,
    {
        if s[i] != p[i] {
            assert(s@.take(p@.len() as int)[i as int] == s@[i as int]);
            return false;
        }
        assert(s@.take(i + 1) == s@.take(i as int).push(s@[i as int]));
        assert(p@.take(i + 1) == p@.take(i as int).push(p@[i as int]));
        i = i + 1;
    }
    assert(p@.take(p@.len() as int) == p@);
    true
}

/// Whether `s` begins with `p`.
pub fn starts_with(s: &str, p: &str) -> (r: bool)
    ensures
        r == begins(s@, p@),
{
    let a: Vec<char> = chars(s);
    let b: Vec<char> = chars(p);
    begins_chars(a.as_slice(), b.as_slice())
}

/// The part of `v` from `from` up to `to`.
pub fn sub_chars(v: &[char], from: usize, to: usize) -> (r: Vec<char>)
    requires
        from <= to <= v.len(),
    ensures
        r@ == v@.subrange(from as int, to as int),
{
    let mut r: Vec<char> = Vec::new();
    let mut i: usize = from;
    while i < to
        invariant
            from <= i <= to <= v.len(),
            r@ == v@.subrange(from as int, i as int),
        decreases to - i,
    {
        r.push(v[i]);
        i = i + 1;
        assert(v@.subrange(from as int, i as int) == v@.subrange(from as int, i - 1).push(
            v@[i - 1],
        ));
    }
    r
}

/// What follows the prefix `p` in `s`, where `s` begins with it.
pub fn strip_prefix(s: &str, p: &str) -> (r: Option<String>)
    ensures
        match r {
            Some(t) => begins(s@, p@) && t@ == s@.skip(p@.len() as int),
            None => !begins(s@, p@),
        },
{
    let a: Vec<char> = chars(s);
    let b: Vec<char> = chars(p);
    if begins_chars(a.as_slice(), b.as_slice()) {
        let t: Vec<char> = sub_chars(a.as_slice(), b.len(), a.len());
        Some(from_chars(t.as_slice()))
    } else {
        None
    }
}

/// The code points with the Unicode property `White_Space`.
pub open spec fn white(c: char) -> bool {
    let u = c as u32;
    9 <= u <= 13 || u == 0x20 || u == 0x85 || u == 0xa0 || u == 0x1680 || 0x2000 <= u <= 0x200a
        || u == 0x2028 || u == 0x2029 || u == 0x202f || u == 0x205f || u == 0x3000
}

/// Whether `c` is white space.
pub fn is_white(c: char) -> (r: bool)
    ensures
        r == white(c),
{
    let u: u32 = c as u32;
    (9 <= u && u <= 13) || u == 0x20 || u == 0x85 || u == 0xa0 || u == 0x1680 || (0x2000 <= u && u
        <= 0x200a) || u == 0x2028 || u == 0x2029 || u == 0x202f || u == 0x205f || u == 0x3000
}

/// `s` without leading white space.
pub open spec fn trimmed_start(s: Seq<char>) -> Seq<char>
    decreases s.len(),
{
    if s.len() > 0 && white(s[0]) {
        trimmed_start(s.skip(1))
    } else {
        s
    }
}

/// `s` without trailing white space.
pub open spec fn trimmed_end(s: Seq<char>) -> Seq<char>
    decreases s.len(),
{
    if s.len() > 0 && white(s.last()) {
        trimmed_end(s.drop_last())
    } else {
        s
    }
}

/// `s` without white space at either end.
pub open spec fn trimmed(s: Seq<char>) -> Seq<char> {
    trimmed_end(trimmed_start(s))
}

/// Removes white space at both ends.
pub fn trim_chars(s: &[char]) -> (r: Vec<char>)
    ensures
        r@ == trimmed(s@),
{
    let mut a: usize = 0;
    assert(s@.skip(0) == s@);
    while a < s.len() && is_white(s[a])
        invariant
            a <= s.len(),
            trimmed_start(s@) == trimmed_start(s@.skip(a as int)),
        decreases s.len() - a,
    {
        assert(s@.skip(a as int).skip(1) == s@.skip(a + 1));
        a = a + 1;
    }
    let mut b: usize = s.len();
    assert(s@.subrange(a as int, b as int) == s@.skip(a as int));
    while a < b && is_white(s[b - 1])
        invariant
            a <= b <= s.len(),
            trimmed(s@) == trimmed_end(s@.subrange(a as int, b as int)),
        decreases b - a,
    {
        assert(s@.subrange(a as int, b as int).drop_last() == s@.subrange(a as int, b - 1));
        b = b - 1;
    }
    sub_chars(s, a, b)
}

/// Removes white space at both ends.
pub fn trim(s: &str) -> (r: String)
    ensures
        r@ == trimmed(s@),
{
    let a: Vec<char> = chars(s);
    let t: Vec<char> = trim_chars(a.as_slice());
    from_chars(t.as_slice())
}

/// A character with `A` to `Z` in lower case.
pub open spec fn lower(c: char) -> char {
    if 'A' <= c <= 'Z' {
        ((c as u32) + 32) as char
    } else {
        c
    }
}

/// A character with `a` to `z` in upper case.
pub open spec fn upper(c: char) -> char {
    if 'a' <= c <= 'z' {
        ((c as u32) - 32) as char
    } else {
        c
    }
}

/// `s` with ASCII letters in lower case.
pub open spec fn lowered(s: Seq<char>) -> Seq<char> {
    s.map_values(|c: char| lower(c))
}

/// `s` with ASCII letters in upper case.
pub open spec fn uppered(s: Seq<char>) -> Seq<char> {
    s.map_values(|c: char| upper(c))
}

/// The lower case of one ASCII letter, or the character itself.
pub fn lower_char(c: char) -> (r: char)
    ensures
        r == lower(c),
{
    if 'A' <= c && c <= 'Z' {
        ((c as u8) + 32) as char
    } else {
        c
    }
}

/// The upper case of one ASCII letter, or the character itself.
pub fn upper_char(c: char) -> (r: char)
    ensures
        r == upper(c),
{
    if 'a' <= c && c <= 'z' {
        ((c as u8) - 32) as char
    } else {
        c
    }
}

/// Turns ASCII letters into lower case.
pub fn to_lower(s: &str) -> (r: String)
    ensures
        r@ == lowered(s@),
{
    let a: Vec<char> = chars(s);
    let mut r: String = String::new();
    let mut i: usize = 0;
    while i < a.len()
        invariant
            i <= a.len(),
            a@ == s@,
            r@ == lowered(s@.take(i as int)),
        decreases a.len() - i,
    {
        r.push(lower_char(a[i]));
        i = i + 1;
        assert(lowered(s@.take(i as int)) == lowered(s@.take(i - 1)).push(lower(s@[i - 1])));
    }
    assert(s@.take(s@.len() as int) == s@);
    r
}

/// Turns ASCII letters into upper case.
pub fn to_upper(s: &str) -> (r: String)
    ensures
        r@ == uppered(s@),
{
    let a: Vec<char> = chars(s);
    let mut r: String = String::new();
    let mut i: usize = 0;
    while i < a.len()
        invariant
            i <= a.len(),
            a@ == s@,
            r@ == uppered(s@.take(i as int)),
        decreases a.len() - i,
    {
        r.push(upper_char(a[i]));
        i = i + 1;
        assert(uppered(s@.take(i as int)) == uppered(s@.take(i - 1)).push(upper(s@[i - 1])));
    }
    assert(s@.take(s@.len() as int) == s@);
    r
}

/// The pieces of `s` between occurrences of `c`, in order: always at least one.
pub open spec fn pieces(s: Seq<char>, c: char) -> Seq<Seq<char>>
    decreases s.len(),
{
    if s.len() == 0 {
        seq![Seq::empty()]
    } else {
        let rest = pieces(s.drop_last(), c);
        if s.last() == c {
            rest.push(Seq::empty())
        } else {
            rest.drop_last().push(rest.last().push(s.last()))
        }
    }
}

/// The texts that a sequence of strings holds.
pub open spec fn texts(v: Seq<String>) -> Seq<Seq<char>> {
    v.map_values(|s: String| s@)
}

proof fn lemma_pieces_nonempty(s: Seq<char>, c: char)
    ensures
        pieces(s, c).len() > 0,
    decreases s.len(),
{
    if s.len() > 0 {
        lemma_pieces_nonempty(s.drop_last(), c);
    }
}

/// Splits `s` at every occurrence of `c`.
pub fn split(s: &str, c: char) -> (r: Vec<String>)
    ensures
        texts(r@) == pieces(s@, c),
        r.len() > 0,
{
    let a: Vec<char> = chars(s);
    let mut r: Vec<String> = Vec::new();
    let mut cur: String = String::new();
    let mut i: usize = 0;
    assert(texts(r@).push(cur@) == pieces(s@.take(0), c));
    while i < a.len()
        invariant
            i <= a.len(),
            a@ == s@,
            texts(r@).push(cur@) == pieces(s@.take(i as int), c),
        decreases a.len() - i,
    {
        let ghost before = texts(r@).push(cur@);
        let ghost old_r = r@;
        let ghost old_cur = cur@;
        assert(s@.take(i + 1).drop_last() == s@.take(i as int));
        assert(before.last() == old_cur);
        assert(before.drop_last() == texts(old_r));
        if a[i] == c {
            r.push(cur);
            cur = String::new();
            assert(texts(r@) == texts(old_r).push(old_cur));
        } else {
            cur.push(a[i]);
        }
        i = i + 1;
    }
    assert(s@.take(s@.len() as int) == s@);
    let ghost old_r = r@;
    r.push(cur);
    assert(texts(r@) == texts(old_r).push(cur@));
    r
}

/// Why a text is not a number.
#[derive(Clone, Copy, Debug, PartialEq, Eq, Structural)]
pub enum IntError {
    Empty,
    InvalidDigit,
    TooLarge,
}

impl IntError {
    /// The reason in words.
    pub open spec fn words(self) -> Seq<char> {
        match self {
            IntError::Empty => "cannot parse integer from empty string"@,
            IntError::InvalidDigit => "invalid digit found in string"@,
            IntError::TooLarge => "number too large to fit in target type"@,
        }
    }

    /// The reason in words.
    pub fn as_str(self) -> (r: &'static str)
        ensures
            r@ == self.words(),
    {
        match self {
            IntError::Empty => "cannot parse integer from empty string",
            IntError::InvalidDigit => "invalid digit found in string",
            IntError::TooLarge => "number too large to fit in target type",
        }
    }
}

/// The value of a run of decimal digits, read from the left; the first
/// character that is no digit or that makes the value pass `max` decides.
pub open spec fn digits_value(s: Seq<char>, max: nat) -> Result<nat, IntError>
    decreases s.len(),
{
    if s.len() == 0 {
        Ok(0)
    } else {
        match digits_value(s.drop_last(), max) {
            Err(e) => Err(e),
            Ok(v) => {
                let c = s.last();
                if !('0' <= c <= '9') {
                    Err(IntError::InvalidDigit)
                } else {
                    let n = v * 10 + ((c as u32) - ('0' as u32)) as nat;
                    if n > max {
                        Err(IntError::TooLarge)
                    } else {
                        Ok(n)
                    }
                }
            },
        }
    }
}

/// An unsigned decimal number up to `max`, with an optional leading `+`.
pub open spec fn number(s: Seq<char>, max: nat) -> Result<nat, IntError> {
    if s.len() == 0 {
        Err(IntError::Empty)
    } else if s.len() == 1 && (s[0] == '+' || s[0] == '-') {
        Err(IntError::InvalidDigit)
    } else if s[0] == '+' {
        digits_value(s.skip(1), max)
    } else {
        digits_value(s, max)
    }
}

proof fn lemma_digits_error_stays(s: Seq<char>, i: int, max: nat)
    requires
        0 <= i <= s.len(),
        digits_value(s.take(i), max) is Err,
    ensures
        digits_value(s, max) == digits_value(s.take(i), max),
    decreases s.len() - i,
{
    if i < s.len() {
        assert(s.take(i + 1).drop_last() == s.take(i));
        lemma_digits_error_stays(s, i + 1, max);
    } else {
        assert(s.take(i) == s);
    }
}

/// Reads a run of decimal digits.
pub fn read_digits(a: &[char], max: u64) -> (r: Result<u64, IntError>)
    ensures
        match r {
            Ok(v) => digits_value(a@, max as nat) == Ok::<nat, IntError>(v as nat),
            Err(e) => digits_value(a@, max as nat) == Err::<nat, IntError>(e),
        },
{
    let mut v: u64 = 0;
    let mut i: usize = 0;
    assert(a@.take(0) == Seq::<char>::empty());
    while i < a.len()
        invariant
            i <= a.len(),
            digits_value(a@.take(i as int), max as nat) == Ok::<nat, IntError>(v as nat),
            v <= max,
        decreases a.len() - i,
    {
        assert(a@.take(i + 1).drop_last() == a@.take(i as int));
        let c: char = a[i];
        if !('0' <= c && c <= '9') {
            proof {
                lemma_digits_error_stays(a@, i + 1, max as nat);
            }
            return Err(IntError::InvalidDigit);
        }
        let n: u128 = (v as u128) * 10 + ((c as u8) - 48) as u128;
        if n > max as u128 {
            proof {
                lemma_digits_error_stays(a@, i + 1, max as nat);
            }
            return Err(IntError::TooLarge);
        }
        v = n as u64;
        i = i + 1;
    }
    assert(a@.take(a@.len() as int) == a@);
    Ok(v)
}

/// Reads an unsigned decimal number up to `max`.
pub fn read_number(s: &str, max: u64) -> (r: Result<u64, IntError>)
    ensures
        match r {
            Ok(v) => number(s@, max as nat) == Ok::<nat, IntError>(v as nat),
            Err(e) => number(s@, max as nat) == Err::<nat, IntError>(e),
        },
{
    let a: Vec<char> = chars(s);
    if a.len() == 0 {
        return Err(IntError::Empty);
    }
    if a.len() == 1 && (a[0] == '+' || a[0] == '-') {
        return Err(IntError::InvalidDigit);
    }
    if a[0] == '+' {
        let t: Vec<char> = sub_chars(a.as_slice(), 1, a.len());
        assert(a@.subrange(1, a@.len() as int) == a@.skip(1));
        read_digits(t.as_slice(), max)
    } else {
        read_digits(a.as_slice(), max)
    }
}

/// A number that was read is not above its bound.
pub proof fn lemma_number_bounded(s: Seq<char>, max: nat)
    ensures
        match number(s, max) {
            Ok(v) => v <= max,
            Err(_) => true,
        },
{
}

/// A number up to `max` is read back from its decimal form.
pub proof fn law_decimal_is_read_back(n: nat, max: nat)
    requires
        n <= max,
    ensures
        number(decimal(n), max) == Ok::<nat, IntError>(n),
{
    lemma_decimal_value(n, max);
    lemma_decimal_first(n);
}

proof fn lemma_decimal_first(n: nat)
    ensures
        decimal(n).len() > 0,
        '0' <= decimal(n)[0] <= '9',
    decreases n,
{
    reveal(decimal);
    if n >= 10 {
        lemma_decimal_first(n / 10);
    }
}

proof fn lemma_decimal_value(n: nat, max: nat)
    requires
        n <= max,
    ensures
        digits_value(decimal(n), max) == Ok::<nat, IntError>(n),
    decreases n,
{
    reveal(decimal);
    if n < 10 {
        assert(decimal(n).drop_last() == Seq::<char>::empty());
        assert(digits_value(Seq::<char>::empty(), max) == Ok::<nat, IntError>(0));
    } else {
        lemma_decimal_value(n / 10, max);
        assert(decimal(n).drop_last() == decimal(n / 10));
    }
}

} // verus!
