//! What holds of the policy: which hosts are never reached, which addresses may
//! be listened on, and which files lie in a directory.

use crate::error::ConnectorError;
use crate::ip::{ipv4, ipv6};
use crate::model::{ErrorCode, Fault};
use crate::policy::{
    bind_target, blocked, climbs, components, lies_in, listen_fault, loopback, nonblank,
    path_components, path_fault, rejoined, roots, target_fault, unbracketed, url_fault,
    AllowedTarget, TargetPolicy,
};
use crate::text::{decimal, lowered, pieces, trimmed};
use crate::text_laws::{law_an_address_and_a_port, law_pieces_stand_between_separators};
use vstd::prelude::*;
use vstd::string::*;

verus! {

/// Which addresses are never connected to: link-local, unspecified and multicast
/// ones.
pub proof fn law_which_addresses_are_blocked(host: Seq<char>)
    ensures
        ipv4(lowered(host)) matches Some((a, b, c, d)) ==> {
            &&& a == 169 && b == 254 ==> blocked(host)
            &&& a == 0 && b == 0 && c == 0 && d == 0 ==> blocked(host)
            &&& 224 <= a <= 239 ==> blocked(host)
            &&& blocked(host) ==> lowered(host) == "169.254.169.254"@ || lowered(host)
                == "metadata.google.internal"@ || (a == 169 && b == 254) || (a == 0 && b == 0 && c
                == 0 && d == 0) || 224 <= a <= 239
        },
        ipv4(lowered(host)) is None ==> (ipv6(lowered(host)) matches Some(g) ==> {
            &&& 0xff00 <= g[0] <= 0xffff ==> blocked(host)
            &&& (forall|i: int| 0 <= i < 8 ==> #[trigger] g[i] == 0) ==> blocked(host)
            &&& blocked(host) && lowered(host) != "169.254.169.254"@ && lowered(host)
                != "metadata.google.internal"@ ==> g[0] / 256 == 0xff || (g[0] == 0 && g[7] == 0)
        }),
        lowered(host) == "metadata.google.internal"@ || lowered(host) == "169.254.169.254"@
            ==> blocked(host),
        ipv4(lowered(host)) is None && ipv6(lowered(host)) is None && lowered(host)
            != "metadata.google.internal"@ && lowered(host) != "169.254.169.254"@ ==> !blocked(
            host,
        ),
{
}

/// A target may be connected to exactly where its host is not blocked and is
/// listed, in any case of letters, with that very port.
pub proof fn law_only_what_is_listed_is_reached(
    policy: TargetPolicy,
    host: &str,
    port: u16,
    r: Result<(), ConnectorError>,
)
    requires
        call_ensures(TargetPolicy::check_host_port, (&policy, host, port), r),
    ensures
        r is Ok <==> !blocked(host@) && exists|i: int|
            0 <= i < policy.allowed@.len() && lowered((#[trigger] policy.allowed@[i]).host@)
                == lowered(host@) && policy.allowed@[i].port == port,
        r is Err ==> r->Err_0@.code == ErrorCode::PolicyDenied,
{
}

/// A URL is judged by its host and port; without a port it is 443 for `https`
/// and 80 for `http`, and no other scheme is known.
pub proof fn law_a_url_is_judged_by_host_and_port(
    allowed: Seq<AllowedTarget>,
    scheme: Seq<char>,
    host: Seq<char>,
    port: Option<u16>,
)
    ensures
        ({
            let known = scheme == "http"@ || scheme == "https"@;
            let r = url_fault(allowed, Ok((scheme, Some(host), port)));
            &&& !known ==> r is Some
            &&& known && port is Some ==> r == target_fault(allowed, host, port->0)
            &&& scheme == "https"@ && port is None ==> r == target_fault(allowed, host, 443)
            &&& scheme == "http"@ && port is None ==> r == target_fault(allowed, host, 80)
            &&& url_fault(allowed, Ok((scheme, None, port))) is Some
        }),
{
    reveal_strlit("http");
    reveal_strlit("https");
    assert("http"@.len() == 4 && "https"@.len() == 5);
}

/// What cannot be read as a URL is refused.
pub proof fn law_what_is_no_url_is_refused(allowed: Seq<AllowedTarget>, why: Seq<char>)
    ensures
        url_fault(allowed, Err(why)) is Some,
        url_fault(allowed, Err(why))->0.code == ErrorCode::InvalidArgument,
{
}

/// This machine is `localhost`, any address that begins with 127, and the
/// address of sevenfold zero and a one.
pub proof fn law_what_is_this_machine(host: Seq<char>)
    ensures
        lowered(unbracketed(host)) == "localhost"@ ==> loopback(host),
        ipv4(unbracketed(host)) matches Some((a, b, c, d)) ==> lowered(unbracketed(host))
            == "localhost"@ || (loopback(host) <==> a == 127),
        ipv4(unbracketed(host)) is None && lowered(unbracketed(host)) != "localhost"@ ==> (
        loopback(host) <==> (ipv6(unbracketed(host)) is Some && ({
            let g = ipv6(unbracketed(host))->0;
            g[7] == 1 && forall|i: int| 0 <= i < 7 ==> #[trigger] g[i] == 0
        }))),
{
    if ipv6(unbracketed(host)) is Some {
        let g = ipv6(unbracketed(host))->0;
        if forall|i: int| 0 <= i < 7 ==> #[trigger] g[i] == 0 {
            assert(g[0] == 0 && g[1] == 0 && g[2] == 0 && g[3] == 0 && g[4] == 0 && g[5] == 0
                && g[6] == 0);
        }
    }
}

/// Brackets around a host go, and nothing else does.
pub proof fn law_brackets_go(s: Seq<char>)
    requires
        s.len() > 0,
        s[0] != '[' && s[0] != ']',
        s.last() != '[' && s.last() != ']',
    ensures
        unbracketed(s) == s,
        unbracketed(seq!['['] + s + seq![']']) == s,
{
    let b = seq!['['] + s + seq![']'];
    assert(b.skip(1) =~= s + seq![']']);
    assert((s + seq![']']).drop_last() =~= s);
    assert((s + seq![']'])[0] == s[0]);
    reveal_with_fuel(unbracketed, 3);
}

/// An address may be listened on exactly where it is this machine's own, or is
/// neither unspecified nor blocked and is listed.
pub proof fn law_where_may_be_listened(
    allowed: Seq<AllowedTarget>,
    bind: Seq<char>,
    host: Seq<char>,
    port: u16,
)
    requires
        bind_target(bind) == Ok::<(Seq<char>, u16), Fault>((host, port)),
    ensures
        ({
            let open = host == "0.0.0.0"@ || host == "::"@ || host == "[::]"@;
            &&& open ==> listen_fault(allowed, bind) is Some && listen_fault(allowed, bind)->0.code
                == ErrorCode::PolicyDenied
            &&& !open && loopback(host) ==> listen_fault(allowed, bind) is None
            &&& !open && !loopback(host) ==> (listen_fault(allowed, bind) is None
                <==> target_fault(allowed, host, port) is None)
        }),
{
}

/// An IPv4 address with a port is listened on as it is written.
pub proof fn law_an_address_is_listened_on(host: Seq<char>, port: nat)
    requires
        ipv4(host) is Some,
        port < 65536,
    ensures
        bind_target(host + seq![':'] + decimal(port)) == Ok::<(Seq<char>, u16), Fault>(
            (host, port as u16),
        ),
{
    law_an_address_and_a_port(host, port);
}

/// What cannot be read as an address to listen on is refused.
pub proof fn law_what_is_no_address_is_refused(allowed: Seq<AllowedTarget>, bind: Seq<char>)
    requires
        !bind.contains(':'),
    ensures
        listen_fault(allowed, bind) is Some,
        listen_fault(allowed, bind)->0.code == ErrorCode::InvalidArgument,
{
    lemma_no_colon(bind);
}

proof fn lemma_no_colon(s: Seq<char>)
    requires
        !s.contains(':'),
    ensures
        crate::socket::last_colon(s) is None,
    decreases s.len(),
{
    if s.len() > 0 {
        assert(s.last() != ':') by {
            assert(s.contains(s[s.len() - 1]));
        }
        assert(!s.drop_last().contains(':')) by {
            if s.drop_last().contains(':') {
                let i = choose|i: int| 0 <= i < s.drop_last().len() && s.drop_last()[i] == ':';
                assert(s[i] == ':');
            }
        }
        lemma_no_colon(s.drop_last());
    }
}

proof fn lemma_pieces_join(a: Seq<char>, c: char, b: Seq<char>)
    ensures
        pieces(a + seq![c] + b, c) == pieces(a, c) + pieces(b, c),
        pieces(a, c).len() > 0,
    decreases a.len(),
{
    let s = a + seq![c] + b;
    if !a.contains(c) {
        law_pieces_stand_between_separators(a, c, b);
    } else {
        let i = lemma_first_mark(a, c);
        let x = a.take(i);
        let y = a.skip(i + 1);
        assert(a =~= x + seq![c] + y);
        assert(s =~= x + seq![c] + (y + seq![c] + b));
        law_pieces_stand_between_separators(x, c, y);
        law_pieces_stand_between_separators(x, c, y + seq![c] + b);
        lemma_pieces_join(y, c, b);
        assert(seq![x] + (pieces(y, c) + pieces(b, c)) =~= (seq![x] + pieces(y, c)) + pieces(b, c));
    }
}

proof fn lemma_first_mark(a: Seq<char>, c: char) -> (i: int)
    requires
        a.contains(c),
    ensures
        0 <= i < a.len(),
        a[i] == c,
        !a.take(i).contains(c),
    decreases a.len(),
{
    if a[0] == c {
        0
    } else {
        let k = choose|k: int| 0 <= k < a.len() && a[k] == c;
        assert(a.skip(1)[k - 1] == c);
        let j = lemma_first_mark(a.skip(1), c);
        let i = j + 1;
        assert(a[i] == a.skip(1)[j]);
        assert(!a.take(i).contains(c)) by {
            if a.take(i).contains(c) {
                let m = choose|m: int| 0 <= m < i && a.take(i)[m] == c;
                assert(a.skip(1).take(j)[m - 1] == c);
            }
        }
        i
    }
}

proof fn lemma_components_join(p: Seq<Seq<char>>, q: Seq<Seq<char>>)
    ensures
        components(p + q) == components(p) + components(q),
    decreases q.len(),
{
    if q.len() == 0 {
        assert(p + q =~= p);
        assert(components(p) + components(q) =~= components(p));
    } else {
        assert((p + q).drop_last() =~= p + q.drop_last());
        lemma_components_join(p, q.drop_last());
        assert(components(p + q) =~= components(p) + components(q));
    }
}

proof fn lemma_path_joins(a: Seq<char>, b: Seq<char>)
    ensures
        path_components(a + seq!['/'] + b) == path_components(a) + path_components(b),
{
    lemma_pieces_join(a, '/', b);
    lemma_components_join(pieces(a, '/'), pieces(b, '/'));
}

proof fn lemma_one_component(name: Seq<char>)
    requires
        !name.contains('/'),
        name.len() > 0,
        name != seq!['.'],
    ensures
        path_components(name) == seq![name],
{
    reveal_strlit(".");
    assert("."@ =~= seq!['.']);
    law_pieces_stand_between_separators(name, '/', Seq::empty());
    reveal_with_fuel(components, 2);
    assert(seq![name].drop_last() =~= Seq::empty());
    assert(components(seq![name]) =~= seq![name]);
}

/// What a directory holds lies in it, at whatever depth, and so does the
/// directory itself; a name beside it that only begins with its name does not.
pub proof fn law_what_lies_in_a_directory(
    parent: Seq<char>,
    name: Seq<char>,
    other: Seq<char>,
    rest: Seq<char>,
)
    requires
        parent.len() > 0,
        !name.contains('/') && name.len() > 0 && name != seq!['.'],
        !other.contains('/') && other.len() > 0 && other != seq!['.'],
        name != other,
    ensures
        ({
            let root = parent + seq!['/'] + name;
            &&& lies_in(root, root)
            &&& lies_in(root + seq!['/'] + rest, root)
            &&& !lies_in(parent + seq!['/'] + other, root)
            &&& !lies_in(parent, root)
        }),
{
    let root = parent + seq!['/'] + name;
    lemma_path_joins(parent, name);
    lemma_path_joins(parent, other);
    lemma_path_joins(root, rest);
    lemma_one_component(name);
    lemma_one_component(other);
    let r = path_components(root);
    let p = path_components(root + seq!['/'] + rest);
    assert(p.take(r.len() as int) =~= r);
    assert(r.take(r.len() as int) =~= r);
    assert(root[0] == parent[0] && (root + seq!['/'] + rest)[0] == parent[0]);
    let q = path_components(parent + seq!['/'] + other);
    assert(r.last() == name && q.last() == other);
    assert(q.take(r.len() as int) =~= q);
}

/// A relative path does not lie in an absolute directory, nor the other way
/// round.
pub proof fn law_absolute_and_relative_are_apart(path: Seq<char>, root: Seq<char>)
    requires
        path.len() > 0,
        root.len() > 0,
        (path[0] == '/') != (root[0] == '/'),
    ensures
        !lies_in(path, root),
{
}

proof fn lemma_component_kept(p: Seq<Seq<char>>, x: Seq<char>)
    requires
        x.len() > 0,
        x != "."@,
    ensures
        components(p).contains(x) <==> p.contains(x),
    decreases p.len(),
{
    if p.len() > 0 {
        let front = p.drop_last();
        lemma_component_kept(front, x);
        if p.contains(x) {
            let i = choose|i: int| 0 <= i < p.len() && p[i] == x;
            if i < front.len() {
                assert(front[i] == x);
                let j = choose|j: int| 0 <= j < components(front).len() && components(front)[j] == x;
                assert(components(p)[j] == x);
            } else {
                assert(components(p).last() == x);
                assert(components(p)[components(p).len() - 1] == x);
            }
        }
        if components(p).contains(x) {
            let j = choose|j: int| 0 <= j < components(p).len() && components(p)[j] == x;
            if j < components(front).len() {
                assert(components(front)[j] == x);
                let i = choose|i: int| 0 <= i < front.len() && front[i] == x;
                assert(p[i] == x);
            } else {
                assert(p[p.len() - 1] == x);
            }
        }
    }
}

/// A path leads upwards where two dots stand between its slashes.
pub proof fn law_two_dots_lead_upwards(path: Seq<char>)
    ensures
        climbs(path) <==> pieces(path, '/').contains(seq!['.', '.']),
{
    reveal_strlit("..");
    reveal_strlit(".");
    assert(".."@ =~= seq!['.', '.']);
    assert("."@.len() == 1);
    lemma_component_kept(pieces(path, '/'), ".."@);
}

/// A file may be used exactly where its path is not empty and does not lead
/// upwards, and what it resolves to lies in one of the roots.
pub proof fn law_which_files_may_be_used(
    path: Seq<char>,
    resolved: Seq<char>,
    roots: Seq<Seq<char>>,
)
    ensures
        path_fault(path, Ok(resolved), roots) is None <==> path.len() > 0 && !climbs(path)
            && exists|i: int| 0 <= i < roots.len() && lies_in(resolved, #[trigger] roots[i]),
{
}

/// A path that cannot be resolved is refused with the reason.
pub proof fn law_an_unresolved_path_is_refused(
    path: Seq<char>,
    why: Fault,
    roots: Seq<Seq<char>>,
)
    requires
        path.len() > 0,
        !climbs(path),
    ensures
        path_fault(path, Err(why), roots) == Some(why),
{
}

proof fn lemma_nonblank_join(p: Seq<Seq<char>>, q: Seq<Seq<char>>)
    ensures
        nonblank(p + q) == nonblank(p) + nonblank(q),
    decreases q.len(),
{
    if q.len() == 0 {
        assert(p + q =~= p);
        assert(nonblank(p) + nonblank(q) =~= nonblank(p));
    } else {
        assert((p + q).drop_last() =~= p + q.drop_last());
        lemma_nonblank_join(p, q.drop_last());
        assert(nonblank(p + q) =~= nonblank(p) + nonblank(q));
    }
}

/// The directories that a setting lists are those between its colons, in order,
/// without blanks around them and without empty ones.
pub proof fn law_listed_directories(a: Seq<char>, b: Seq<char>)
    requires
        !a.contains(':'),
    ensures
        nonblank(pieces(a + seq![':'] + b, ':')) == (if trimmed(a).len() > 0 {
            seq![trimmed(a)]
        } else {
            Seq::empty()
        }) + nonblank(pieces(b, ':')),
        nonblank(pieces(a, ':')) == if trimmed(a).len() > 0 {
            seq![trimmed(a)]
        } else {
            Seq::empty()
        },
{
    law_pieces_stand_between_separators(a, ':', b);
    lemma_nonblank_join(seq![a], pieces(b, ':'));
    reveal_with_fuel(nonblank, 2);
    assert(seq![a].drop_last() =~= Seq::empty());
    assert(nonblank(seq![a]) =~= if trimmed(a).len() > 0 {
        seq![trimmed(a)]
    } else {
        Seq::empty()
    });
}

/// Where no directory is listed there is one below the temporary directory; in
/// safe mode there is none.
pub proof fn law_directories_by_default(raw: Seq<char>, temp: Seq<char>, safe_mode: bool)
    ensures
        safe_mode ==> roots(None, temp, safe_mode).len() == 0,
        !safe_mode ==> roots(None, temp, safe_mode) == seq![
            temp + seq!['/', 's', 'p', 'a', 'r', 'r', 'o', 'w'],
        ],
        nonblank(pieces(raw, ':')).len() > 0 ==> roots(Some(raw), temp, safe_mode) == nonblank(
            pieces(raw, ':'),
        ),
        nonblank(pieces(raw, ':')).len() == 0 ==> roots(Some(raw), temp, safe_mode) == roots(
            None,
            temp,
            safe_mode,
        ),
{
    reveal_strlit("/sparrow");
    assert("/sparrow"@ =~= seq!['/', 's', 'p', 'a', 'r', 'r', 'o', 'w']);
}

/// What does not exist yet is put behind what does, the outermost first; two
/// dots in it are refused.
pub proof fn law_missing_parts_are_put_back(canon: Seq<char>, missing: Seq<Seq<char>>, i: int)
    ensures
        rejoined(canon, Seq::empty()) == Ok::<Seq<char>, Fault>(canon),
        missing.len() > 0 && missing.last() != seq!['.', '.'] ==> rejoined(canon, missing)
            == rejoined(canon + seq!['/'] + missing.last(), missing.drop_last()),
        0 <= i < missing.len() && missing[i] == seq!['.', '.'] ==> rejoined(canon, missing) is Err,
    decreases missing.len(),
{
    reveal_strlit("..");
    reveal_strlit("/");
    assert(".."@ =~= seq!['.', '.']);
    assert("/"@ =~= seq!['/']);
    if 0 <= i < missing.len() - 1 {
        law_missing_parts_are_put_back(canon + "/"@ + missing.last(), missing.drop_last(), i);
    }
}

/// A policy lists what it is told to, in order, and nothing else.
pub proof fn law_what_a_policy_lists(
    host: &str,
    port: u16,
    none: TargetPolicy,
    one: TargetPolicy,
    p: TargetPolicy,
    more: TargetPolicy,
    i: int,
)
    requires
        call_ensures(TargetPolicy::deny_all, (), none),
        call_ensures(TargetPolicy::allow, (host, port), one),
        call_ensures(TargetPolicy::with_allow, (p, host, port), more),
        0 <= i < p.allowed@.len(),
    ensures
        none.allowed@.len() == 0,
        one.allowed@.len() == 1 && one.allowed@[0].host@ == host@ && one.allowed@[0].port == port,
        more.allowed@.len() == p.allowed@.len() + 1,
        more.allowed@[i] == p.allowed@[i],
        more.allowed@.last().host@ == host@ && more.allowed@.last().port == port,
{
    assert(more.allowed@.drop_last()[i] == p.allowed@[i]);
}

} // verus!
