//! What may be connected to, listened on and read: nothing that is not listed.

use crate::error::{refuse, ConnectorError};
use crate::ip::{
    ints, ipv4, ipv6, lemma_first_digit, lemma_first_piece, read_ipv4, read_ipv6,
};
use crate::model::{fault, ErrorCode, Fault};
use crate::socket::{
    bracketed, find_last_colon, ipv6_text, last_colon, longest_run, plain_number, read_socket,
    socket, zero_run,
};
use crate::text::{
    cat2, cat3, cat5, chars, dec, decimal, from_chars, lowered, number, pieces, read_number, same,
    split, sub_chars, texts, to_lower, trim, trimmed,
};
use vstd::prelude::*;

verus! {

/// A host and port that may be connected to.
#[derive(Debug)]
pub struct AllowedTarget {
    pub host: String,
    pub port: u16,
}

/// The hosts and ports that may be connected to. Everything else is denied.
#[derive(Debug)]
pub struct TargetPolicy {
    pub allowed: Vec<AllowedTarget>,
}

/// Whether a host is never connected to: link-local, unspecified and
/// multicast addresses and the hosts of cloud metadata.
pub open spec fn blocked(host: Seq<char>) -> bool {
    let l = lowered(host);
    l == "169.254.169.254"@ || l == "metadata.google.internal"@ || match ipv4(l) {
        Some((a, b, c, d)) => (a == 169 && b == 254) || (a == 0 && b == 0 && c == 0 && d == 0)
            || 224 <= a <= 239,
        None => match ipv6(l) {
            Some(g) => g[0] / 256 == 255 || (g[7] == 0 && zeros_before_last(g)),
            None => false,
        },
    }
}

/// The first seven groups of an IPv6 address are zero.
pub open spec fn zeros_before_last(g: Seq<int>) -> bool {
    g[0] == 0 && g[1] == 0 && g[2] == 0 && g[3] == 0 && g[4] == 0 && g[5] == 0 && g[6] == 0
}

fn starts_with_zeros(g: &Vec<u16>) -> (r: bool)
    requires
        g.len() == 8,
    ensures
        r == zeros_before_last(ints(g@)),
{
    assert(forall|i: int| 0 <= i < 8 ==> #[trigger] ints(g@)[i] == g@[i]);
    g[0] == 0 && g[1] == 0 && g[2] == 0 && g[3] == 0 && g[4] == 0 && g[5] == 0 && g[6] == 0
}

/// Tests whether a host is never connected to.
pub fn is_blocked_host(host: &str) -> (r: bool)
    ensures
        r == blocked(host@),
{
    let l: String = to_lower(host);
    let l: &str = l.as_str();
    if same(l, "169.254.169.254") || same(l, "metadata.google.internal") {
        return true;
    }
    match read_ipv4(l) {
        Some((a, b, c, d)) => (a == 169 && b == 254) || (a == 0 && b == 0 && c == 0 && d == 0) || (
        224 <= a && a <= 239),
        None => match read_ipv6(l) {
            Some(g) => {
                assert(ints(g@)[0] == g@[0] && ints(g@)[7] == g@[7]);
                g[0] / 256 == 255 || (g[7] == 0 && starts_with_zeros(&g))
            },
            None => false,
        },
    }
}

/// Whether two host names are the same; the case of letters does not matter.
pub fn host_eq(a: &str, b: &str) -> (r: bool)
    ensures
        r == (lowered(a@) == lowered(b@)),
{
    let x: String = to_lower(a);
    let y: String = to_lower(b);
    same(x.as_str(), y.as_str())
}

/// Whether the list holds the host and port.
pub open spec fn listed(allowed: Seq<AllowedTarget>, host: Seq<char>, port: u16) -> bool {
    exists|i: int|
        0 <= i < allowed.len() && lowered((#[trigger] allowed[i]).host@) == lowered(host)
            && allowed[i].port == port
}

/// Why a host and port may not be connected to.
pub open spec fn target_fault(
    allowed: Seq<AllowedTarget>,
    host: Seq<char>,
    port: u16,
) -> Option<Fault> {
    if blocked(host) {
        Some(
            fault(
                ErrorCode::PolicyDenied,
                "target host `"@ + host
                    + "` is blocked (link-local / metadata / unspecified)"@,
            ),
        )
    } else if listed(allowed, host, port) {
        None
    } else {
        Some(
            fault(
                ErrorCode::PolicyDenied,
                "target `"@ + host + ":"@ + decimal(port as nat)
                    + "` is not on the allowlist (deny by default; no open SSRF)"@,
            ),
        )
    }
}

/// What `url::Url::parse` and the accessors of its result say of a URL: its
/// scheme, its host and its port where it names one, or why it is none.
pub uninterp spec fn url_parts(url: Seq<char>) -> Result<
    (Seq<char>, Option<Seq<char>>, Option<u16>),
    Seq<char>,
>;

/// The parts of a URL that decide whether it may be connected to.
#[derive(Debug)]
pub struct UrlParts {
    pub scheme: String,
    pub host: Option<String>,
    pub port: Option<u16>,
}

impl View for UrlParts {
    type V = (Seq<char>, Option<Seq<char>>, Option<u16>);

    open spec fn view(&self) -> (Seq<char>, Option<Seq<char>>, Option<u16>) {
        (
            self.scheme@,
            match self.host {
                Some(h) => Some(h@),
                None => None,
            },
            self.port,
        )
    }
}

/// A parsed URL with the parts and the error taken by what they hold.
pub open spec fn parts_seen(r: Result<UrlParts, String>) -> Result<
    (Seq<char>, Option<Seq<char>>, Option<u16>),
    Seq<char>,
> {
    match r {
        Ok(p) => Ok(p@),
        Err(e) => Err(e@),
    }
}

/// `url::Url::parse` with `scheme`, `host_str` and `port` of the result. All of
/// them depend on the text alone; what they are is not stated.
#[verifier::external_body]
fn parse_url(url: &str) -> (r: Result<UrlParts, String>)
    ensures
        parts_seen(r) == url_parts(url@),
{
    match url::Url::parse(url) {
        Ok(u) => Ok(
            UrlParts {
                scheme: u.scheme().to_string(),
                host: u.host_str().map(|h| h.to_string()),
                port: u.port(),
            },
        ),
        Err(e) => Err(e.to_string()),
    }
}

/// Why a URL may not be connected to, given its parts. Only `http` and `https`
/// are known; each has its own port where the URL names none.
pub open spec fn url_fault(
    allowed: Seq<AllowedTarget>,
    parts: Result<(Seq<char>, Option<Seq<char>>, Option<u16>), Seq<char>>,
) -> Option<Fault> {
    match parts {
        Err(e) => Some(fault(ErrorCode::InvalidArgument, "invalid HTTP url: "@ + e)),
        Ok((scheme, host, port)) => if scheme != "http"@ && scheme != "https"@ {
            Some(
                fault(
                    ErrorCode::InvalidArgument,
                    "unsupported URL scheme `"@ + scheme + "`"@,
                ),
            )
        } else {
            match host {
                None => Some(fault(ErrorCode::InvalidArgument, "HTTP url is missing a host"@)),
                Some(h) => target_fault(
                    allowed,
                    h,
                    match port {
                        Some(p) => p,
                        None => if scheme == "https"@ {
                            443
                        } else {
                            80
                        },
                    },
                ),
            }
        },
    }
}

impl TargetPolicy {
    /// Nothing may be connected to.
    pub fn deny_all() -> (r: Self)
        ensures
            r.allowed@.len() == 0,
    {
        TargetPolicy { allowed: Vec::new() }
    }

    /// One host and port may be connected to.
    pub fn allow(host: &str, port: u16) -> (r: Self)
        ensures
            r.allowed@.len() == 1,
            r.allowed@[0].host@ == host@,
            r.allowed@[0].port == port,
    {
        let mut allowed: Vec<AllowedTarget> = Vec::new();
        allowed.push(AllowedTarget { host: host.to_owned(), port });
        TargetPolicy { allowed }
    }

    /// One more host and port may be connected to.
    pub fn with_allow(self, host: &str, port: u16) -> (r: Self)
        ensures
            r.allowed@.len() == self.allowed@.len() + 1,
            r.allowed@.drop_last() == self.allowed@,
            r.allowed@.last().host@ == host@,
            r.allowed@.last().port == port,
    {
        let mut allowed: Vec<AllowedTarget> = self.allowed;
        let ghost before = allowed@;
        allowed.push(AllowedTarget { host: host.to_owned(), port });
        assert(allowed@.drop_last() == before);
        TargetPolicy { allowed }
    }

    /// Checks whether a host and port may be connected to.
    pub fn check_host_port(&self, host: &str, port: u16) -> (r: Result<(), ConnectorError>)
        ensures
            match r {
                Ok(()) => target_fault(self.allowed@, host@, port) is None,
                Err(e) => target_fault(self.allowed@, host@, port) == Some(e@),
            },
    {
        if is_blocked_host(host) {
            return Err(
                ConnectorError::new(
                    ErrorCode::PolicyDenied,
                    cat3(
                        "target host `",
                        host,
                        "` is blocked (link-local / metadata / unspecified)",
                    ),
                ),
            );
        }
        let mut i: usize = 0;
        while i < self.allowed.len()
            invariant
                i <= self.allowed.len(),
                !blocked(host@),
                forall|j: int|
                    0 <= j < i ==> !(lowered((#[trigger] self.allowed@[j]).host@) == lowered(host@)
                        && self.allowed@[j].port == port),
            decreases self.allowed.len() - i,
        {
            if host_eq(self.allowed[i].host.as_str(), host) && self.allowed[i].port == port {
                assert(listed(self.allowed@, host@, port)) by {
                    assert(lowered(self.allowed@[i as int].host@) == lowered(host@));
                }
                return Ok(());
            }
            i = i + 1;
        }
        Err(
            ConnectorError::new(
                ErrorCode::PolicyDenied,
                cat5(
                    "target `",
                    host,
                    ":",
                    dec(port as u64).as_str(),
                    "` is not on the allowlist (deny by default; no open SSRF)",
                ),
            ),
        )
    }

    /// Checks whether a URL may be connected to, given its parts.
    pub fn check_url_parts(&self, parts: &Result<UrlParts, String>) -> (r: Result<
        (),
        ConnectorError,
    >)
        ensures
            match r {
                Ok(()) => url_fault(self.allowed@, parts_seen(*parts)) is None,
                Err(e) => url_fault(self.allowed@, parts_seen(*parts)) == Some(e@),
            },
    {
        match parts {
            Err(e) => Err(
                ConnectorError::new(
                    ErrorCode::InvalidArgument,
                    cat2("invalid HTTP url: ", e.as_str()),
                ),
            ),
            Ok(p) => {
                let https: bool = same(p.scheme.as_str(), "https");
                if !same(p.scheme.as_str(), "http") && !https {
                    return Err(
                        ConnectorError::new(
                            ErrorCode::InvalidArgument,
                            cat3("unsupported URL scheme `", p.scheme.as_str(), "`"),
                        ),
                    );
                }
                match &p.host {
                    None => Err(refuse(ErrorCode::InvalidArgument, "HTTP url is missing a host")),
                    Some(h) => {
                        let port: u16 = match p.port {
                            Some(n) => n,
                            None => if https {
                                443
                            } else {
                                80
                            },
                        };
                        self.check_host_port(h.as_str(), port)
                    },
                }
            },
        }
    }

    /// Checks whether a URL may be connected to.
    pub fn check_http_url(&self, url: &str) -> (r: Result<(), ConnectorError>)
        ensures
            match r {
                Ok(()) => url_fault(self.allowed@, url_parts(url@)) is None,
                Err(e) => url_fault(self.allowed@, url_parts(url@)) == Some(e@),
            },
    {
        let parts: Result<UrlParts, String> = parse_url(url);
        self.check_url_parts(&parts)
    }
}

/// With an empty list every host and port is denied.
pub proof fn law_deny_by_default(host: Seq<char>, port: u16)
    ensures
        target_fault(Seq::empty(), host, port) is Some,
        target_fault(Seq::empty(), host, port)->0.code == ErrorCode::PolicyDenied,
{
}

/// Listing more never denies what was allowed, and a blocked host stays denied
/// whatever is listed.
pub proof fn law_listing_only_adds(
    allowed: Seq<AllowedTarget>,
    more: AllowedTarget,
    host: Seq<char>,
    port: u16,
)
    ensures
        target_fault(allowed, host, port) is None ==> target_fault(
            allowed.push(more),
            host,
            port,
        ) is None,
        blocked(host) ==> target_fault(allowed.push(more), host, port) is Some,
{
    if listed(allowed, host, port) {
        let i = choose|i: int|
            0 <= i < allowed.len() && lowered((#[trigger] allowed[i]).host@) == lowered(host)
                && allowed[i].port == port;
        assert(allowed.push(more)[i] == allowed[i]);
    }
}

/// `s` without brackets at either end.
pub open spec fn unbracketed(s: Seq<char>) -> Seq<char>
    decreases s.len(),
{
    if s.len() > 0 && (s[0] == '[' || s[0] == ']') {
        unbracketed(s.skip(1))
    } else if s.len() > 0 && (s.last() == '[' || s.last() == ']') {
        unbracketed(s.drop_last())
    } else {
        s
    }
}

fn unbracket(s: &str) -> (r: String)
    ensures
        r@ == unbracketed(s@),
{
    let v: Vec<char> = chars(s);
    let mut a: usize = 0;
    let mut b: usize = v.len();
    assert(v@.subrange(0, v@.len() as int) == v@);
    while a < b && (v[a] == '[' || v[a] == ']')
        invariant
            a <= b == v.len(),
            v@ == s@,
            unbracketed(s@) == unbracketed(v@.subrange(a as int, b as int)),
        decreases b - a,
    {
        assert(v@.subrange(a as int, b as int).skip(1) == v@.subrange(a + 1, b as int));
        a = a + 1;
    }
    while a < b && (v[b - 1] == '[' || v[b - 1] == ']')
        invariant
            a <= b <= v.len(),
            v@ == s@,
            a < b ==> v@[a as int] != '[' && v@[a as int] != ']',
            unbracketed(s@) == unbracketed(v@.subrange(a as int, b as int)),
        decreases b - a,
    {
        assert(v@.subrange(a as int, b as int).drop_last() == v@.subrange(a as int, b - 1));
        b = b - 1;
    }
    from_chars(sub_chars(v.as_slice(), a, b).as_slice())
}

/// Whether a host is this machine itself.
pub open spec fn loopback(host: Seq<char>) -> bool {
    let h = unbracketed(host);
    lowered(h) == "localhost"@ || match ipv4(h) {
        Some((a, b, c, d)) => a == 127,
        None => match ipv6(h) {
            Some(g) => g[7] == 1 && zeros_before_last(g),
            None => false,
        },
    }
}

/// Tests whether a host is this machine itself.
pub fn is_loopback_host(host: &str) -> (r: bool)
    ensures
        r == loopback(host@),
{
    let h: String = unbracket(host);
    if host_eq(h.as_str(), "localhost") {
        proof {
            reveal_strlit("localhost");
            assert(lowered("localhost"@) =~= "localhost"@);
        }
        return true;
    }
    proof {
        reveal_strlit("localhost");
        assert(lowered("localhost"@) =~= "localhost"@);
    }
    match read_ipv4(h.as_str()) {
        Some((a, _, _, _)) => a == 127,
        None => match read_ipv6(h.as_str()) {
            Some(g) => {
                assert(ints(g@)[7] == g@[7]);
                g[7] == 1 && starts_with_zeros(&g)
            },
            None => false,
        },
    }
}

/// The fault for an address to listen on that cannot be read.
pub open spec fn bind_fault(bind: Seq<char>) -> Fault {
    fault(ErrorCode::InvalidArgument, "invalid HttpPush bind `"@ + bind + "`"@)
}

/// The host and port to listen on: those of a socket address, written in the
/// usual way; otherwise a host name, which is taken up to the last colon.
pub open spec fn bind_target(bind: Seq<char>) -> Result<(Seq<char>, u16), Fault> {
    match socket(bind) {
        Some(t) => Ok(t),
        None => match last_colon(bind) {
            None => Err(bind_fault(bind)),
            Some(i) => match number(bind.skip(i + 1), 65535) {
                Err(_) => Err(bind_fault(bind)),
                Ok(p) => {
                    let host = unbracketed(bind.take(i));
                    if host.len() == 0 {
                        Err(bind_fault(bind))
                    } else {
                        Ok((host, p as u16))
                    }
                },
            },
        },
    }
}

/// Reads the host and port to listen on.
pub fn parse_bind(bind: &str) -> (r: Result<(String, u16), ConnectorError>)
    ensures
        match r {
            Ok(t) => bind_target(bind@) == Ok::<(Seq<char>, u16), Fault>((t.0@, t.1)),
            Err(e) => bind_target(bind@) == Err::<(Seq<char>, u16), Fault>(e@),
        },
{
    match read_socket(bind) {
        Some(t) => {
            return Ok(t);
        },
        None => {},
    }
    let v: Vec<char> = chars(bind);
    match find_last_colon(&v) {
        None => {},
        Some(i) => {
            let tail: String = from_chars(sub_chars(v.as_slice(), i + 1, v.len()).as_slice());
            let head: String = from_chars(sub_chars(v.as_slice(), 0, i).as_slice());
            assert(tail@ == bind@.skip(i + 1));
            assert(head@ == bind@.take(i as int));
            match read_number(tail.as_str(), 65535) {
                Ok(p) => {
                    let host: String = unbracket(head.as_str());
                    if !host.as_str().is_empty() {
                        proof {
                            crate::text::lemma_number_bounded(tail@, 65535);
                        }
                        return Ok((host, p as u16));
                    }
                },
                Err(_) => {},
            }
        },
    }
    Err(
        ConnectorError::new(
            ErrorCode::InvalidArgument,
            cat3("invalid HttpPush bind `", bind, "`"),
        ),
    )
}

/// Why an address may not be listened on: loopback always may, an open bind
/// never, anything else where it is listed.
pub open spec fn listen_fault(allowed: Seq<AllowedTarget>, bind: Seq<char>) -> Option<Fault> {
    match bind_target(bind) {
        Err(f) => Some(f),
        Ok((host, port)) => if host == "0.0.0.0"@ || host == "::"@ || host == "[::]"@ {
            Some(
                fault(
                    ErrorCode::PolicyDenied,
                    "HttpPush bind `"@ + bind + "` is unspecified; refuse open bind"@,
                ),
            )
        } else if loopback(host) {
            None
        } else if blocked(host) {
            Some(
                fault(ErrorCode::PolicyDenied, "HttpPush bind host `"@ + host + "` is blocked"@),
            )
        } else {
            target_fault(allowed, host, port)
        },
    }
}

/// Checks whether an address may be listened on.
pub fn check_bind_addr(bind: &str, policy: &TargetPolicy) -> (r: Result<(), ConnectorError>)
    ensures
        match r {
            Ok(()) => listen_fault(policy.allowed@, bind@) is None,
            Err(e) => listen_fault(policy.allowed@, bind@) == Some(e@),
        },
{
    let (host, port): (String, u16) = match parse_bind(bind) {
        Ok(t) => t,
        Err(e) => {
            return Err(e);
        },
    };
    let h: &str = host.as_str();
    if same(h, "0.0.0.0") || same(h, "::") || same(h, "[::]") {
        return Err(
            ConnectorError::new(
                ErrorCode::PolicyDenied,
                cat3("HttpPush bind `", bind, "` is unspecified; refuse open bind"),
            ),
        );
    }
    if is_loopback_host(h) {
        return Ok(());
    }
    if is_blocked_host(h) {
        return Err(
            ConnectorError::new(
                ErrorCode::PolicyDenied,
                cat3("HttpPush bind host `", h, "` is blocked"),
            ),
        );
    }
    policy.check_host_port(h, port)
}

/// However the address of every interface is written, listening on it is
/// refused, whatever is listed.
pub proof fn law_open_bind_is_refused(allowed: Seq<AllowedTarget>, bind: Seq<char>, i: int)
    requires
        last_colon(bind) == Some(i),
        plain_number(bind.skip(i + 1), 65535) is Some,
        bind.take(i) == "0.0.0.0"@ || bracketed(bind.take(i)) == Some(
            Seq::new(8, |k: int| 0int),
        ),
    ensures
        listen_fault(allowed, bind) == Some(
            fault(
                ErrorCode::PolicyDenied,
                "HttpPush bind `"@ + bind + "` is unspecified; refuse open bind"@,
            ),
        ),
{
    let g = Seq::new(8, |k: int| 0int);
    reveal_with_fuel(zero_run, 9);
    reveal_with_fuel(longest_run, 9);
    assert(longest_run(g, 8) == (0int, 8int));
    reveal_strlit("::");
    assert(ipv6_text(g) =~= "::"@);
    reveal_strlit("0.0.0.0");
    let head = bind.take(i);
    if head == "0.0.0.0"@ {
        let tail = bind.skip(i + 1);
        assert(unbracketed(head) == head);
        assert(head[0] != '[');
        lemma_first_digit(tail, 65535);
    } else if ipv4(head) is Some {
        lemma_first_piece(head, '.');
        lemma_first_digit(pieces(head, '.')[0], 255);
    }
}

/// The pieces that are not empty once trimmed, trimmed.
pub open spec fn nonblank(p: Seq<Seq<char>>) -> Seq<Seq<char>>
    decreases p.len(),
{
    if p.len() == 0 {
        Seq::empty()
    } else {
        let rest = nonblank(p.drop_last());
        let t = trimmed(p.last());
        if t.len() > 0 {
            rest.push(t)
        } else {
            rest
        }
    }
}

/// The directories that a colon-separated setting lists.
pub fn configured_data_roots(raw: &str) -> (r: Vec<String>)
    ensures
        texts(r@) == nonblank(pieces(raw@, ':')),
{
    let p: Vec<String> = split(raw, ':');
    let ghost t = texts(p@);
    let mut out: Vec<String> = Vec::new();
    let mut i: usize = 0;
    assert(t.take(0) == Seq::<Seq<char>>::empty());
    assert(texts(out@) == Seq::<Seq<char>>::empty());
    while i < p.len()
        invariant
            i <= p.len(),
            t == texts(p@),
            t.len() == p.len(),
            texts(out@) == nonblank(t.take(i as int)),
        decreases p.len() - i,
    {
        assert(t.take(i + 1).drop_last() == t.take(i as int));
        assert(t.take(i + 1).last() == p@[i as int]@);
        let ghost before = out@;
        let s: String = trim(p[i].as_str());
        if !s.as_str().is_empty() {
            let ghost sv = s@;
            out.push(s);
            assert(texts(out@) == texts(before).push(sv));
        }
        i = i + 1;
    }
    assert(t.take(t.len() as int) == t);
    out
}

/// The directories that files may be read from and checkpoints written to.
/// Where none are configured there is one below the temporary directory, and
/// none at all in safe mode.
pub open spec fn roots(raw: Option<Seq<char>>, temp: Seq<char>, safe_mode: bool) -> Seq<Seq<char>> {
    let listed = match raw {
        Some(r) => nonblank(pieces(r, ':')),
        None => Seq::empty(),
    };
    if listed.len() > 0 {
        listed
    } else if safe_mode {
        Seq::empty()
    } else {
        seq![temp + "/sparrow"@]
    }
}

/// Determines the directories for files and checkpoints.
pub fn data_roots(raw: Option<&str>, temp_dir: &str, safe_mode: bool) -> (r: Vec<String>)
    ensures
        texts(r@) == roots(
            match raw {
                Some(s) => Some(s@),
                None => None,
            },
            temp_dir@,
            safe_mode,
        ),
{
    match raw {
        Some(s) => {
            let listed: Vec<String> = configured_data_roots(s);
            assert(texts(listed@).len() == listed.len());
            if listed.len() > 0 {
                return listed;
            }
        },
        None => {},
    }
    let mut out: Vec<String> = Vec::new();
    if !safe_mode {
        let one: String = cat2(temp_dir, "/sparrow");
        out.push(one);
        assert(texts(out@) =~= seq![temp_dir@ + "/sparrow"@]);
    } else {
        assert(texts(out@) =~= Seq::<Seq<char>>::empty());
    }
    out
}

/// The components of a path: what stands between slashes, without empty ones
/// and single dots.
pub open spec fn components(p: Seq<Seq<char>>) -> Seq<Seq<char>>
    decreases p.len(),
{
    if p.len() == 0 {
        Seq::empty()
    } else {
        let rest = components(p.drop_last());
        if p.last().len() == 0 || p.last() == "."@ {
            rest
        } else {
            rest.push(p.last())
        }
    }
}

/// The components of the path that a text denotes.
pub open spec fn path_components(s: Seq<char>) -> Seq<Seq<char>> {
    components(pieces(s, '/'))
}

fn read_components(s: &str) -> (r: Vec<String>)
    ensures
        texts(r@) == path_components(s@),
{
    let p: Vec<String> = split(s, '/');
    let ghost t = texts(p@);
    let mut out: Vec<String> = Vec::new();
    let mut i: usize = 0;
    assert(t.take(0) == Seq::<Seq<char>>::empty());
    assert(texts(out@) == Seq::<Seq<char>>::empty());
    while i < p.len()
        invariant
            i <= p.len(),
            t == texts(p@),
            t.len() == p.len(),
            texts(out@) == components(t.take(i as int)),
        decreases p.len() - i,
    {
        assert(t.take(i + 1).drop_last() == t.take(i as int));
        assert(t.take(i + 1).last() == p@[i as int]@);
        let ghost before = out@;
        if !p[i].as_str().is_empty() && !same(p[i].as_str(), ".") {
            let c: String = p[i].clone();
            out.push(c);
            assert(texts(out@) == texts(before).push(c@));
        }
        i = i + 1;
    }
    assert(t.take(t.len() as int) == t);
    out
}

/// The path begins at the root of the file system.
pub open spec fn absolute(s: Seq<char>) -> bool {
    s.len() > 0 && s[0] == '/'
}

/// A path lies in a directory: its components begin with those of the
/// directory.
pub open spec fn lies_in(path: Seq<char>, root: Seq<char>) -> bool {
    let p = path_components(path);
    let r = path_components(root);
    absolute(path) == absolute(root) && r.len() <= p.len() && p.take(r.len() as int) == r
}

fn is_absolute(s: &str) -> (r: bool)
    ensures
        r == absolute(s@),
{
    let v: Vec<char> = chars(s);
    v.len() > 0 && v[0] == '/'
}

fn is_in(path: &str, root: &str) -> (r: bool)
    ensures
        r == lies_in(path@, root@),
{
    if is_absolute(path) != is_absolute(root) {
        return false;
    }
    let p: Vec<String> = read_components(path);
    let q: Vec<String> = read_components(root);
    let ghost pt = texts(p@);
    let ghost qt = texts(q@);
    if q.len() > p.len() {
        return false;
    }
    let mut i: usize = 0;
    while i < q.len()
        invariant
            i <= q.len() <= p.len(),
            pt == texts(p@),
            qt == texts(q@),
            pt == path_components(path@),
            qt == path_components(root@),
            forall|j: int| 0 <= j < i ==> pt[j] == qt[j],
        decreases q.len() - i,
    {
        assert(pt[i as int] == p@[i as int]@);
        assert(qt[i as int] == q@[i as int]@);
        if !same(p[i].as_str(), q[i].as_str()) {
            assert(pt.take(qt.len() as int)[i as int] == pt[i as int]);
            return false;
        }
        i = i + 1;
    }
    assert(pt.take(qt.len() as int) =~= qt);
    true
}

/// Whether a component leads upwards.
pub open spec fn climbs(path: Seq<char>) -> bool {
    path_components(path).contains(".."@)
}

fn has_parent(path: &str) -> (r: bool)
    ensures
        r == climbs(path@),
{
    let p: Vec<String> = read_components(path);
    let ghost t = texts(p@);
    let mut i: usize = 0;
    while i < p.len()
        invariant
            i <= p.len(),
            t == texts(p@),
            t == path_components(path@),
            forall|j: int| 0 <= j < i ==> t[j] != ".."@,
        decreases p.len() - i,
    {
        assert(t[i as int] == p@[i as int]@);
        if same(p[i].as_str(), "..") {
            assert(t.contains(".."@));
            return true;
        }
        i = i + 1;
    }
    assert(!t.contains(".."@));
    false
}

/// Why a file may not be used. `resolved` is the path with its existing part
/// made canonical, or why that failed; only it is held against the roots.
pub open spec fn path_fault(
    path: Seq<char>,
    resolved: Result<Seq<char>, Fault>,
    roots: Seq<Seq<char>>,
) -> Option<Fault> {
    if path.len() == 0 {
        Some(fault(ErrorCode::InvalidArgument, "file path is empty"@))
    } else if climbs(path) {
        Some(fault(ErrorCode::PolicyDenied, "path must not contain `..`"@))
    } else {
        match resolved {
            Err(f) => Some(f),
            Ok(p) => if exists|i: int| 0 <= i < roots.len() && lies_in(p, #[trigger] roots[i]) {
                None
            } else {
                Some(
                    fault(
                        ErrorCode::PolicyDenied,
                        "path `"@ + path + "` is outside SPARROW_DATA_ROOTS allowlist"@,
                    ),
                )
            },
        }
    }
}

/// A resolved path by what it holds.
pub open spec fn resolved_seen(r: Result<String, ConnectorError>) -> Result<Seq<char>, Fault> {
    match r {
        Ok(s) => Ok(s@),
        Err(e) => Err(e@),
    }
}

/// Checks whether a file may be used.
pub fn check_data_path_in(
    path: &str,
    resolved: Result<String, ConnectorError>,
    roots: &Vec<String>,
) -> (r: Result<(), ConnectorError>)
    ensures
        match r {
            Ok(()) => path_fault(path@, resolved_seen(resolved), texts(roots@)) is None,
            Err(e) => path_fault(path@, resolved_seen(resolved), texts(roots@)) == Some(e@),
        },
{
    if path.is_empty() {
        return Err(refuse(ErrorCode::InvalidArgument, "file path is empty"));
    }
    if has_parent(path) {
        return Err(refuse(ErrorCode::PolicyDenied, "path must not contain `..`"));
    }
    let ghost seen = resolved_seen(resolved);
    let p: String = match resolved {
        Ok(s) => s,
        Err(e) => {
            return Err(e);
        },
    };
    let ghost t = texts(roots@);
    let mut i: usize = 0;
    while i < roots.len()
        invariant
            i <= roots.len(),
            t == texts(roots@),
            path@.len() > 0,
            !climbs(path@),
            seen == resolved_seen(resolved),
            seen == Ok::<Seq<char>, Fault>(p@),
            forall|j: int| 0 <= j < i ==> !lies_in(p@, #[trigger] t[j]),
        decreases roots.len() - i,
    {
        assert(t[i as int] == roots@[i as int]@);
        if is_in(p.as_str(), roots[i].as_str()) {
            return Ok(());
        }
        i = i + 1;
    }
    Err(
        ConnectorError::new(
            ErrorCode::PolicyDenied,
            cat3("path `", path, "` is outside SPARROW_DATA_ROOTS allowlist"),
        ),
    )
}

/// The canonical form of a path whose last components do not exist yet: they
/// are put back behind the part that does, the deepest first in `missing`.
pub open spec fn rejoined(canon: Seq<char>, missing: Seq<Seq<char>>) -> Result<Seq<char>, Fault>
    decreases missing.len(),
{
    if missing.len() == 0 {
        Ok(canon)
    } else if missing.last() == ".."@ {
        Err(
            fault(
                ErrorCode::PolicyDenied,
                "path must not contain `..` escapes outside an existing prefix"@,
            ),
        )
    } else {
        rejoined(canon + "/"@ + missing.last(), missing.drop_last())
    }
}

/// Puts the missing components of a path back behind its canonical part.
pub fn resolve_for_policy(canon: &str, missing: &Vec<String>) -> (r: Result<String, ConnectorError>)
    ensures
        resolved_seen(r) == rejoined(canon@, texts(missing@)),
{
    let mut out: String = canon.to_owned();
    let ghost t = texts(missing@);
    let mut n: usize = missing.len();
    assert(t.take(t.len() as int) == t);
    while n > 0
        invariant
            n <= missing.len(),
            t == texts(missing@),
            t.len() == missing.len(),
            rejoined(canon@, t) == rejoined(out@, t.take(n as int)),
        decreases n,
    {
        assert(t.take(n as int).last() == missing@[n - 1]@);
        assert(t.take(n as int).drop_last() == t.take(n - 1));
        if same(missing[n - 1].as_str(), "..") {
            return Err(
                refuse(
                    ErrorCode::PolicyDenied,
                    "path must not contain `..` escapes outside an existing prefix",
                ),
            );
        }
        out = cat3(out.as_str(), "/", missing[n - 1].as_str());
        n = n - 1;
    }
    Ok(out)
}

/// A path that climbs is denied wherever it leads, and without roots every
/// path is.
pub proof fn law_paths_denied_by_default(
    path: Seq<char>,
    resolved: Result<Seq<char>, Fault>,
    roots: Seq<Seq<char>>,
)
    ensures
        climbs(path) ==> path_fault(path, resolved, roots) is Some,
        roots.len() == 0 ==> path_fault(path, resolved, roots) is Some,
        path_fault(path, resolved, roots) is None ==> resolved is Ok && exists|i: int|
            0 <= i < roots.len() && lies_in(resolved->Ok_0, #[trigger] roots[i]),
{
}

} // verus!
