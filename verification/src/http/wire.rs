//! HTTP/1.1 requests with a `Content-Length` out of a stream of bytes, and the
//! replies to them.

use crate::error::{refuse, ConnectorError};
use crate::model::{fault, ErrorCode, Fault};
use crate::mqtt::codec::{part, put_all};
use crate::text::{
    begins, cat3, cat5, chars, dec, decimal, from_chars, lowered, number, pieces, read_number, same,
    split, strip_prefix, sub_chars, texts, to_lower, trim, trimmed,
};
use vstd::prelude::*;
use vstd::string::*;
use vstd::utf8::*;

verus! {

/// The largest request head, in bytes.
pub const MAX_REQUEST: usize = 131072;

/// The largest request body, in bytes.
pub const MAX_BODY: usize = 65536;

/// The blank line that ends a request head stands at `i`.
pub open spec fn blank_line_at(b: Seq<u8>, i: int) -> bool {
    0 <= i && i + 4 <= b.len() && b[i] == 13 && b[i + 1] == 10 && b[i + 2] == 13 && b[i + 3] == 10
}

/// Where the blank line first stands at `i` or later.
pub open spec fn header_end(b: Seq<u8>, i: int) -> Option<int>
    decreases b.len() - i,
{
    if i + 4 > b.len() {
        None
    } else if blank_line_at(b, i) {
        Some(i)
    } else {
        header_end(b, i + 1)
    }
}

/// Finds the blank line that ends a request head.
pub fn find_header_end(buf: &[u8]) -> (r: Option<usize>)
    ensures
        match r {
            Some(i) => header_end(buf@, 0) == Some(i as int) && i + 4 <= buf.len(),
            None => header_end(buf@, 0) is None,
        },
{
    let mut i: usize = 0;
    while i < buf.len() && buf.len() - i >= 4
        invariant
            i <= buf.len(),
            header_end(buf@, 0) == header_end(buf@, i as int),
        decreases buf.len() - i,
    {
        if buf[i] == 13 && buf[i + 1] == 10 && buf[i + 2] == 13 && buf[i + 3] == 10 {
            return Some(i);
        }
        i = i + 1;
    }
    None
}

/// The text that `String::from_utf8_lossy` makes of bytes.
pub uninterp spec fn lossy_text(b: Seq<u8>) -> Seq<char>;

/// `String::from_utf8_lossy`: valid UTF-8 is decoded; what stands for invalid
/// bytes is not stated.
#[verifier::external_body]
pub(crate) fn lossy(b: &[u8]) -> (r: String)
    ensures
        r@ == lossy_text(b@),
        valid_utf8(b@) ==> r@ == decode_utf8(b@),
{
    String::from_utf8_lossy(b).into_owned()
}

/// A line without a carriage return at its end.
pub open spec fn uncarried(s: Seq<char>) -> Seq<char> {
    if s.len() > 0 && s.last() == '\r' {
        s.drop_last()
    } else {
        s
    }
}

/// The lines of a text. A line ends with a newline, which a carriage return may
/// precede; an empty last line does not count.
pub open spec fn lines_in(p: Seq<Seq<char>>) -> Seq<Seq<char>> {
    let front = p.drop_last().map_values(|s: Seq<char>| uncarried(s));
    if p.last().len() == 0 {
        front
    } else {
        front.push(p.last())
    }
}

/// The lines of a text.
pub open spec fn text_lines(s: Seq<char>) -> Seq<Seq<char>> {
    lines_in(pieces(s, '\n'))
}

fn uncarry(s: &str) -> (r: String)
    ensures
        r@ == uncarried(s@),
{
    let v: Vec<char> = chars(s);
    if v.len() > 0 && v[v.len() - 1] == '\r' {
        let t: Vec<char> = sub_chars(v.as_slice(), 0, v.len() - 1);
        assert(t@ =~= s@.drop_last());
        from_chars(t.as_slice())
    } else {
        s.to_owned()
    }
}

/// Splits a text into lines.
pub fn read_lines(s: &str) -> (r: Vec<String>)
    ensures
        texts(r@) == text_lines(s@),
{
    let p: Vec<String> = split(s, '\n');
    let ghost t = texts(p@);
    let n: usize = p.len() - 1;
    let ghost front = t.drop_last().map_values(|x: Seq<char>| uncarried(x));
    let mut out: Vec<String> = Vec::new();
    let mut i: usize = 0;
    assert(texts(out@) =~= front.take(0));
    while i < n
        invariant
            i <= n,
            n + 1 == p.len(),
            t == texts(p@),
            t.len() == p.len(),
            front == t.drop_last().map_values(|x: Seq<char>| uncarried(x)),
            texts(out@) == front.take(i as int),
        decreases n - i,
    {
        let ghost before = out@;
        let l: String = uncarry(p[i].as_str());
        assert(front[i as int] == l@) by {
            assert(t.drop_last()[i as int] == p@[i as int]@);
        }
        out.push(l);
        assert(texts(out@) =~= texts(before).push(l@));
        assert(front.take(i + 1) =~= front.take(i as int).push(front[i as int]));
        i = i + 1;
    }
    assert(front.take(front.len() as int) =~= front);
    assert(t.last() == p@[n as int]@);
    if !p[n].as_str().is_empty() {
        let ghost before = out@;
        let l: String = p[n].clone();
        out.push(l);
        assert(texts(out@) =~= texts(before).push(l@));
    }
    out
}

/// What a header line says of the length of the body.
pub open spec fn length_line(l: Seq<char>) -> Option<nat> {
    let n = lowered(l);
    if begins(n, "content-length:"@) {
        Some(
            match number(trimmed(n.skip("content-length:"@.len() as int)), usize::MAX as nat) {
                Ok(v) => v,
                Err(_) => 0,
            },
        )
    } else {
        None
    }
}

/// The length of the body: what the first line says that speaks of it, zero
/// where none does or where it is no number.
pub open spec fn content_length(lines: Seq<Seq<char>>) -> nat
    decreases lines.len(),
{
    if lines.len() == 0 {
        0
    } else {
        match length_line(lines[0]) {
            Some(n) => n,
            None => content_length(lines.skip(1)),
        }
    }
}

/// Whether the connection is to be closed after the reply.
pub open spec fn closes(lines: Seq<Seq<char>>) -> bool {
    exists|i: int| 0 <= i < lines.len() && lowered(#[trigger] lines[i]) == "connection: close"@
}

fn read_length_line(l: &str) -> (r: Option<usize>)
    ensures
        match r {
            Some(n) => length_line(l@) == Some(n as nat),
            None => length_line(l@) is None,
        },
{
    let n: String = to_lower(l);
    match strip_prefix(n.as_str(), "content-length:") {
        Some(v) => {
            let t: String = trim(v.as_str());
            match read_number(t.as_str(), usize::MAX as u64) {
                Ok(x) => {
                    proof {
                        crate::text::lemma_number_bounded(t@, usize::MAX as nat);
                    }
                    Some(x as usize)
                },
                Err(_) => Some(0),
            }
        },
        None => None,
    }
}

/// Finds the length of the body in a request head.
pub fn find_content_length(lines: &Vec<String>) -> (r: usize)
    ensures
        r == content_length(texts(lines@)),
{
    let ghost t = texts(lines@);
    let mut i: usize = 0;
    assert(t.skip(0) == t);
    while i < lines.len()
        invariant
            i <= lines.len(),
            t == texts(lines@),
            t.len() == lines.len(),
            content_length(t) == content_length(t.skip(i as int)),
        decreases lines.len() - i,
    {
        assert(t.skip(i as int)[0] == lines@[i as int]@);
        match read_length_line(lines[i].as_str()) {
            Some(n) => {
                return n;
            },
            None => {},
        }
        assert(t.skip(i as int).skip(1) == t.skip(i + 1));
        i = i + 1;
    }
    0
}

/// Tests whether the connection is to be closed.
pub fn wants_close(lines: &Vec<String>) -> (r: bool)
    ensures
        r == closes(texts(lines@)),
{
    let ghost t = texts(lines@);
    let mut i: usize = 0;
    while i < lines.len()
        invariant
            i <= lines.len(),
            t == texts(lines@),
            t.len() == lines.len(),
            forall|j: int| 0 <= j < i ==> lowered(#[trigger] t[j]) != "connection: close"@,
        decreases lines.len() - i,
    {
        assert(t[i as int] == lines@[i as int]@);
        let l: String = to_lower(lines[i].as_str());
        if same(l.as_str(), "connection: close") {
            return true;
        }
        i = i + 1;
    }
    false
}

/// What is to be done with the bytes of a connection.
pub ghost enum Step {
    /// The head is incomplete.
    ReadHead,
    /// The body is incomplete.
    ReadBody,
    /// A whole request, and how many bytes it takes.
    Request { body: Seq<u8>, close: bool, taken: int },
}

/// What the bytes of a connection hold where the head of a request ends at `h`
/// and reads `text`; `too_large` is said of a body above the bound.
pub open spec fn request_with(
    b: Seq<u8>,
    h: int,
    text: Seq<char>,
    too_large: Seq<char>,
) -> Result<Step, Fault> {
    let lines = text_lines(text);
    let n = content_length(lines);
    if n > MAX_BODY {
        Err(fault(ErrorCode::MaxRecordSize, too_large))
    } else if b.len() < h + 4 + n {
        Ok(Step::ReadBody)
    } else {
        Ok(
            Step::Request {
                body: b.subrange(h + 4, h + 4 + n),
                close: closes(lines),
                taken: h + 4 + n,
            },
        )
    }
}

/// What the bytes of a connection hold.
pub open spec fn request_step(b: Seq<u8>, too_large: Seq<char>) -> Result<Step, Fault> {
    match header_end(b, 0) {
        None => Ok(Step::ReadHead),
        Some(h) => request_with(b, h, lossy_text(b.take(h)), too_large),
    }
}

/// What is to be done with the bytes of a connection.
#[derive(Debug)]
pub enum RequestStep {
    ReadHead,
    ReadBody,
    Request { body: Vec<u8>, close: bool, taken: usize },
}

/// A step by what it holds.
pub open spec fn step_of(s: RequestStep) -> Step {
    match s {
        RequestStep::ReadHead => Step::ReadHead,
        RequestStep::ReadBody => Step::ReadBody,
        RequestStep::Request { body, close, taken } => Step::Request {
            body: body@,
            close,
            taken: taken as int,
        },
    }
}

/// A result with the step and the error taken by what they hold.
pub open spec fn step_seen(r: Result<RequestStep, ConnectorError>) -> Result<Step, Fault> {
    match r {
        Ok(s) => Ok(step_of(s)),
        Err(e) => Err(e@),
    }
}

/// Looks for the body of a request whose head ends at `h` and reads `text`.
pub fn request_after_head(buf: &[u8], h: usize, text: &str, too_large: &str) -> (r: Result<
    RequestStep,
    ConnectorError,
>)
    requires
        h + 4 <= buf.len(),
    ensures
        step_seen(r) == request_with(buf@, h as int, text@, too_large@),
{
    let lines: Vec<String> = read_lines(text);
    let n: usize = find_content_length(&lines);
    if n > MAX_BODY {
        return Err(refuse(ErrorCode::MaxRecordSize, too_large));
    }
    if buf.len() - (h + 4) < n {
        return Ok(RequestStep::ReadBody);
    }
    Ok(
        RequestStep::Request {
            body: part(buf, h + 4, h + 4 + n),
            close: wants_close(&lines),
            taken: h + 4 + n,
        },
    )
}

/// Looks for a whole request in the bytes of a connection.
pub fn next_request(buf: &[u8], too_large: &str) -> (r: Result<RequestStep, ConnectorError>)
    ensures
        step_seen(r) == request_step(buf@, too_large@),
{
    match find_header_end(buf) {
        None => Ok(RequestStep::ReadHead),
        Some(h) => {
            let head: Vec<u8> = part(buf, 0, h);
            assert(head@ =~= buf@.take(h as int));
            let text: String = lossy(head.as_slice());
            request_after_head(buf, h, text.as_str(), too_large)
        },
    }
}

/// A connection to the capture server: the bytes that make no request yet.
#[derive(Debug)]
pub struct CaptureConn {
    pub buf: Vec<u8>,
}

impl CaptureConn {
    /// A connection without any bytes.
    pub fn new() -> (r: Self)
        ensures
            r.buf@ == Seq::<u8>::empty(),
    {
        CaptureConn { buf: Vec::new() }
    }

    /// Takes the next whole request off the front, if there is one.
    pub fn step(&mut self) -> (r: Result<RequestStep, ConnectorError>)
        ensures
            step_seen(r) == request_step(old(self).buf@, "HTTP body exceeds 64KiB"@),
            final(self).buf@ == match step_seen(r) {
                Ok(Step::Request { taken, .. }) => old(self).buf@.skip(taken),
                _ => old(self).buf@,
            },
    {
        let s: Result<RequestStep, ConnectorError> = next_request(
            self.buf.as_slice(),
            "HTTP body exceeds 64KiB",
        );
        match &s {
            Ok(RequestStep::Request { taken, .. }) => {
                let rest: Vec<u8> = part(self.buf.as_slice(), *taken, self.buf.len());
                assert(rest@ =~= self.buf@.skip(*taken as int));
                self.buf = rest;
            },
            _ => {},
        }
        s
    }

    /// Takes in bytes of a request head, which is bounded.
    pub fn feed_head(&mut self, bytes: &[u8]) -> (r: Result<(), ConnectorError>)
        ensures
            final(self).buf@ == old(self).buf@ + bytes@,
            match r {
                Ok(()) => final(self).buf@.len() <= MAX_REQUEST,
                Err(e) => final(self).buf@.len() > MAX_REQUEST && e@ == fault(
                    ErrorCode::MaxRecordSize,
                    "HTTP request exceeded 128KiB"@,
                ),
            },
    {
        put_all(&mut self.buf, bytes);
        if self.buf.len() > MAX_REQUEST {
            return Err(refuse(ErrorCode::MaxRecordSize, "HTTP request exceeded 128KiB"));
        }
        Ok(())
    }

    /// Takes in bytes of a request body.
    pub fn feed_body(&mut self, bytes: &[u8])
        ensures
            final(self).buf@ == old(self).buf@ + bytes@,
    {
        put_all(&mut self.buf, bytes);
    }
}

proof fn lemma_header_end_stays(b: Seq<u8>, rest: Seq<u8>, i: int)
    requires
        0 <= i,
        header_end(b, i) is Some,
    ensures
        header_end(b + rest, i) == header_end(b, i),
        header_end(b, i)->0 + 4 <= b.len(),
        header_end(b, i)->0 >= i,
    decreases b.len() - i,
{
    if i + 4 <= b.len() {
        assert(blank_line_at(b + rest, i) == blank_line_at(b, i));
        if !blank_line_at(b, i) {
            lemma_header_end_stays(b, rest, i + 1);
        }
    }
}

/// A whole request is read the same whatever follows it: requests that arrive
/// together are taken one by one.
pub proof fn law_request_is_read_alone(b: Seq<u8>, rest: Seq<u8>, too_large: Seq<char>)
    requires
        request_step(b, too_large) is Ok,
        request_step(b, too_large)->Ok_0 is Request,
    ensures
        request_step(b + rest, too_large) == request_step(b, too_large),
{
    lemma_header_end_stays(b, rest, 0);
    let h = header_end(b, 0)->0;
    assert((b + rest).take(h) =~= b.take(h));
    let n = content_length(text_lines(lossy_text(b.take(h))));
    assert((b + rest).subrange(h + 4, h + 4 + n) =~= b.subrange(h + 4, h + 4 + n));
}

/// The reply of the capture server.
pub open spec fn reply(code: u16, close: bool) -> Seq<char> {
    let connection = if close {
        "close"@
    } else {
        "keep-alive"@
    };
    if code == 204 {
        "HTTP/1.1 204 No Content\r\nconnection: "@ + connection + "\r\n\r\n"@
    } else if code >= 400 {
        "HTTP/1.1 "@ + decimal(code as nat) + " ERR\r\ncontent-length: 0\r\nconnection: "@
            + connection + "\r\n\r\n"@
    } else {
        "HTTP/1.1 200 OK\r\ncontent-length: 2\r\nconnection: "@ + connection + "\r\n\r\nok"@
    }
}

/// Writes the reply of the capture server.
pub fn capture_reply(code: u16, close: bool) -> (r: String)
    ensures
        r@ == reply(code, close),
{
    let connection: &str = if close {
        "close"
    } else {
        "keep-alive"
    };
    if code == 204 {
        cat3("HTTP/1.1 204 No Content\r\nconnection: ", connection, "\r\n\r\n")
    } else if code >= 400 {
        cat5(
            "HTTP/1.1 ",
            dec(code as u64).as_str(),
            " ERR\r\ncontent-length: 0\r\nconnection: ",
            connection,
            "\r\n\r\n",
        )
    } else {
        cat3("HTTP/1.1 200 OK\r\ncontent-length: 2\r\nconnection: ", connection, "\r\n\r\nok")
    }
}

/// A request that the capture server received.
#[derive(Debug)]
pub struct CapturedRequest {
    pub body: Vec<u8>,
    /// When the whole body had arrived, in nanoseconds of a steady clock.
    pub received_at: u64,
}

/// The requests that the capture server keeps, bounded in bytes and number.
#[derive(Debug)]
pub struct CaptureBuffer {
    pub requests: Vec<CapturedRequest>,
    pub bytes: usize,
}

/// The most bytes that are kept.
pub const MAX_CAPTURE_BYTES: usize = 33554432;

/// The most requests that are kept.
pub const MAX_CAPTURE_REQUESTS: usize = 262144;

impl CaptureBuffer {
    /// The bounds hold.
    pub open spec fn wf(self) -> bool {
        self.bytes <= MAX_CAPTURE_BYTES && self.requests@.len() <= MAX_CAPTURE_REQUESTS
    }

    /// Nothing is kept yet.
    pub fn new() -> (r: Self)
        ensures
            r.wf(),
            r.requests@.len() == 0,
            r.bytes == 0,
    {
        CaptureBuffer { requests: Vec::new(), bytes: 0 }
    }

    /// Keeps a request where the bounds allow it; says whether it was kept.
    pub fn keep(&mut self, request: CapturedRequest) -> (r: bool)
        requires
            old(self).wf(),
        ensures
            final(self).wf(),
            r == (old(self).bytes + request.body@.len() <= MAX_CAPTURE_BYTES && old(self).requests@.len() < MAX_CAPTURE_REQUESTS),
            r ==> final(self).requests@ == old(self).requests@.push(request) && final(self).bytes
                == old(self).bytes + request.body@.len(),
            !r ==> *final(self) == *old(self),
    {
        if request.body.len() > MAX_CAPTURE_BYTES || self.bytes + request.body.len()
            > MAX_CAPTURE_BYTES || self.requests.len() >= MAX_CAPTURE_REQUESTS {
            return false;
        }
        self.bytes = self.bytes + request.body.len();
        self.requests.push(request);
        true
    }

    /// Hands out what was kept and starts anew.
    pub fn drain_requests(&mut self) -> (r: Vec<CapturedRequest>)
        ensures
            r@ == old(self).requests@,
            final(self).requests@.len() == 0,
            final(self).bytes == 0,
    {
        let mut out: Vec<CapturedRequest> = Vec::new();
        std::mem::swap(&mut out, &mut self.requests);
        self.bytes = 0;
        out
    }
}

/// The status of the reply: that of the server, or 503 where the request was
/// not kept.
pub fn capture_status(captured: bool, status: u16) -> (r: u16)
    ensures
        r == if captured {
            status
        } else {
            503
        },
{
    if captured {
        status
    } else {
        503
    }
}

} // verus!
