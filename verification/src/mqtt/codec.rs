//! MQTT 3.1.1 packets as bytes. The remaining length is capped, so that a
//! misbehaving peer cannot make a buffer grow without bound.

use crate::error::{refuse, ConnectorError};
use crate::model::{fault, ErrorCode, Fault};
use crate::text::{cat2, cat4, dec, decimal, same};
use vstd::prelude::*;
use vstd::string::*;
use vstd::utf8::*;

verus! {

/// The largest variable part of a packet, in bytes.
pub const MAX_PACKET_BYTES: usize = 131072;

/// A packet.
#[derive(Debug, PartialEq, Eq)]
pub enum Packet {
    Connect(Connect),
    ConnAck { session_present: bool, return_code: u8 },
    Publish(Publish),
    Subscribe { packet_id: u16, topics: Vec<(String, u8)> },
    SubAck { packet_id: u16, codes: Vec<u8> },
    PingReq,
    PingResp,
    Disconnect,
}

/// The request of a client to open a session.
#[derive(Debug, PartialEq, Eq)]
pub struct Connect {
    pub client_id: String,
    pub clean_session: bool,
    pub keepalive: u16,
    pub username: Option<String>,
    pub password: Option<Vec<u8>>,
}

/// A message on a topic.
#[derive(Debug, PartialEq, Eq)]
pub struct Publish {
    pub dup: bool,
    pub qos: u8,
    pub retain: bool,
    pub topic: String,
    pub packet_id: Option<u16>,
    pub payload: Vec<u8>,
}

/// What a [`Connect`] says.
#[verifier::ext_equal]
pub ghost struct ConnectBody {
    pub client_id: Seq<char>,
    pub clean_session: bool,
    pub keepalive: u16,
    pub username: Option<Seq<char>>,
    pub password: Option<Seq<u8>>,
}

/// What a [`Publish`] says.
#[verifier::ext_equal]
pub ghost struct PublishBody {
    pub dup: bool,
    pub qos: u8,
    pub retain: bool,
    pub topic: Seq<char>,
    pub packet_id: Option<u16>,
    pub payload: Seq<u8>,
}

/// What a [`Packet`] says.
#[verifier::ext_equal]
pub ghost enum Message {
    Connect(ConnectBody),
    ConnAck { session_present: bool, return_code: u8 },
    Publish(PublishBody),
    Subscribe { packet_id: u16, topics: Seq<(Seq<char>, u8)> },
    SubAck { packet_id: u16, codes: Seq<u8> },
    PingReq,
    PingResp,
    Disconnect,
}

impl View for Connect {
    type V = ConnectBody;

    open spec fn view(&self) -> ConnectBody {
        ConnectBody {
            client_id: self.client_id@,
            clean_session: self.clean_session,
            keepalive: self.keepalive,
            username: match self.username {
                Some(u) => Some(u@),
                None => None,
            },
            password: match self.password {
                Some(p) => Some(p@),
                None => None,
            },
        }
    }
}

impl View for Publish {
    type V = PublishBody;

    open spec fn view(&self) -> PublishBody {
        PublishBody {
            dup: self.dup,
            qos: self.qos,
            retain: self.retain,
            topic: self.topic@,
            packet_id: self.packet_id,
            payload: self.payload@,
        }
    }
}

/// The topics of a subscription with the quality that is asked for.
pub open spec fn topic_list(v: Seq<(String, u8)>) -> Seq<(Seq<char>, u8)> {
    v.map_values(|p: (String, u8)| (p.0@, p.1))
}

impl View for Packet {
    type V = Message;

    open spec fn view(&self) -> Message {
        match *self {
            Packet::Connect(c) => Message::Connect(c@),
            Packet::ConnAck { session_present, return_code } => Message::ConnAck {
                session_present,
                return_code,
            },
            Packet::Publish(p) => Message::Publish(p@),
            Packet::Subscribe { packet_id, topics } => Message::Subscribe {
                packet_id,
                topics: topic_list(topics@),
            },
            Packet::SubAck { packet_id, codes } => Message::SubAck { packet_id, codes: codes@ },
            Packet::PingReq => Message::PingReq,
            Packet::PingResp => Message::PingResp,
            Packet::Disconnect => Message::Disconnect,
        }
    }
}

/// `String::from_utf8` accepts exactly the valid UTF-8 texts and then holds
/// the characters that the bytes encode.
#[verifier::external_body]
pub(crate) fn utf8_string(v: Vec<u8>) -> (r: Option<String>)
    ensures
        match r {
            Some(s) => valid_utf8(v@) && s@ == decode_utf8(v@),
            None => !valid_utf8(v@),
        },
{
    String::from_utf8(v).ok()
}

/// A violation of the wire format.
pub open spec fn violation(text: Seq<char>) -> Fault {
    fault(ErrorCode::CodecViolation, text)
}

fn bad(text: &str) -> (r: ConnectorError)
    ensures
        r@ == violation(text@),
{
    refuse(ErrorCode::CodecViolation, text)
}

/// A 16-bit number, high byte first.
pub open spec fn be16(n: int) -> Seq<u8> {
    seq![(n / 256) as u8, (n % 256) as u8]
}

/// A byte string with its length before it, which wraps at 65536.
pub open spec fn field(b: Seq<u8>) -> Seq<u8> {
    be16(b.len() as int % 65536) + b
}

/// A length in groups of seven bits, lowest first; a set high bit announces
/// another group.
pub open spec fn remaining(n: nat) -> Seq<u8>
    decreases n,
{
    if n < 128 {
        seq![n as u8]
    } else {
        seq![(n % 128 + 128) as u8] + remaining(n / 128)
    }
}

/// Appends `b` to `out`.
pub fn put_all(out: &mut Vec<u8>, b: &[u8])
    ensures
        final(out)@ == old(out)@ + b@,
{
    let mut i: usize = 0;
    let ghost start = out@;
    while i < b.len()
        invariant
            i <= b.len(),
            out@ == start + b@.take(i as int),
        decreases b.len() - i,
    {
        out.push(b[i]);
        i = i + 1;
        assert(b@.take(i as int) == b@.take(i - 1).push(b@[i - 1]));
    }
    assert(b@.take(b@.len() as int) == b@);
}

/// The part of `b` from `from` up to `to`.
pub fn part(b: &[u8], from: usize, to: usize) -> (r: Vec<u8>)
    requires
        from <= to <= b.len(),
    ensures
        r@ == b@.subrange(from as int, to as int),
{
    let mut r: Vec<u8> = Vec::new();
    let mut i: usize = from;
    while i < to
        invariant
            from <= i <= to <= b.len(),
            r@ == b@.subrange(from as int, i as int),
        decreases to - i,
    {
        r.push(b[i]);
        i = i + 1;
        assert(b@.subrange(from as int, i as int) == b@.subrange(from as int, i - 1).push(
            b@[i - 1],
        ));
    }
    r
}

fn put_u16(out: &mut Vec<u8>, n: u16)
    ensures
        final(out)@ == old(out)@ + be16(n as int),
{
    out.push((n / 256) as u8);
    out.push((n % 256) as u8);
    assert(out@ =~= old(out)@ + be16(n as int));
}

/// Appends a byte string with its length.
pub fn write_bytes(out: &mut Vec<u8>, s: &[u8])
    ensures
        final(out)@ == old(out)@ + field(s@),
{
    let n: u16 = (s.len() % 65536) as u16;
    put_u16(out, n);
    put_all(out, s);
    assert(out@ =~= old(out)@ + field(s@));
}

/// Appends a text with its length in bytes.
pub fn write_utf8(out: &mut Vec<u8>, s: &str)
    ensures
        final(out)@ == old(out)@ + field(encode_utf8(s@)),
{
    write_bytes(out, s.as_bytes());
}

/// Appends a length.
pub fn encode_remaining_length(len: usize, out: &mut Vec<u8>)
    ensures
        final(out)@ == old(out)@ + remaining(len as nat),
    decreases len,
{
    if len < 128 {
        out.push(len as u8);
        assert(out@ =~= old(out)@ + remaining(len as nat));
    } else {
        out.push((len % 128 + 128) as u8);
        encode_remaining_length(len / 128, out);
        assert(out@ =~= old(out)@ + remaining(len as nat));
    }
}

/// A packet from its first byte and its variable part.
pub open spec fn framed(first: u8, body: Seq<u8>) -> Result<Seq<u8>, Fault> {
    if body.len() > MAX_PACKET_BYTES {
        Err(
            fault(
                ErrorCode::MaxRecordSize,
                "MQTT packet "@ + decimal(body.len()) + "B exceeds "@ + decimal(
                    MAX_PACKET_BYTES as nat,
                ),
            ),
        )
    } else {
        Ok(seq![first] + remaining(body.len()) + body)
    }
}

/// A result with the bytes and the error taken by what they hold.
pub open spec fn bytes_seen(r: Result<Vec<u8>, ConnectorError>) -> Result<Seq<u8>, Fault> {
    match r {
        Ok(b) => Ok(b@),
        Err(e) => Err(e@),
    }
}

fn finish(first: u8, variable: Vec<u8>) -> (r: Result<Vec<u8>, ConnectorError>)
    ensures
        bytes_seen(r) == framed(first, variable@),
{
    if variable.len() > MAX_PACKET_BYTES {
        return Err(
            ConnectorError::new(
                ErrorCode::MaxRecordSize,
                cat4(
                    "MQTT packet ",
                    dec(variable.len() as u64).as_str(),
                    "B exceeds ",
                    dec(MAX_PACKET_BYTES as u64).as_str(),
                ),
            ),
        );
    }
    let mut out: Vec<u8> = Vec::new();
    out.push(first);
    encode_remaining_length(variable.len(), &mut out);
    put_all(&mut out, variable.as_slice());
    assert(out@ =~= seq![first] + remaining(variable@.len()) + variable@);
    Ok(out)
}

/// One where the flag is set.
pub open spec fn bit(b: bool) -> int {
    if b {
        1
    } else {
        0
    }
}

/// The variable part of a CONNECT.
pub open spec fn connect_bytes(c: ConnectBody) -> Seq<u8> {
    let flags = 2 * bit(c.clean_session) + 128 * bit(c.username is Some) + 64 * bit(
        c.password is Some,
    );
    let head = field(encode_utf8("MQTT"@)) + seq![4u8, flags as u8] + be16(c.keepalive as int)
        + field(encode_utf8(c.client_id));
    let user = match c.username {
        Some(u) => field(encode_utf8(u)),
        None => Seq::empty(),
    };
    let pass = match c.password {
        Some(p) => field(p),
        None => Seq::empty(),
    };
    head + user + pass
}

/// The variable part of a PUBLISH. A message with a quality above 0 carries an
/// identifier, 1 where it has none.
pub open spec fn publish_bytes(p: PublishBody) -> Seq<u8> {
    let id = if p.qos > 0 {
        be16(
            match p.packet_id {
                Some(i) => i as int,
                None => 1,
            },
        )
    } else {
        Seq::empty()
    };
    field(encode_utf8(p.topic)) + id + p.payload
}

/// The first byte of a PUBLISH.
pub open spec fn publish_first(p: PublishBody) -> u8 {
    (48 + 8 * bit(p.dup) + 2 * p.qos + bit(p.retain)) as u8
}

/// The topics of a subscription, each followed by its quality.
pub open spec fn topics_bytes(t: Seq<(Seq<char>, u8)>) -> Seq<u8>
    decreases t.len(),
{
    if t.len() == 0 {
        Seq::empty()
    } else {
        field(encode_utf8(t[0].0)) + seq![t[0].1] + topics_bytes(t.skip(1))
    }
}

/// The bytes of a packet.
pub open spec fn encoded(m: Message) -> Result<Seq<u8>, Fault> {
    match m {
        Message::Connect(c) => framed(0x10, connect_bytes(c)),
        Message::ConnAck { session_present, return_code } => Ok(
            seq![0x20u8, 0x02u8, bit(session_present) as u8, return_code],
        ),
        Message::Publish(p) => if p.qos > 2 {
            Err(violation("invalid publish qos"@))
        } else {
            framed(publish_first(p), publish_bytes(p))
        },
        Message::Subscribe { packet_id, topics } => framed(
            0x82,
            be16(packet_id as int) + topics_bytes(topics),
        ),
        Message::SubAck { packet_id, codes } => framed(0x90, be16(packet_id as int) + codes),
        Message::PingReq => Ok(seq![0xC0u8, 0x00u8]),
        Message::PingResp => Ok(seq![0xD0u8, 0x00u8]),
        Message::Disconnect => Ok(seq![0xE0u8, 0x00u8]),
    }
}

/// Encodes a CONNECT.
pub fn encode_connect(c: &Connect) -> (r: Result<Vec<u8>, ConnectorError>)
    ensures
        bytes_seen(r) == encoded(Message::Connect(c@)),
{
    let mut flags: u8 = 0;
    if c.clean_session {
        flags = flags + 2;
    }
    if c.username.is_some() {
        flags = flags + 128;
    }
    if c.password.is_some() {
        flags = flags + 64;
    }
    let mut vh: Vec<u8> = Vec::new();
    write_utf8(&mut vh, "MQTT");
    vh.push(4);
    vh.push(flags);
    put_u16(&mut vh, c.keepalive);
    write_utf8(&mut vh, c.client_id.as_str());
    assert(vh@ =~= field(encode_utf8("MQTT"@)) + seq![4u8, flags] + be16(c.keepalive as int)
        + field(encode_utf8(c.client_id@)));
    match &c.username {
        Some(u) => {
            write_utf8(&mut vh, u.as_str());
        },
        None => {},
    }
    match &c.password {
        Some(p) => {
            write_bytes(&mut vh, p.as_slice());
        },
        None => {},
    }
    assert(vh@ =~= connect_bytes(c@));
    finish(0x10, vh)
}

/// Encodes a PUBLISH.
pub fn encode_publish(p: &Publish) -> (r: Result<Vec<u8>, ConnectorError>)
    ensures
        bytes_seen(r) == encoded(Message::Publish(p@)),
{
    if p.qos > 2 {
        return Err(bad("invalid publish qos"));
    }
    let mut first: u8 = 48 + 2 * p.qos;
    if p.dup {
        first = first + 8;
    }
    if p.retain {
        first = first + 1;
    }
    let mut vh: Vec<u8> = Vec::new();
    write_utf8(&mut vh, p.topic.as_str());
    if p.qos > 0 {
        let id: u16 = match p.packet_id {
            Some(i) => i,
            None => 1,
        };
        put_u16(&mut vh, id);
    }
    put_all(&mut vh, p.payload.as_slice());
    assert(vh@ =~= publish_bytes(p@));
    finish(first, vh)
}

/// Encodes a SUBSCRIBE.
pub fn encode_subscribe(packet_id: u16, topics: &Vec<(String, u8)>) -> (r: Result<
    Vec<u8>,
    ConnectorError,
>)
    ensures
        bytes_seen(r) == encoded(Message::Subscribe { packet_id, topics: topic_list(topics@) }),
{
    let mut vh: Vec<u8> = Vec::new();
    put_u16(&mut vh, packet_id);
    let ghost t = topic_list(topics@);
    let ghost whole = be16(packet_id as int) + topics_bytes(t);
    let mut i: usize = 0;
    assert(t.skip(0) == t);
    assert(vh@ =~= be16(packet_id as int));
    while i < topics.len()
        invariant
            i <= topics.len(),
            t == topic_list(topics@),
            whole == vh@ + topics_bytes(t.skip(i as int)),
        decreases topics.len() - i,
    {
        let ghost before = vh@;
        write_utf8(&mut vh, topics[i].0.as_str());
        vh.push(topics[i].1);
        proof {
            let rest = t.skip(i as int);
            assert(rest[0] == t[i as int]);
            assert(rest.skip(1) == t.skip(i + 1));
            assert(whole =~= vh@ + topics_bytes(t.skip(i + 1)));
        }
        i = i + 1;
    }
    assert(topics_bytes(t.skip(t.len() as int)) == Seq::<u8>::empty());
    assert(vh@ =~= whole);
    finish(0x82, vh)
}

/// Encodes a packet.
pub fn encode(packet: &Packet) -> (r: Result<Vec<u8>, ConnectorError>)
    ensures
        bytes_seen(r) == encoded(packet@),
{
    match packet {
        Packet::Connect(c) => encode_connect(c),
        Packet::ConnAck { session_present, return_code } => {
            let present: u8 = if *session_present {
                1
            } else {
                0
            };
            let out: Vec<u8> = vec![0x20, 0x02, present, *return_code];
            assert(out@ =~= seq![0x20u8, 0x02u8, present, *return_code]);
            Ok(out)
        },
        Packet::Publish(p) => encode_publish(p),
        Packet::Subscribe { packet_id, topics } => encode_subscribe(*packet_id, topics),
        Packet::SubAck { packet_id, codes } => {
            let mut vh: Vec<u8> = Vec::new();
            put_u16(&mut vh, *packet_id);
            put_all(&mut vh, codes.as_slice());
            assert(vh@ =~= be16(*packet_id as int) + codes@);
            finish(0x90, vh)
        },
        Packet::PingReq => {
            let out: Vec<u8> = vec![0xC0, 0x00];
            assert(out@ =~= seq![0xC0u8, 0x00u8]);
            Ok(out)
        },
        Packet::PingResp => {
            let out: Vec<u8> = vec![0xD0, 0x00];
            assert(out@ =~= seq![0xD0u8, 0x00u8]);
            Ok(out)
        },
        Packet::Disconnect => {
            let out: Vec<u8> = vec![0xE0, 0x00];
            assert(out@ =~= seq![0xE0u8, 0x00u8]);
            Ok(out)
        },
    }
}

/// A 16-bit number at `i`, high byte first.
pub open spec fn u16_at(b: Seq<u8>, i: int) -> int {
    b[i] * 256 + b[i + 1]
}

/// The byte string that starts at `i`, and where what follows it starts.
#[verifier::opaque]
pub open spec fn field_at(b: Seq<u8>, i: int) -> Result<(Seq<u8>, int), Fault> {
    if i + 1 >= b.len() {
        Err(violation("short MQTT string"@))
    } else {
        let n = u16_at(b, i);
        if i + 2 + n > b.len() {
            Err(violation("truncated MQTT string"@))
        } else {
            Ok((b.subrange(i + 2, i + 2 + n), i + 2 + n))
        }
    }
}

/// The text that starts at `i`, and where what follows it starts.
#[verifier::opaque]
pub open spec fn text_at(b: Seq<u8>, i: int) -> Result<(Seq<char>, int), Fault> {
    match field_at(b, i) {
        Err(f) => Err(f),
        Ok((t, j)) => if valid_utf8(t) {
            Ok((decode_utf8(t), j))
        } else {
            Err(violation("MQTT string is not UTF-8"@))
        },
    }
}

/// Reads a byte string and moves `i` behind it.
pub fn read_bytes(buf: &[u8], i: &mut usize) -> (r: Result<Vec<u8>, ConnectorError>)
    ensures
        match r {
            Ok(b) => field_at(buf@, *old(i) as int) == Ok::<(Seq<u8>, int), Fault>(
                (b@, *final(i) as int),
            ) && *old(i) < *final(i) <= buf.len(),
            Err(e) => field_at(buf@, *old(i) as int) == Err::<(Seq<u8>, int), Fault>(e@),
        },
{
    reveal(field_at);
    let at: usize = *i;
    if at >= buf.len() || buf.len() - at < 2 {
        return Err(bad("short MQTT string"));
    }
    let n: usize = (buf[at] as usize) * 256 + (buf[at + 1] as usize);
    if buf.len() - at - 2 < n {
        return Err(bad("truncated MQTT string"));
    }
    let out: Vec<u8> = part(buf, at + 2, at + 2 + n);
    *i = at + 2 + n;
    Ok(out)
}

/// Reads a text and moves `i` behind it.
pub fn read_utf8(buf: &[u8], i: &mut usize) -> (r: Result<String, ConnectorError>)
    ensures
        match r {
            Ok(s) => text_at(buf@, *old(i) as int) == Ok::<(Seq<char>, int), Fault>(
                (s@, *final(i) as int),
            ) && *old(i) < *final(i) <= buf.len(),
            Err(e) => text_at(buf@, *old(i) as int) == Err::<(Seq<char>, int), Fault>(e@),
        },
{
    reveal(text_at);
    match read_bytes(buf, i) {
        Err(e) => Err(e),
        Ok(b) => match utf8_string(b) {
            Some(s) => Ok(s),
            None => Err(bad("MQTT string is not UTF-8")),
        },
    }
}

/// Whether the bit of value `w` is set.
pub open spec fn flag_set(flags: u8, w: int) -> bool {
    (flags as int / w) % 2 == 1
}

/// What a CONNECT says after its flags.
pub open spec fn connect_tail(
    b: Seq<u8>,
    i: int,
    flags: u8,
    keepalive: int,
    client_id: Seq<char>,
) -> Result<ConnectBody, Fault> {
    let after_will = if flag_set(flags, 4) {
        match text_at(b, i) {
            Err(f) => Err(f),
            Ok((_, j)) => match field_at(b, j) {
                Err(f) => Err(f),
                Ok((_, k)) => Ok(k),
            },
        }
    } else {
        Ok(i)
    };
    match after_will {
        Err(f) => Err(f),
        Ok(j) => {
            let user = if flag_set(flags, 128) {
                match text_at(b, j) {
                    Err(f) => Err(f),
                    Ok((u, k)) => Ok((Some(u), k)),
                }
            } else {
                Ok((None, j))
            };
            match user {
                Err(f) => Err(f),
                Ok((username, k)) => {
                    let pass = if flag_set(flags, 64) {
                        match field_at(b, k) {
                            Err(f) => Err(f),
                            Ok((p, _)) => Ok(Some(p)),
                        }
                    } else {
                        Ok(None)
                    };
                    match pass {
                        Err(f) => Err(f),
                        Ok(password) => Ok(
                            ConnectBody {
                                client_id,
                                clean_session: flag_set(flags, 2),
                                keepalive: keepalive as u16,
                                username,
                                password,
                            },
                        ),
                    }
                },
            }
        },
    }
}

/// What a CONNECT says.
pub open spec fn connect_in(b: Seq<u8>) -> Result<ConnectBody, Fault> {
    match text_at(b, 0) {
        Err(f) => Err(f),
        Ok((proto, i)) => if proto != "MQTT"@ {
            Err(violation("protocol name "@ + proto))
        } else if i >= b.len() {
            Err(violation("short CONNECT"@))
        } else if i + 3 >= b.len() {
            Err(violation("short CONNECT flags"@))
        } else {
            match text_at(b, i + 4) {
                Err(f) => Err(f),
                Ok((client_id, j)) => connect_tail(b, j, b[i + 1], u16_at(b, i + 2), client_id),
            }
        },
    }
}

/// What a PUBLISH says.
pub open spec fn publish_in(first: u8, b: Seq<u8>) -> Result<PublishBody, Fault> {
    match text_at(b, 0) {
        Err(f) => Err(f),
        Ok((topic, i)) => {
            let qos = ((first as int / 2) % 4) as u8;
            if qos > 0 && i + 1 >= b.len() {
                Err(violation("short PUBLISH id"@))
            } else {
                let j = if qos > 0 {
                    i + 2
                } else {
                    i
                };
                Ok(
                    PublishBody {
                        dup: flag_set(first, 8),
                        qos,
                        retain: flag_set(first, 1),
                        topic,
                        packet_id: if qos > 0 {
                            Some(u16_at(b, i) as u16)
                        } else {
                            None
                        },
                        payload: b.skip(j),
                    },
                )
            }
        },
    }
}

/// The topics from `i` to the end.
pub open spec fn topics_in(b: Seq<u8>, i: int) -> Result<Seq<(Seq<char>, u8)>, Fault>
    decreases b.len() - i,
{
    if i < 0 || i >= b.len() {
        Ok(Seq::empty())
    } else {
        match text_at(b, i) {
            Err(f) => Err(f),
            Ok((t, j)) => if j >= b.len() {
                Err(violation("short SUBSCRIBE qos"@))
            } else if j < i {
                Ok(Seq::empty())
            } else {
                match topics_in(b, j + 1) {
                    Err(f) => Err(f),
                    Ok(rest) => Ok(seq![(t, b[j])] + rest),
                }
            },
        }
    }
}

/// What a packet says, from its first byte and its variable part.
pub open spec fn decoded(first: u8, b: Seq<u8>) -> Result<Message, Fault> {
    let kind = first / 16;
    if kind == 1 {
        match connect_in(b) {
            Ok(c) => Ok(Message::Connect(c)),
            Err(f) => Err(f),
        }
    } else if kind == 2 {
        if b.len() < 2 {
            Err(violation("short CONNACK"@))
        } else {
            Ok(Message::ConnAck { session_present: flag_set(b[0], 1), return_code: b[1] })
        }
    } else if kind == 3 {
        match publish_in(first, b) {
            Ok(p) => Ok(Message::Publish(p)),
            Err(f) => Err(f),
        }
    } else if kind == 8 {
        if b.len() < 2 {
            Err(violation("short SUBSCRIBE"@))
        } else {
            match topics_in(b, 2) {
                Ok(topics) => Ok(Message::Subscribe { packet_id: u16_at(b, 0) as u16, topics }),
                Err(f) => Err(f),
            }
        }
    } else if kind == 9 {
        if b.len() < 2 {
            Err(violation("short SUBACK"@))
        } else {
            Ok(Message::SubAck { packet_id: u16_at(b, 0) as u16, codes: b.skip(2) })
        }
    } else if kind == 12 {
        Ok(Message::PingReq)
    } else if kind == 13 {
        Ok(Message::PingResp)
    } else if kind == 14 {
        Ok(Message::Disconnect)
    } else {
        Err(violation("unsupported MQTT packet type "@ + decimal(kind as nat)))
    }
}

/// Decodes a CONNECT.
pub fn decode_connect(payload: &[u8]) -> (r: Result<Connect, ConnectorError>)
    ensures
        match r {
            Ok(c) => connect_in(payload@) == Ok::<ConnectBody, Fault>(c@),
            Err(e) => connect_in(payload@) == Err::<ConnectBody, Fault>(e@),
        },
{
    let mut i: usize = 0;
    let proto: String = match read_utf8(payload, &mut i) {
        Ok(s) => s,
        Err(e) => {
            return Err(e);
        },
    };
    if !same(proto.as_str(), "MQTT") {
        return Err(
            ConnectorError::new(
                ErrorCode::CodecViolation,
                cat2("protocol name ", proto.as_str()),
            ),
        );
    }
    if i >= payload.len() {
        return Err(bad("short CONNECT"));
    }
    if payload.len() - i <= 3 {
        return Err(bad("short CONNECT flags"));
    }
    let flags: u8 = payload[i + 1];
    let keepalive: u16 = (payload[i + 2] as u16) * 256 + (payload[i + 3] as u16);
    i = i + 4;
    let client_id: String = match read_utf8(payload, &mut i) {
        Ok(s) => s,
        Err(e) => {
            return Err(e);
        },
    };
    if (flags / 4) % 2 == 1 {
        match read_utf8(payload, &mut i) {
            Ok(_) => {},
            Err(e) => {
                return Err(e);
            },
        }
        match read_bytes(payload, &mut i) {
            Ok(_) => {},
            Err(e) => {
                return Err(e);
            },
        }
    }
    let username: Option<String> = if (flags / 128) % 2 == 1 {
        match read_utf8(payload, &mut i) {
            Ok(s) => Some(s),
            Err(e) => {
                return Err(e);
            },
        }
    } else {
        None
    };
    let password: Option<Vec<u8>> = if (flags / 64) % 2 == 1 {
        match read_bytes(payload, &mut i) {
            Ok(b) => Some(b),
            Err(e) => {
                return Err(e);
            },
        }
    } else {
        None
    };
    Ok(Connect { client_id, clean_session: (flags / 2) % 2 == 1, keepalive, username, password })
}

/// Decodes a PUBLISH.
pub fn decode_publish(first: u8, payload: &[u8]) -> (r: Result<Publish, ConnectorError>)
    ensures
        match r {
            Ok(p) => publish_in(first, payload@) == Ok::<PublishBody, Fault>(p@),
            Err(e) => publish_in(first, payload@) == Err::<PublishBody, Fault>(e@),
        },
{
    let mut i: usize = 0;
    let topic: String = match read_utf8(payload, &mut i) {
        Ok(s) => s,
        Err(e) => {
            return Err(e);
        },
    };
    let qos: u8 = (first / 2) % 4;
    let mut packet_id: Option<u16> = None;
    if qos > 0 {
        if payload.len() - i < 2 {
            return Err(bad("short PUBLISH id"));
        }
        packet_id = Some((payload[i] as u16) * 256 + (payload[i + 1] as u16));
        i = i + 2;
    }
    let rest: Vec<u8> = part(payload, i, payload.len());
    assert(rest@ == payload@.skip(i as int));
    Ok(
        Publish {
            dup: (first / 8) % 2 == 1,
            qos,
            retain: first % 2 == 1,
            topic,
            packet_id,
            payload: rest,
        },
    )
}

/// What `acc` and a list that follows it give together.
pub open spec fn after<T>(acc: Seq<T>, r: Result<Seq<T>, Fault>) -> Result<Seq<T>, Fault> {
    match r {
        Ok(rest) => Ok(acc + rest),
        Err(f) => Err(f),
    }
}

/// Decodes a SUBSCRIBE.
pub fn decode_subscribe(payload: &[u8]) -> (r: Result<Packet, ConnectorError>)
    ensures
        match r {
            Ok(p) => decoded(0x82, payload@) == Ok::<Message, Fault>(p@),
            Err(e) => decoded(0x82, payload@) == Err::<Message, Fault>(e@),
        },
{
    if payload.len() < 2 {
        return Err(bad("short SUBSCRIBE"));
    }
    let packet_id: u16 = (payload[0] as u16) * 256 + (payload[1] as u16);
    let mut i: usize = 2;
    let mut topics: Vec<(String, u8)> = Vec::new();
    assert(topic_list(topics@) == Seq::<(Seq<char>, u8)>::empty());
    proof {
        match topics_in(payload@, 2) {
            Ok(t) => assert(topic_list(topics@) + t == t),
            Err(_) => {},
        }
    }
    while i < payload.len()
        invariant
            2 <= i <= payload.len(),
            packet_id == u16_at(payload@, 0),
            topics_in(payload@, 2) == after(
                topic_list(topics@),
                topics_in(payload@, i as int),
            ),
        decreases payload.len() - i,
    {
        let ghost at = i as int;
        let ghost before = topics@;
        let t: String = match read_utf8(payload, &mut i) {
            Ok(s) => s,
            Err(e) => {
                return Err(e);
            },
        };
        if i >= payload.len() {
            return Err(bad("short SUBSCRIBE qos"));
        }
        let q: u8 = payload[i];
        let ghost tv = t@;
        topics.push((t, q));
        assert(topic_list(topics@) == topic_list(before).push((tv, q)));
        proof {
            match topics_in(payload@, i + 1) {
                Ok(rest) => {
                    assert(topic_list(before) + (seq![(tv, q)] + rest) == topic_list(topics@)
                        + rest);
                },
                Err(_) => {},
            }
        }
        i = i + 1;
    }
    assert(topic_list(topics@) + Seq::<(Seq<char>, u8)>::empty() == topic_list(topics@));
    Ok(Packet::Subscribe { packet_id, topics })
}

/// Decodes a packet from its first byte and its variable part.
pub fn decode(first: u8, payload: &[u8]) -> (r: Result<Packet, ConnectorError>)
    ensures
        match r {
            Ok(p) => decoded(first, payload@) == Ok::<Message, Fault>(p@),
            Err(e) => decoded(first, payload@) == Err::<Message, Fault>(e@),
        },
{
    let kind: u8 = first / 16;
    if kind == 1 {
        match decode_connect(payload) {
            Ok(c) => Ok(Packet::Connect(c)),
            Err(e) => Err(e),
        }
    } else if kind == 2 {
        if payload.len() < 2 {
            return Err(bad("short CONNACK"));
        }
        Ok(Packet::ConnAck { session_present: payload[0] % 2 == 1, return_code: payload[1] })
    } else if kind == 3 {
        match decode_publish(first, payload) {
            Ok(p) => Ok(Packet::Publish(p)),
            Err(e) => Err(e),
        }
    } else if kind == 8 {
        decode_subscribe(payload)
    } else if kind == 9 {
        if payload.len() < 2 {
            return Err(bad("short SUBACK"));
        }
        let codes: Vec<u8> = part(payload, 2, payload.len());
        assert(codes@ == payload@.skip(2));
        Ok(
            Packet::SubAck {
                packet_id: (payload[0] as u16) * 256 + (payload[1] as u16),
                codes,
            },
        )
    } else if kind == 12 {
        Ok(Packet::PingReq)
    } else if kind == 13 {
        Ok(Packet::PingResp)
    } else if kind == 14 {
        Ok(Packet::Disconnect)
    } else {
        Err(
            ConnectorError::new(
                ErrorCode::CodecViolation,
                cat2("unsupported MQTT packet type ", dec(kind as u64).as_str()),
            ),
        )
    }
}

/// The length that groups of seven bits from `i` on give, where the groups
/// before them give `value` and the next is worth `weight`.
pub open spec fn length_from(b: Seq<u8>, i: int, weight: int, value: int) -> Result<
    (int, int),
    Fault,
>
    decreases b.len() - i,
{
    if i >= b.len() {
        Err(violation("incomplete remaining length"@))
    } else {
        let v = value + (b[i] % 128) * weight;
        if b[i] < 128 {
            if v > MAX_PACKET_BYTES {
                Err(
                    fault(
                        ErrorCode::MaxRecordSize,
                        "MQTT remaining length "@ + decimal(v as nat) + " exceeds "@ + decimal(
                            MAX_PACKET_BYTES as nat,
                        ),
                    ),
                )
            } else {
                Ok((v, i + 1))
            }
        } else if i >= 3 {
            Err(violation("MQTT remaining length overflow"@))
        } else {
            length_from(b, i + 1, weight * 128, v)
        }
    }
}

/// The remaining length at the start of `b`, and how many bytes it takes.
pub open spec fn length_in(b: Seq<u8>) -> Result<(int, int), Fault> {
    length_from(b, 0, 1, 0)
}

/// Decodes a remaining length.
pub fn decode_remaining_length(buf: &[u8]) -> (r: Result<(usize, usize), ConnectorError>)
    ensures
        match r {
            Ok((n, k)) => length_in(buf@) == Ok::<(int, int), Fault>((n as int, k as int)) && n
                <= MAX_PACKET_BYTES && k <= buf.len(),
            Err(e) => length_in(buf@) == Err::<(int, int), Fault>(e@),
        },
{
    let mut weight: u32 = 1;
    let mut value: u32 = 0;
    let mut i: usize = 0;
    while i < buf.len()
        invariant
            i <= buf.len(),
            i <= 3 || i == buf.len(),
            i == 0 ==> weight == 1 && value == 0,
            i == 1 ==> weight == 128 && value < 128,
            i == 2 ==> weight == 16384 && value < 16384,
            i == 3 ==> weight == 2097152 && value < 2097152,
            i <= 3,
            length_in(buf@) == length_from(buf@, i as int, weight as int, value as int),
        decreases buf.len() - i,
    {
        let b: u8 = buf[i];
        let low: u32 = (b % 128) as u32;
        assert(low * weight <= 127 * weight) by (nonlinear_arith)
            requires
                low <= 127,
                weight >= 0,
        ;
        value = value + low * weight;
        if b < 128 {
            if value as usize > MAX_PACKET_BYTES {
                return Err(
                    ConnectorError::new(
                        ErrorCode::MaxRecordSize,
                        cat4(
                            "MQTT remaining length ",
                            dec(value as u64).as_str(),
                            " exceeds ",
                            dec(MAX_PACKET_BYTES as u64).as_str(),
                        ),
                    ),
                );
            }
            return Ok((value as usize, i + 1));
        }
        if i >= 3 {
            return Err(bad("MQTT remaining length overflow"));
        }
        weight = weight * 128;
        i = i + 1;
    }
    Err(bad("incomplete remaining length"))
}

} // verus!
