//! Packets out of a stream of bytes. Bytes that make no whole packet yet stay
//! in the buffer.

use super::codec::{
    be16, bit, connect_bytes, connect_in, connect_tail, decode, decode_remaining_length, decoded,
    encoded, field, field_at, framed, flag_set, length_from, length_in, part, publish_bytes,
    publish_first, publish_in, put_all, remaining, text_at, topics_bytes, topics_in, u16_at,
    violation, Connect, ConnectBody, Message, Packet, Publish, PublishBody, MAX_PACKET_BYTES,
};
use crate::error::{refuse, ConnectorError};
use crate::model::{fault, ErrorCode, Fault};
use vstd::prelude::*;
use vstd::utf8::*;

verus! {

/// Where the remaining length that starts at `used` ends; nothing while it is
/// incomplete.
pub open spec fn header_end(b: Seq<u8>, used: int) -> Result<Option<int>, Fault>
    decreases b.len() - used,
{
    if used >= b.len() {
        Ok(None)
    } else if b[used] < 128 {
        Ok(Some(used + 1))
    } else if used > 4 {
        Err(violation("MQTT remaining length too long"@))
    } else {
        header_end(b, used + 1)
    }
}

/// The first packet of a stream, and how many bytes it takes; nothing while it
/// is incomplete.
pub open spec fn frame(b: Seq<u8>) -> Result<Option<(Message, int)>, Fault> {
    if b.len() == 0 {
        Ok(None)
    } else {
        match header_end(b, 1) {
            Err(f) => Err(f),
            Ok(None) => Ok(None),
            Ok(Some(used)) => match length_in(b.subrange(1, used)) {
                Err(f) => Err(f),
                Ok((n, _)) => if b.len() < used + n {
                    Ok(None)
                } else {
                    match decoded(b[0], b.subrange(used, used + n)) {
                        Err(f) => Err(f),
                        Ok(m) => Ok(Some((m, used + n))),
                    }
                },
            },
        }
    }
}

/// Takes the first whole packet off the front of a buffer. Otherwise the
/// buffer stays as it is.
pub fn try_decode_frame(buf: &mut Vec<u8>) -> (r: Result<Option<Packet>, ConnectorError>)
    ensures
        match r {
            Ok(Some(p)) => {
                let n = old(buf)@.len() - final(buf)@.len();
                frame(old(buf)@) == Ok::<Option<(Message, int)>, Fault>(Some((p@, n))) && final(buf)@ == old(buf)@.skip(n)
            },
            Ok(None) => frame(old(buf)@) == Ok::<Option<(Message, int)>, Fault>(None) && final(buf)@ == old(buf)@,
            Err(e) => frame(old(buf)@) == Err::<Option<(Message, int)>, Fault>(e@) && final(buf)@
                == old(buf)@,
        },
{
    if buf.len() == 0 {
        return Ok(None);
    }
    let first: u8 = buf[0];
    let mut used: usize = 1;
    let ghost whole = buf@;
    loop
        invariant_except_break
            1 <= used <= 5,
            used <= buf.len(),
            header_end(whole, 1) == header_end(whole, used as int),
        invariant
            buf@ == whole,
            whole == old(buf)@,
            whole.len() > 0,
            first == whole[0],
        ensures
            1 <= used <= buf.len(),
            header_end(whole, 1) == Ok::<Option<int>, Fault>(Some(used as int)),
        decreases buf.len() - used,
    {
        if used >= buf.len() {
            return Ok(None);
        }
        let b: u8 = buf[used];
        if b < 128 {
            used = used + 1;
            break;
        }
        if used > 4 {
            return Err(refuse(ErrorCode::CodecViolation, "MQTT remaining length too long"));
        }
        used = used + 1;
    }
    let header: Vec<u8> = part(buf.as_slice(), 1, used);
    let len: usize = match decode_remaining_length(header.as_slice()) {
        Ok((n, _)) => n,
        Err(e) => {
            return Err(e);
        },
    };
    if buf.len() - used < len {
        return Ok(None);
    }
    let payload: Vec<u8> = part(buf.as_slice(), used, used + len);
    match decode(first, payload.as_slice()) {
        Err(e) => Err(e),
        Ok(p) => {
            let rest: Vec<u8> = part(buf.as_slice(), used + len, buf.len());
            *buf = rest;
            assert(buf@ == whole.skip(used + len));
            Ok(Some(p))
        },
    }
}

/// A reader that keeps the bytes of an incomplete packet.
#[derive(Debug)]
pub struct MqttFramedReader {
    pub buf: Vec<u8>,
}

impl MqttFramedReader {
    /// A reader without any bytes.
    pub fn new() -> (r: Self)
        ensures
            r.buf@ == Seq::<u8>::empty(),
    {
        MqttFramedReader { buf: Vec::new() }
    }

    /// Takes the next whole packet, if there is one.
    pub fn try_next(&mut self) -> (r: Result<Option<Packet>, ConnectorError>)
        ensures
            match r {
                Ok(Some(p)) => {
                    let n = old(self).buf@.len() - final(self).buf@.len();
                    frame(old(self).buf@) == Ok::<Option<(Message, int)>, Fault>(Some((p@, n)))
                        && final(self).buf@ == old(self).buf@.skip(n)
                },
                Ok(None) => frame(old(self).buf@) == Ok::<Option<(Message, int)>, Fault>(None)
                    && final(self).buf@ == old(self).buf@,
                Err(e) => frame(old(self).buf@) == Err::<Option<(Message, int)>, Fault>(e@)
                    && final(self).buf@ == old(self).buf@,
            },
    {
        try_decode_frame(&mut self.buf)
    }

    /// Takes in what was read from the stream: nothing read means that the
    /// peer closed it, and the buffer is bounded.
    pub fn feed(&mut self, bytes: &[u8]) -> (r: Result<(), ConnectorError>)
        ensures
            final(self).buf@ == old(self).buf@ + bytes@,
            match r {
                Ok(()) => bytes@.len() > 0 && final(self).buf@.len() <= MAX_PACKET_BYTES + 8,
                Err(e) => if bytes@.len() == 0 {
                    e@ == closed_fault()
                } else {
                    final(self).buf@.len() > MAX_PACKET_BYTES + 8 && e@ == exceeded_fault()
                },
            },
    {
        if bytes.len() == 0 {
            assert(self.buf@ == self.buf@ + bytes@);
            return Err(refuse(ErrorCode::Internal, "MQTT connection closed"));
        }
        put_all(&mut self.buf, bytes);
        if self.buf.len() > MAX_PACKET_BYTES + 8 {
            return Err(refuse(ErrorCode::MaxRecordSize, "MQTT framed buffer exceeded"));
        }
        Ok(())
    }
}

/// A text fits the length field of the wire format.
pub open spec fn fits(s: Seq<char>) -> bool {
    encode_utf8(s).len() < 65536
}

/// A packet that the wire format can express without loss: every string fits
/// its length field, the quality is one that exists, and a message has an
/// identifier exactly where its quality is above 0.
pub open spec fn expressible(m: Message) -> bool {
    match m {
        Message::Connect(c) => {
            &&& fits(c.client_id)
            &&& (c.username matches Some(u) ==> fits(u))
            &&& (c.password matches Some(p) ==> p.len() < 65536)
        },
        Message::Publish(p) => {
            &&& p.qos <= 2
            &&& fits(p.topic)
            &&& (p.packet_id is Some <==> p.qos > 0)
        },
        Message::Subscribe { topics, .. } => forall|i: int|
            0 <= i < topics.len() ==> fits((#[trigger] topics[i]).0),
        _ => true,
    }
}

proof fn lemma_field_read(pre: Seq<u8>, b: Seq<u8>, post: Seq<u8>)
    requires
        b.len() < 65536,
    ensures
        field_at(pre + field(b) + post, pre.len() as int) == Ok::<(Seq<u8>, int), Fault>(
            (b, (pre.len() + 2 + b.len()) as int),
        ),
{
    reveal(field_at);
    let w = pre + field(b) + post;
    let i = pre.len() as int;
    let n = b.len() as int;
    assert(w[i] == (n / 256) as u8);
    assert(w[i + 1] == (n % 256) as u8);
    assert(u16_at(w, i) == n);
    assert(w.subrange(i + 2, i + 2 + n) =~= b);
}

pub(crate) proof fn lemma_text_read(pre: Seq<u8>, s: Seq<char>, post: Seq<u8>)
    requires
        fits(s),
    ensures
        text_at(pre + field(encode_utf8(s)) + post, pre.len() as int) == Ok::<
            (Seq<char>, int),
            Fault,
        >((s, (pre.len() + 2 + encode_utf8(s).len()) as int)),
{
    reveal(text_at);
    lemma_field_read(pre, encode_utf8(s), post);
    encode_utf8_valid_utf8(s);
    encode_utf8_decode_utf8(s);
}

spec fn optional_text(o: Option<Seq<char>>) -> Seq<u8> {
    match o {
        Some(u) => field(encode_utf8(u)),
        None => Seq::empty(),
    }
}

spec fn optional_bytes(o: Option<Seq<u8>>) -> Seq<u8> {
    match o {
        Some(p) => field(p),
        None => Seq::empty(),
    }
}

spec fn connect_flags(c: ConnectBody) -> u8 {
    (2 * bit(c.clean_session) + 128 * bit(c.username is Some) + 64 * bit(c.password is Some)) as u8
}

proof fn lemma_connect_flags(c: ConnectBody)
    ensures
        !flag_set(connect_flags(c), 4),
        flag_set(connect_flags(c), 2) == c.clean_session,
        flag_set(connect_flags(c), 128) == (c.username is Some),
        flag_set(connect_flags(c), 64) == (c.password is Some),
{
}

proof fn lemma_connect_tail_read(pre: Seq<u8>, c: ConnectBody)
    requires
        expressible(Message::Connect(c)),
    ensures
        connect_tail(
            pre + optional_text(c.username) + optional_bytes(c.password),
            pre.len() as int,
            connect_flags(c),
            c.keepalive as int,
            c.client_id,
        ) == Ok::<ConnectBody, Fault>(c),
{
    let user = optional_text(c.username);
    let pass = optional_bytes(c.password);
    let w = pre + user + pass;
    let empty = Seq::<u8>::empty();
    lemma_connect_flags(c);
    match c.username {
        Some(u) => {
            lemma_text_read(pre, u, pass);
        },
        None => {},
    }
    match c.password {
        Some(p) => {
            assert(w =~= (pre + user) + field(p) + empty);
            lemma_field_read(pre + user, p, empty);
        },
        None => {},
    }
}

proof fn lemma_connect_read(c: ConnectBody)
    requires
        expressible(Message::Connect(c)),
    ensures
        connect_in(connect_bytes(c)) == Ok::<ConnectBody, Fault>(c),
{
    let w = connect_bytes(c);
    let name = encode_utf8("MQTT"@);
    reveal_strlit("MQTT");
    is_ascii_chars_encode_utf8("MQTT"@);
    assert(name.len() == 4);
    let mid = seq![4u8, connect_flags(c)] + be16(c.keepalive as int);
    let id = field(encode_utf8(c.client_id));
    let tail = optional_text(c.username) + optional_bytes(c.password);
    let empty = Seq::<u8>::empty();
    let pre = field(name) + mid;
    assert(pre.len() == 10);
    assert(w =~= pre + id + tail);
    assert(w =~= empty + field(name) + (mid + id + tail));
    lemma_text_read(empty, "MQTT"@, mid + id + tail);
    assert(pre[7] == connect_flags(c));
    assert(pre[8] == (c.keepalive as int / 256) as u8);
    assert(pre[9] == (c.keepalive as int % 256) as u8);
    assert(w[7] == pre[7] && w[8] == pre[8] && w[9] == pre[9]);
    assert(u16_at(w, 8) == c.keepalive);
    lemma_text_read(pre, c.client_id, tail);
    assert(w =~= (pre + id) + optional_text(c.username) + optional_bytes(c.password));
    lemma_connect_tail_read(pre + id, c);
}

proof fn lemma_publish_read(p: PublishBody)
    requires
        expressible(Message::Publish(p)),
    ensures
        publish_first(p) / 16 == 3,
        publish_in(publish_first(p), publish_bytes(p)) == Ok::<PublishBody, Fault>(p),
{
    let w = publish_bytes(p);
    let first = publish_first(p);
    let id = if p.qos > 0 {
        be16(p.packet_id->0 as int)
    } else {
        Seq::empty()
    };
    let topic = field(encode_utf8(p.topic));
    let empty = Seq::<u8>::empty();
    assert(w =~= empty + topic + (id + p.payload));
    lemma_text_read(empty, p.topic, id + p.payload);
    assert((first as int / 2) % 4 == p.qos);
    let i = topic.len() as int;
    if p.qos > 0 {
        assert(w[i] == id[0]);
        assert(w[i + 1] == id[1]);
        assert(u16_at(w, i) == p.packet_id->0);
        assert(w.skip(i + 2) =~= p.payload);
    } else {
        assert(w.skip(i) =~= p.payload);
    }
}

proof fn lemma_topics_read(pre: Seq<u8>, t: Seq<(Seq<char>, u8)>)
    requires
        forall|i: int| 0 <= i < t.len() ==> fits((#[trigger] t[i]).0),
    ensures
        topics_in(pre + topics_bytes(t), pre.len() as int) == Ok::<Seq<(Seq<char>, u8)>, Fault>(t),
    decreases t.len(),
{
    let w = pre + topics_bytes(t);
    if t.len() == 0 {
        assert(t =~= Seq::empty());
    } else {
        let head = field(encode_utf8(t[0].0));
        let rest = topics_bytes(t.skip(1));
        assert(w =~= pre + head + (seq![t[0].1] + rest));
        lemma_text_read(pre, t[0].0, seq![t[0].1] + rest);
        let j = (pre.len() + head.len()) as int;
        assert(w[j] == t[0].1);
        let next = pre + head + seq![t[0].1];
        assert(w =~= next + rest);
        assert forall|i: int| 0 <= i < t.skip(1).len() implies fits(
            (#[trigger] t.skip(1)[i]).0,
        ) by {
            assert(t.skip(1)[i] == t[i + 1]);
        }
        lemma_topics_read(next, t.skip(1));
        assert(seq![(t[0].0, w[j])] + t.skip(1) =~= t);
    }
}

pub(crate) proof fn lemma_remaining_shape(n: nat)
    requires
        n <= MAX_PACKET_BYTES,
    ensures
        1 <= remaining(n).len() <= 3,
        n < 128 ==> remaining(n) == seq![n as u8],
        128 <= n < 16384 ==> remaining(n) == seq![(n % 128 + 128) as u8, (n / 128) as u8],
        16384 <= n ==> remaining(n) == seq![
            (n % 128 + 128) as u8,
            ((n / 128) % 128 + 128) as u8,
            (n / 16384) as u8,
        ],
{
    reveal_with_fuel(remaining, 4);
    if n < 128 {
    } else if n < 16384 {
        assert(n / 128 < 128);
        assert(remaining(n) =~= seq![(n % 128 + 128) as u8, (n / 128) as u8]);
    } else {
        assert(n / 128 >= 128);
        assert((n / 128) / 128 == n / 16384);
        assert(n / 16384 < 128);
        assert(remaining(n) =~= seq![
            (n % 128 + 128) as u8,
            ((n / 128) % 128 + 128) as u8,
            (n / 16384) as u8,
        ]);
    }
}

proof fn lemma_one_group(w: Seq<u8>, a: int)
    requires
        w.len() >= 1,
        w[0] == a,
        0 <= a < 128,
    ensures
        length_in(w) == Ok::<(int, int), Fault>((a, 1)),
{
    assert(w[0] % 128 == a);
}

proof fn lemma_two_groups(w: Seq<u8>, a: int, b: int)
    requires
        w.len() >= 2,
        w[0] == a + 128,
        w[1] == b,
        0 <= a < 128,
        0 <= b < 128,
    ensures
        length_in(w) == Ok::<(int, int), Fault>((a + b * 128, 2)),
{
    assert(w[0] % 128 == a);
    assert(w[1] % 128 == b);
    assert(length_from(w, 0, 1, 0) == length_from(w, 1, 128, a));
}

proof fn lemma_three_groups(w: Seq<u8>, a: int, b: int, c: int)
    requires
        w.len() >= 3,
        w[0] == a + 128,
        w[1] == b + 128,
        w[2] == c,
        0 <= a < 128,
        0 <= b < 128,
        0 <= c < 128,
        a + b * 128 + c * 16384 <= MAX_PACKET_BYTES,
    ensures
        length_in(w) == Ok::<(int, int), Fault>((a + b * 128 + c * 16384, 3)),
{
    assert(w[0] % 128 == a);
    assert(w[1] % 128 == b);
    assert(w[2] % 128 == c);
    assert(length_from(w, 0, 1, 0) == length_from(w, 1, 128, a));
    assert(length_from(w, 1, 128, a) == length_from(w, 2, 16384, a + b * 128));
}

/// A length up to the cap is read back from its bytes.
pub proof fn law_remaining_length_is_read_back(n: nat, rest: Seq<u8>)
    requires
        n <= MAX_PACKET_BYTES,
    ensures
        length_in(remaining(n) + rest) == Ok::<(int, int), Fault>(
            (n as int, remaining(n).len() as int),
        ),
{
    lemma_remaining_shape(n);
    let w = remaining(n) + rest;
    assert(forall|i: int| 0 <= i < remaining(n).len() ==> w[i] == remaining(n)[i]);
    if n < 128 {
        assert(w[0] == remaining(n)[0]);
        lemma_one_group(w, n as int);
    } else if n < 16384 {
        assert(w[0] == remaining(n)[0]);
        assert(w[1] == remaining(n)[1]);
        lemma_two_groups(w, n as int % 128, n as int / 128);
    } else {
        assert(w[0] == remaining(n)[0]);
        assert(w[1] == remaining(n)[1]);
        assert(w[2] == remaining(n)[2]);
        lemma_three_groups(w, n as int % 128, (n as int / 128) % 128, n as int / 16384);
    }
}

proof fn lemma_header(first: u8, body: Seq<u8>, k: int)
    requires
        body.len() <= MAX_PACKET_BYTES,
        0 <= k,
    ensures
        ({
            let w = seq![first] + remaining(body.len()) + body;
            let h = 1 + remaining(body.len()).len();
            &&& header_end(w, 1) == Ok::<Option<int>, Fault>(Some(h as int))
            &&& (k < h ==> header_end(w.take(k), 1) == Ok::<Option<int>, Fault>(None))
            &&& (h <= k <= w.len() ==> header_end(w.take(k), 1) == Ok::<Option<int>, Fault>(
                Some(h as int),
            ))
        }),
{
    let n = body.len();
    lemma_remaining_shape(n);
    let w = seq![first] + remaining(n) + body;
    reveal_with_fuel(header_end, 5);
    assert(forall|i: int| 0 <= i < remaining(n).len() ==> w[1 + i] == remaining(n)[i]);
    if n < 128 {
        assert(w[1] == remaining(n)[0]);
    } else if n < 16384 {
        assert(w[1] == remaining(n)[0]);
        assert(w[2] == remaining(n)[1]);
    } else {
        assert(w[1] == remaining(n)[0]);
        assert(w[2] == remaining(n)[1]);
        assert(w[3] == remaining(n)[2]);
    }
}

proof fn lemma_frame(first: u8, body: Seq<u8>, rest: Seq<u8>)
    requires
        body.len() <= MAX_PACKET_BYTES,
    ensures
        ({
            let w = seq![first] + remaining(body.len()) + body;
            frame(w + rest) == match decoded(first, body) {
                Ok(m) => Ok::<Option<(Message, int)>, Fault>(Some((m, w.len() as int))),
                Err(f) => Err(f),
            }
        }),
{
    let w = seq![first] + remaining(body.len()) + body;
    let long = seq![first] + remaining(body.len()) + (body + rest);
    let s = w + rest;
    let h = 1 + remaining(body.len()).len() as int;
    lemma_remaining_shape(body.len());
    lemma_header(first, body, h);
    assert(w.take(h) =~= s.take(h));
    lemma_header_prefix(s, h, 1);
    assert(s.subrange(1, h) =~= remaining(body.len()) + Seq::<u8>::empty());
    law_remaining_length_is_read_back(body.len(), Seq::empty());
    assert(s.subrange(h, h + body.len()) =~= body);
    assert(s[0] == first);
}

proof fn lemma_header_prefix(s: Seq<u8>, h: int, used: int)
    requires
        1 <= used,
        0 <= h <= s.len(),
        header_end(s.take(h), used) is Ok,
        header_end(s.take(h), used)->Ok_0 is Some,
    ensures
        header_end(s, used) == header_end(s.take(h), used),
    decreases s.len() - used,
{
    if used < h {
        assert(s.take(h)[used] == s[used]);
        if s[used] >= 128 && used <= 4 {
            lemma_header_prefix(s, h, used + 1);
        }
    }
}

/// The first byte and the variable part of a packet.
spec fn split_message(m: Message) -> (u8, Seq<u8>) {
    match m {
        Message::Connect(c) => (0x10, connect_bytes(c)),
        Message::ConnAck { session_present, return_code } => (
            0x20,
            seq![bit(session_present) as u8, return_code],
        ),
        Message::Publish(p) => (publish_first(p), publish_bytes(p)),
        Message::Subscribe { packet_id, topics } => (
            0x82,
            be16(packet_id as int) + topics_bytes(topics),
        ),
        Message::SubAck { packet_id, codes } => (0x90, be16(packet_id as int) + codes),
        Message::PingReq => (0xC0, Seq::empty()),
        Message::PingResp => (0xD0, Seq::empty()),
        Message::Disconnect => (0xE0, Seq::empty()),
    }
}

proof fn lemma_message_bytes(m: Message)
    requires
        encoded(m) is Ok,
    ensures
        ({
            let (first, body) = split_message(m);
            &&& encoded(m)->Ok_0 == seq![first] + remaining(body.len()) + body
            &&& body.len() <= MAX_PACKET_BYTES
        }),
{
    let (first, body) = split_message(m);
    match m {
        Message::ConnAck { .. } | Message::PingReq | Message::PingResp | Message::Disconnect => {
            assert(remaining(body.len()) == seq![body.len() as u8]);
            assert(encoded(m)->Ok_0 =~= seq![first] + remaining(body.len()) + body);
        },
        _ => {},
    }
}

proof fn lemma_message_read(m: Message)
    requires
        expressible(m),
    ensures
        decoded(split_message(m).0, split_message(m).1) == Ok::<Message, Fault>(m),
{
    match m {
        Message::Connect(c) => {
            lemma_connect_read(c);
        },
        Message::Publish(p) => {
            lemma_publish_read(p);
        },
        Message::Subscribe { packet_id, topics } => {
            let pre = be16(packet_id as int);
            let body = pre + topics_bytes(topics);
            lemma_topics_read(pre, topics);
            assert(body[0] == pre[0] && body[1] == pre[1]);
            assert(u16_at(body, 0) == packet_id);
        },
        Message::SubAck { packet_id, codes } => {
            let pre = be16(packet_id as int);
            let body = pre + codes;
            assert(body[0] == pre[0] && body[1] == pre[1]);
            assert(u16_at(body, 0) == packet_id);
            assert(body.skip(2) =~= codes);
        },
        _ => {},
    }
}

/// A packet that was written is the first that is read, whatever follows it in
/// the stream, and exactly its bytes are taken.
pub proof fn law_packet_is_read_back(m: Message, rest: Seq<u8>)
    requires
        expressible(m),
        encoded(m) is Ok,
    ensures
        frame(encoded(m)->Ok_0 + rest) == Ok::<Option<(Message, int)>, Fault>(
            Some((m, encoded(m)->Ok_0.len() as int)),
        ),
{
    let (first, body) = split_message(m);
    lemma_message_bytes(m);
    lemma_message_read(m);
    lemma_frame(first, body, rest);
}

/// A packet of which only a part has arrived is not read yet.
pub proof fn law_partial_packet_is_kept(m: Message, k: int)
    requires
        expressible(m),
        encoded(m) is Ok,
        0 <= k < encoded(m)->Ok_0.len(),
    ensures
        frame(encoded(m)->Ok_0.take(k)) == Ok::<Option<(Message, int)>, Fault>(None),
{
    let (first, body) = split_message(m);
    lemma_message_bytes(m);
    let w = encoded(m)->Ok_0.take(k);
    let h = 1 + remaining(body.len()).len() as int;
    lemma_header(first, body, k);
    if k >= h {
        assert(w.subrange(1, h) =~= remaining(body.len()) + Seq::<u8>::empty());
        law_remaining_length_is_read_back(body.len(), Seq::empty());
    }
}

/// The packets that are whole at the front of a buffer, what is left of it, and
/// the fault that stops it.
#[verifier::opaque]
pub open spec fn drained(buf: Seq<u8>) -> (Seq<Message>, Seq<u8>, Option<Fault>)
    decreases buf.len(),
{
    match frame(buf) {
        Err(f) => (Seq::empty(), buf, Some(f)),
        Ok(None) => (Seq::empty(), buf, None),
        Ok(Some((m, n))) => if 0 < n <= buf.len() {
            let rest = drained(buf.skip(n));
            (seq![m] + rest.0, rest.1, rest.2)
        } else {
            (Seq::empty(), buf, None)
        },
    }
}

/// The fault of a stream that ended.
pub open spec fn closed_fault() -> Fault {
    fault(ErrorCode::Internal, "MQTT connection closed"@)
}

/// The fault of a buffer that grew too long.
pub open spec fn exceeded_fault() -> Fault {
    fault(ErrorCode::MaxRecordSize, "MQTT framed buffer exceeded"@)
}

/// What a reader gives of a stream that comes in pieces and then ends, `buf`
/// being what it has read already: packets, and the fault behind them. It takes
/// packets off its buffer as long as there are whole ones, and only then reads
/// the next piece.
pub open spec fn heard(buf: Seq<u8>, pieces: Seq<Seq<u8>>) -> (Seq<Message>, Fault)
    decreases pieces.len(),
{
    let (packets, left, stop) = drained(buf);
    match stop {
        Some(f) => (packets, f),
        None => if pieces.len() == 0 || pieces[0].len() == 0 {
            (packets, closed_fault())
        } else if left.len() + pieces[0].len() > MAX_PACKET_BYTES + 8 {
            (packets, exceeded_fault())
        } else {
            let rest = heard(left + pieces[0], pieces.skip(1));
            (packets + rest.0, rest.1)
        },
    }
}

/// A packet that can be sent and is read as it was.
#[verifier::opaque]
pub open spec fn passes(m: Message) -> bool {
    expressible(m) && encoded(m) is Ok
}

/// The bytes of a packet.
#[verifier::opaque]
pub open spec fn wire(m: Message) -> Seq<u8> {
    encoded(m)->Ok_0
}

/// The bytes of packets that are sent one after another.
pub open spec fn sent(ms: Seq<Message>) -> Seq<u8>
    decreases ms.len(),
{
    if ms.len() == 0 {
        Seq::empty()
    } else {
        wire(ms[0]) + sent(ms.skip(1))
    }
}

/// Pieces of a stream, put together.
pub open spec fn joined(pieces: Seq<Seq<u8>>) -> Seq<u8>
    decreases pieces.len(),
{
    if pieces.len() == 0 {
        Seq::empty()
    } else {
        pieces[0] + joined(pieces.skip(1))
    }
}

/// How many bytes a packet takes.
pub open spec fn wire_len(m: Message) -> int {
    wire(m).len() as int
}

/// Packets that can be sent and are read as they were.
pub open spec fn sendable(ms: Seq<Message>) -> bool {
    forall|i: int| 0 <= i < ms.len() ==> passes(#[trigger] ms[i])
}

/// A buffer that begins with a whole packet gives that packet.
proof fn lemma_whole_packet(m: Message, more: Seq<u8>)
    requires
        passes(m),
    ensures
        wire(m).len() > 0,
        drained(wire(m) + more) == (
            seq![m] + drained(more).0,
            drained(more).1,
            drained(more).2,
        ),
{
    reveal(passes);
    reveal(wire);
    lemma_message_bytes(m);
    law_packet_is_read_back(m, more);
    let n = wire(m).len() as int;
    assert((wire(m) + more).skip(n) =~= more);
    assert(frame(wire(m) + more) == Ok::<Option<(Message, int)>, Fault>(Some((m, n))));
    assert(drained(wire(m) + more) == (
        seq![m] + drained((wire(m) + more).skip(n)).0,
        drained((wire(m) + more).skip(n)).1,
        drained((wire(m) + more).skip(n)).2,
    )) by {
        reveal(drained);
    }
}

/// A buffer that holds only a part of a packet gives nothing.
proof fn lemma_part_of_a_packet(m: Message, k: int)
    requires
        passes(m),
        0 <= k < wire(m).len(),
    ensures
        drained(wire(m).take(k)) == (Seq::<Message>::empty(), wire(m).take(k), None::<Fault>),
{
    reveal(passes);
    reveal(wire);
    law_partial_packet_is_kept(m, k);
    reveal(drained);
}

/// A buffer gives the packets that are whole in it; the number of them is the
/// result, and less than a packet is left.
proof fn lemma_drained(buf: Seq<u8>, rest: Seq<u8>, ms: Seq<Message>) -> (k: nat)
    requires
        sendable(ms),
        buf + rest == sent(ms),
    ensures
        k <= ms.len(),
        drained(buf).0 == ms.take(k as int),
        drained(buf).2 is None,
        drained(buf).1 + rest == sent(ms.skip(k as int)),
        k < ms.len() ==> drained(buf).1.len() < wire_len(ms[k as int]),
        k == ms.len() ==> drained(buf).1.len() == 0 && rest.len() == 0,
    decreases ms.len(),
{
    if ms.len() == 0 {
        assert(buf.len() + rest.len() == (buf + rest).len());
        assert(ms.take(0) =~= Seq::<Message>::empty());
        assert(ms.skip(0) =~= ms);
        assert(buf =~= Seq::<u8>::empty());
        assert(drained(buf) == (Seq::<Message>::empty(), buf, None::<Fault>)) by {
            reveal(drained);
        }
        0
    } else {
        let e = wire(ms[0]);
        let tail = ms.skip(1);
        assert(passes(ms[0]));
        assert(sendable(tail)) by {
            assert forall|i: int| 0 <= i < tail.len() implies passes(#[trigger] tail[i]) by {
                assert(tail[i] == ms[i + 1]);
            }
        }
        assert forall|i: int| 0 <= i < buf.len() && i < e.len() implies buf[i] == e[i] by {
            assert((buf + rest)[i] == (e + sent(tail))[i]);
        }
        if buf.len() >= e.len() {
            let more = buf.skip(e.len() as int);
            assert(buf =~= e + more);
            assert(more + rest =~= sent(tail)) by {
                assert((buf + rest).skip(e.len() as int) =~= more + rest);
                assert((e + sent(tail)).skip(e.len() as int) =~= sent(tail));
            }
            lemma_whole_packet(ms[0], more);
            let k = lemma_drained(more, rest, tail);
            assert(ms.take(k as int + 1) =~= seq![ms[0]] + tail.take(k as int));
            assert(ms.skip(k as int + 1) =~= tail.skip(k as int));
            k + 1
        } else {
            assert(buf =~= e.take(buf.len() as int));
            lemma_part_of_a_packet(ms[0], buf.len() as int);
            assert(ms.take(0) =~= Seq::<Message>::empty());
            assert(ms.skip(0) =~= ms);
            0
        }
    }
}

/// What is read of packets of which the first bytes are in the buffer.
proof fn lemma_heard(buf: Seq<u8>, pieces: Seq<Seq<u8>>, ms: Seq<Message>)
    requires
        sendable(ms),
        buf + joined(pieces) == sent(ms),
        forall|i: int| 0 <= i < pieces.len() ==> (#[trigger] pieces[i]).len() > 0,
    ensures
        ({
            let (packets, end) = heard(buf, pieces);
            ||| packets == ms && end == closed_fault()
            ||| packets.is_prefix_of(ms) && end == exceeded_fault() && exists|i: int, j: int|
                0 <= i < ms.len() && 0 <= j < pieces.len() && #[trigger] wire_len(
                    ms[i],
                ) + (#[trigger] pieces[j]).len() > MAX_PACKET_BYTES + 9
        }),
    decreases pieces.len(),
{
    let k = lemma_drained(buf, joined(pieces), ms) as int;
    let (packets, left, stop) = drained(buf);
    if pieces.len() == 0 {
        if k < ms.len() {
            assert(left + joined(pieces) =~= left);
            assert(ms.skip(k)[0] == ms[k]);
            assert(sent(ms.skip(k)) == wire(ms[k]) + sent(ms.skip(k).skip(1)));
        }
        assert(ms.take(k) =~= ms);
    } else {
        assert(pieces[0].len() > 0);
        assert(k < ms.len());
        if left.len() + pieces[0].len() > MAX_PACKET_BYTES + 8 {
            assert(wire_len(ms[k]) + pieces[0].len() > MAX_PACKET_BYTES + 9);
        } else {
            let tail = ms.skip(k);
            let after = pieces.skip(1);
            assert forall|i: int| 0 <= i < tail.len() implies passes(#[trigger] tail[i]) by {
                assert(tail[i] == ms[i + k]);
            }
            assert forall|i: int| 0 <= i < after.len() implies (#[trigger] after[i]).len() > 0 by {
                assert(after[i] == pieces[i + 1]);
            }
            assert(left + pieces[0] + joined(after) =~= left + joined(pieces));
            lemma_heard(left + pieces[0], after, tail);
            let (rest, end) = heard(left + pieces[0], after);
            assert(ms =~= ms.take(k) + tail);
            if end != closed_fault() || rest != tail {
                let (i, j) = choose|i: int, j: int|
                    0 <= i < tail.len() && 0 <= j < after.len() && #[trigger] wire_len(
                        tail[i],
                    ) + (#[trigger] after[j]).len() > MAX_PACKET_BYTES + 9;
                assert(tail[i] == ms[i + k] && after[j] == pieces[j + 1]);
                assert((packets + rest).is_prefix_of(ms));
            }
        }
    }
}

/// However a stream of packets is cut into pieces, its packets come out in
/// order, none lost and none twice, and then the end of the stream. Only where
/// the buffer grows too long does reading stop before: with a fault that says
/// so, behind a first part of the packets.
pub proof fn law_cut_stream_gives_its_packets(ms: Seq<Message>, pieces: Seq<Seq<u8>>)
    requires
        sendable(ms),
        joined(pieces) == sent(ms),
        forall|i: int| 0 <= i < pieces.len() ==> (#[trigger] pieces[i]).len() > 0,
    ensures
        ({
            let (packets, end) = heard(Seq::empty(), pieces);
            ||| packets == ms && end == closed_fault()
            ||| packets.is_prefix_of(ms) && end == exceeded_fault()
        }),
{
    assert(Seq::<u8>::empty() + joined(pieces) =~= joined(pieces));
    lemma_heard(Seq::empty(), pieces, ms);
}

/// Where no packet is so long that it and a piece of the stream overrun the
/// buffer together, every packet comes out, in order, and then the end of the
/// stream.
pub proof fn law_every_packet_of_a_stream_comes(ms: Seq<Message>, pieces: Seq<Seq<u8>>)
    requires
        sendable(ms),
        joined(pieces) == sent(ms),
        forall|i: int| 0 <= i < pieces.len() ==> (#[trigger] pieces[i]).len() > 0,
        forall|i: int, j: int|
            0 <= i < ms.len() && 0 <= j < pieces.len() ==> #[trigger] wire_len(ms[i]) + (
            #[trigger] pieces[j]).len() <= MAX_PACKET_BYTES + 9,
    ensures
        heard(Seq::empty(), pieces) == (ms, closed_fault()),
{
    assert(Seq::<u8>::empty() + joined(pieces) =~= joined(pieces));
    lemma_heard(Seq::empty(), pieces, ms);
}

} // verus!
